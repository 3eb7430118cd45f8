use newsletter::sender::EmailSender;
use newsletter::store::Store;
use newsletter::store::SubscriberStatus;
use newsletter::subscriptions::FormData;
use newsletter::subscriptions::SubscribeError;
use newsletter::subscriptions::subscribe;

const BASE_URL: &str = "http://127.0.0.1";

fn form(name: &str, email: &str) -> FormData {
    FormData { email: email.to_string(), name: name.to_string() }
}

#[test]
fn subscribe_returns_a_200_for_valid_form_data() {
    let mut store = Store::new();
    let mut sender = EmailSender::new();
    let r = subscribe(&mut store, &mut sender, form("le guin", "ursula_le_guin@gmail.com"), BASE_URL);
    assert!(r.is_ok());
}

#[test]
fn subscribe_persists_the_new_subscriber() {
    let mut store = Store::new();
    let mut sender = EmailSender::new();
    let fake_name = "le guin";
    let fake_email = "ursula_le_guin@gmail.com";
    subscribe(&mut store, &mut sender, form(fake_name, fake_email), BASE_URL).unwrap();

    let saved = store.find_subscriber_by_email(fake_email).expect("Failed to fetch saved subscription.");
    assert_eq!(saved.email, fake_email);
    assert_eq!(saved.name, fake_name);
    assert_eq!(saved.status, SubscriberStatus::PendingConfirmation);
}

#[test]
fn subscriptions_subscribe_400_rt() {
    let cases: Vec<(FormData, &str)> = vec![
        (form("le guin", ""), "missing the email"),
        (form("", "ursula_le_guin@gmail.com"), "missing the name"),
        (form("", ""), "missing both name and email"),
        (form("", "ursula_le_guin@gmail.com"), "empty name"),
        (form("Ursula", ""), "empty email"),
        (form("Ursula", "definitely-not-an-email"), "invalid email"),
    ];
    for (data, error_message) in cases {
        let mut store = Store::new();
        let mut sender = EmailSender::new();
        let r = subscribe(&mut store, &mut sender, data, BASE_URL);
        let e = r.err().expect(error_message);
        assert_eq!(
            400,
            e.status_code(),
            "The API did not fail with 400 Bad Request when the payload was {error_message}."
        );
        assert_eq!(0, store.subscriber_count());
        assert_eq!(0, sender.sent_count());
    }
}

#[test]
fn subscribe_sends_a_confirmation_email_for_valid_data() {
    let mut store = Store::new();
    let mut sender = EmailSender::new();
    subscribe(&mut store, &mut sender, form("le guin", "ursula_le_guin@gmail.com"), BASE_URL).unwrap();
    assert_eq!(1, sender.sent_count());
    let sent = &sender.sent()[0];
    assert_eq!(sent.to, "ursula_le_guin@gmail.com");
    assert_eq!(sent.subject, "Welcome!");
}

#[test]
fn subscribe_sends_a_confirmation_email_with_a_link() {
    let mut store = Store::new();
    let mut sender = EmailSender::new();
    subscribe(&mut store, &mut sender, form("le guin", "ursula_le_guin@gmail.com"), BASE_URL).unwrap();
    let sent = &sender.sent()[0];
    let start = sent.html_body.find("http://").expect("no link in the confirmation email");
    assert!(sent.html_body[start..].starts_with("http://"));
}

#[test]
fn subscribe_rejects_a_duplicate_email_and_leaves_the_store_unchanged() {
    let mut store = Store::new();
    let mut sender = EmailSender::new();
    subscribe(&mut store, &mut sender, form("le guin", "ursula_le_guin@gmail.com"), BASE_URL).unwrap();
    let r = subscribe(&mut store, &mut sender, form("other name", "ursula_le_guin@gmail.com"), BASE_URL);
    match r {
        Err(SubscribeError::UnexpectedError(m)) => {
            assert_eq!(m, "Failed to insert new subscriber in the database.");
        }
        _ => panic!("a duplicate email must be rejected as an unexpected error"),
    }
    assert_eq!(1, store.subscriber_count());
    assert_eq!(1, store.token_count());
    assert_eq!(1, sender.sent_count());
}

#[test]
fn subscribe_reports_a_send_failure_but_keeps_the_subscriber() {
    let mut store = Store::new();
    let mut sender = EmailSender::with_failures(vec!["ursula_le_guin@gmail.com".to_string()]);
    let r = subscribe(&mut store, &mut sender, form("le guin", "ursula_le_guin@gmail.com"), BASE_URL);
    match r {
        Err(SubscribeError::UnexpectedError(m)) => {
            assert_eq!(m, "Failed to send a confirmation email.");
            assert_eq!(500, SubscribeError::UnexpectedError(m).status_code());
        }
        _ => panic!("a send failure must surface as an unexpected error"),
    }
    let saved = store.find_subscriber_by_email("ursula_le_guin@gmail.com").unwrap();
    assert_eq!(saved.status, SubscriberStatus::PendingConfirmation);
    // The committed token survives too: the subscriber is in recoverable limbo.
    assert_eq!(1, store.token_count());
    assert_eq!(1, sender.sent_count());
}

#[test]
fn subscribe_issues_a_well_formed_token() {
    let mut store = Store::new();
    let mut sender = EmailSender::new();
    let p = subscribe(&mut store, &mut sender, form("le guin", "ursula_le_guin@gmail.com"), BASE_URL).unwrap();
    assert_eq!(25, p.token.chars().count());
    assert!(p.token.chars().all(|c| c.is_ascii_alphanumeric()));
}
