use newsletter::confirmation::confirm;
use newsletter::newsletters::BodyData;
use newsletter::newsletters::PublishError;
use newsletter::newsletters::publish_newsletter;
use newsletter::sender::EmailSender;
use newsletter::store::Store;
use newsletter::subscriptions::FormData;
use newsletter::subscriptions::subscribe;

const BASE_URL: &str = "http://127.0.0.1";

fn body() -> BodyData {
    BodyData {
        title: "Newsletter title".to_string(),
        content: "<p>Newsletter body as HTML</p>".to_string(),
    }
}

fn create_unconfirmed_subscriber(store: &mut Store, name: &str, email: &str) -> String {
    let mut sender = EmailSender::new();
    let form = FormData { email: email.to_string(), name: name.to_string() };
    subscribe(store, &mut sender, form, BASE_URL).unwrap().token
}

fn create_confirmed_subscriber(store: &mut Store, name: &str, email: &str) {
    let token = create_unconfirmed_subscriber(store, name, email);
    confirm(store, &token).unwrap();
}

#[test]
fn newsletters_are_not_delivered_to_unconfirmed_subscribers() {
    let mut store = Store::new();
    create_unconfirmed_subscriber(&mut store, "le guin", "ursula_le_guin@gmail.com");

    let mut sender = EmailSender::new();
    let response = publish_newsletter(&store, &mut sender, &body());

    assert!(response.is_ok());
    assert_eq!(0, sender.sent_count());
}

#[test]
fn newsletters_are_delivered_to_confirmed_subscribers() {
    let mut store = Store::new();
    create_confirmed_subscriber(&mut store, "le guin", "ursula_le_guin@gmail.com");

    let mut sender = EmailSender::new();
    let response = publish_newsletter(&store, &mut sender, &body());

    assert!(response.is_ok());
    assert_eq!(1, sender.sent_count());
    let sent = &sender.sent()[0];
    assert_eq!(sent.to, "ursula_le_guin@gmail.com");
    assert_eq!(sent.subject, "Newsletter title");
    assert_eq!(sent.html_body, "<p>Newsletter body as HTML</p>");
}

#[test]
fn two_confirmed_and_one_pending_give_exactly_two_sends() {
    let mut store = Store::new();
    create_confirmed_subscriber(&mut store, "first", "first@example.com");
    create_confirmed_subscriber(&mut store, "second", "second@example.com");
    create_unconfirmed_subscriber(&mut store, "third", "third@example.com");

    let mut sender = EmailSender::new();
    let response = publish_newsletter(&store, &mut sender, &body());

    assert!(response.is_ok());
    assert_eq!(2, sender.sent_count());
    let recipients: Vec<&str> = sender.sent().iter().map(|s| s.to.as_str()).collect();
    assert_eq!(recipients, vec!["first@example.com", "second@example.com"]);
}

#[test]
fn a_single_malformed_stored_email_is_skipped_and_the_rest_are_delivered() {
    let mut store = Store::new();
    create_confirmed_subscriber(&mut store, "first", "first@example.com");
    // A corrupt legacy row: stored before validation was in place.
    let mut txn = store.begin_transaction();
    txn.insert_subscriber(7, "definitely-not-an-email", "corrupt", 0).unwrap();
    store.commit(txn);
    store.confirm_subscriber(7);
    create_confirmed_subscriber(&mut store, "second", "second@example.com");

    let mut sender = EmailSender::new();
    let response = publish_newsletter(&store, &mut sender, &body());

    assert!(response.is_ok());
    assert_eq!(2, sender.sent_count());
    let recipients: Vec<&str> = sender.sent().iter().map(|s| s.to.as_str()).collect();
    assert_eq!(recipients, vec!["first@example.com", "second@example.com"]);
}

#[test]
fn a_failed_send_aborts_the_broadcast_and_names_the_recipient() {
    let mut store = Store::new();
    create_confirmed_subscriber(&mut store, "first", "first@example.com");
    create_confirmed_subscriber(&mut store, "second", "second@example.com");
    create_confirmed_subscriber(&mut store, "third", "third@example.com");

    let mut sender = EmailSender::with_failures(vec!["second@example.com".to_string()]);
    let response = publish_newsletter(&store, &mut sender, &body());

    let e = response.err().expect("a failed send must abort the broadcast");
    assert!(matches!(e, PublishError::UnexpectedError(_)));
    assert_eq!(e.message().as_str(), "Failed to send newsletter issue to second@example.com");
    assert_eq!(500, e.status_code());
    // The first send and the failing attempt happened; the third was never tried.
    assert_eq!(2, sender.sent_count());
    let recipients: Vec<&str> = sender.sent().iter().map(|s| s.to.as_str()).collect();
    assert_eq!(recipients, vec!["first@example.com", "second@example.com"]);
}

#[test]
fn publishing_to_an_empty_store_sends_nothing() {
    let store = Store::new();
    let mut sender = EmailSender::new();
    assert!(publish_newsletter(&store, &mut sender, &body()).is_ok());
    assert_eq!(0, sender.sent_count());
}
