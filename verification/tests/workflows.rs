use newsletter::confirmation::confirm;
use newsletter::sender::EmailSender;
use newsletter::store::Store;
use newsletter::store::SubscriberStatus;
use newsletter::subscriptions::FormData;
use newsletter::subscriptions::SubscribeError;
use newsletter::subscriptions::confirmation_email_html;
use newsletter::subscriptions::confirmation_link;
use newsletter::subscriptions::generate_subscription_token;
use newsletter::subscriptions::subscribe;

const BASE_URL: &str = "http://127.0.0.1";

#[test]
fn subscribing_creates_one_pending_row_and_one_resolving_token() {
    let mut store = Store::new();
    let mut sender = EmailSender::new();
    let form = FormData { email: "arya@example.com".to_string(), name: "Arya Stark".to_string() };
    let p = subscribe(&mut store, &mut sender, form, BASE_URL).unwrap();

    assert_eq!(1, store.subscriber_count());
    assert_eq!(1, store.token_count());
    assert_eq!(Some(p.subscriber_id), store.find_subscriber_by_token(&p.token));
    let saved = store.find_subscriber_by_email("arya@example.com").unwrap();
    assert_eq!(saved.id, p.subscriber_id);
    assert_eq!(saved.status, SubscriberStatus::PendingConfirmation);
}

#[test]
fn submitting_a_form_and_following_the_emailed_link_confirms_the_subscriber() {
    let mut store = Store::new();
    let mut sender = EmailSender::new();
    let form = FormData { email: "arya@example.com".to_string(), name: "Arya Stark".to_string() };
    let response = subscribe(&mut store, &mut sender, form, BASE_URL);
    assert!(response.is_ok());
    let saved = store.find_subscriber_by_email("arya@example.com").unwrap();
    assert_eq!(saved.status, SubscriberStatus::PendingConfirmation);

    // Extract the confirmation link from the one email that went out.
    assert_eq!(1, sender.sent_count());
    let html = sender.sent()[0].html_body.clone();
    let start = html.find("http://").expect("no link in the confirmation email");
    let rest = &html[start..];
    let end = rest.find('"').expect("unterminated link");
    let link = &rest[..end];
    let marker = "subscription_token=";
    let token_at = link.find(marker).expect("no token in the link") + marker.len();
    let token = &link[token_at..];

    assert!(confirm(&mut store, token).is_ok());
    let saved = store.find_subscriber_by_email("arya@example.com").unwrap();
    assert_eq!(saved.status, SubscriberStatus::Confirmed);
}

#[test]
fn submitting_an_empty_email_is_a_client_error_and_creates_no_row() {
    let mut store = Store::new();
    let mut sender = EmailSender::new();
    let form = FormData { email: String::new(), name: "Arya Stark".to_string() };
    let response = subscribe(&mut store, &mut sender, form, BASE_URL);
    let e = response.err().expect("an empty email must be a validation error");
    assert!(matches!(e, SubscribeError::ValidationError(_)));
    assert_eq!(e.message().as_str(), " is not a valid subscriber email.");
    assert_eq!(400, e.status_code());
    assert_eq!(0, store.subscriber_count());
    assert_eq!(0, sender.sent_count());
}

#[test]
fn the_confirmation_link_and_email_have_exactly_the_documented_shape() {
    let link = confirmation_link("http://example.org", "abcDEF0123456789zyxWVU987");
    assert_eq!(
        link,
        "http://example.org/subscriptions/confirm?subscription_token=abcDEF0123456789zyxWVU987"
    );
    let html = confirmation_email_html("http://example.org", "abcDEF0123456789zyxWVU987");
    assert_eq!(
        html,
        "Welcome to our newsletter!<br />Click <a href=\"http://example.org/subscriptions/confirm?subscription_token=abcDEF0123456789zyxWVU987\">here</a> to confirm your subscription."
    );
}

#[test]
fn generated_tokens_are_25_alphanumeric_characters() {
    let t = generate_subscription_token();
    assert_eq!(25, t.chars().count());
    assert!(t.chars().all(|c| c.is_ascii_alphanumeric()));
    let u = generate_subscription_token();
    assert_eq!(25, u.chars().count());
}
