use newsletter::sender::EmailSender;
use newsletter::store::Store;
use newsletter::subscriptions::FormData;
use newsletter::subscriptions::subscribe;

const BASE_URL: &str = "http://127.0.0.1";

#[test]
fn subscribe_200() {
    let mut store = Store::new();
    let mut sender = EmailSender::new();
    let form = FormData { email: "arya@gmail.com".to_string(), name: "Arya Stark".to_string() };
    let response = subscribe(&mut store, &mut sender, form, BASE_URL);
    assert!(response.is_ok());

    let saved = store.find_subscriber_by_email("arya@gmail.com").expect("Failed to fetch saved subscription.");
    assert_eq!(saved.email, "arya@gmail.com");
    assert_eq!(saved.name, "Arya Stark");
}

#[test]
fn health_check_subscribe_400_rt() {
    let cases: Vec<(FormData, &str)> = vec![
        (FormData { email: String::new(), name: "le guin".to_string() }, "missing the email"),
        (FormData { email: "ursula_le_guin@gmail.com".to_string(), name: String::new() }, "missing the name"),
        (FormData { email: String::new(), name: String::new() }, "missing both name and email"),
    ];
    for (data, error_message) in cases {
        let mut store = Store::new();
        let mut sender = EmailSender::new();
        let response = subscribe(&mut store, &mut sender, data, BASE_URL);
        let e = response.err().expect(error_message);
        assert_eq!(
            400,
            e.status_code(),
            "The API did not fail with 400 Bad Request when the payload was {error_message}."
        );
    }
}
