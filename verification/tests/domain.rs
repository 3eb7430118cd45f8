use newsletter::configuration::Environment;
use newsletter::domain::NewSubscriber;
use newsletter::domain::SubscriberEmail;
use newsletter::domain::SubscriberName;
use newsletter::subscriptions::FormData;
use newsletter::subscriptions::parse_subscriber;

#[test]
fn a_valid_email_is_accepted_unchanged() {
    let e = SubscriberEmail::parse("ursula_le_guin@gmail.com".to_string()).unwrap();
    assert_eq!(e.as_str(), "ursula_le_guin@gmail.com");
}

#[test]
fn malformed_emails_are_rejected_with_a_message_naming_the_input() {
    for bad in ["", "definitely-not-an-email", "@domain.com", "ursula@", "two@at@signs", "a space@x", "\tursula@x"] {
        match SubscriberEmail::parse(bad.to_string()) {
            Err(m) => assert_eq!(m, format!("{bad} is not a valid subscriber email.")),
            Ok(_) => panic!("{bad:?} should have been rejected"),
        }
    }
}

#[test]
fn minimal_emails_pass_validation() {
    assert!(SubscriberEmail::parse("a@b".to_string()).is_ok());
}

#[test]
fn a_256_character_name_is_valid_and_a_257_character_name_is_not() {
    let ok = "a".repeat(256);
    assert!(SubscriberName::parse(ok).is_ok());
    let long = "a".repeat(257);
    match SubscriberName::parse(long.clone()) {
        Err(m) => assert_eq!(m, format!("{long} is not a valid subscriber name.")),
        Ok(_) => panic!("an overlong name should have been rejected"),
    }
}

#[test]
fn whitespace_only_and_forbidden_character_names_are_rejected() {
    for bad in ["", "   ", "\t\t", "a/b", "(a)", "a\"b", "<a>", "a\\b", "{a}"] {
        assert!(SubscriberName::parse(bad.to_string()).is_err(), "{bad:?} should have been rejected");
    }
    assert!(SubscriberName::parse("Ursula K. Le Guin".to_string()).is_ok());
}

#[test]
fn the_form_is_parsed_name_first() {
    let r: Result<NewSubscriber, String> =
        parse_subscriber(FormData { email: "bad".to_string(), name: "".to_string() });
    assert_eq!(r.err().unwrap(), " is not a valid subscriber name.");
    let r = parse_subscriber(FormData { email: "bad".to_string(), name: "Ursula".to_string() });
    assert_eq!(r.err().unwrap(), "bad is not a valid subscriber email.");
    let r = parse_subscriber(FormData {
        email: "ursula@gmail.com".to_string(),
        name: "Ursula".to_string(),
    });
    let ns = r.ok().unwrap();
    assert_eq!(ns.email.as_str(), "ursula@gmail.com");
    assert_eq!(ns.name.as_str(), "Ursula");
}

#[test]
fn environment_names_parse_case_insensitively() {
    assert!(matches!(Environment::parse("dev"), Ok(Environment::Dev)));
    assert!(matches!(Environment::parse("DEV"), Ok(Environment::Dev)));
    assert!(matches!(Environment::parse("prod"), Ok(Environment::Prod)));
    assert!(matches!(Environment::parse("Prod"), Ok(Environment::Prod)));
    match Environment::parse("staging") {
        Err(m) => assert_eq!(m, "staging is not a supported environment. Use either `dev` or `prod`."),
        Ok(_) => panic!("staging is not a supported environment"),
    }
    assert_eq!(Environment::Dev.as_str(), "dev");
    assert_eq!(Environment::Prod.as_str(), "prod");
}
