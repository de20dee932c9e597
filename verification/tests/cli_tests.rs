use hello::cli::{get_config_action, Config, Error, Provider, Verb, What};

fn args(a: &str, b: &str, c: &str) -> Vec<String> {
    vec![a.to_string(), b.to_string(), c.to_string()]
}

#[test]
fn config_action_parses_all_three() {
    let a = args("set", "key", "openai");
    let r = get_config_action(&a);
    assert!(matches!(r, Ok((Verb::Assign, What::Key, Provider::OpenAi))));
    let a = args("get", "key", "openai");
    let r = get_config_action(&a);
    assert!(matches!(r, Ok((Verb::Get, What::Key, Provider::OpenAi))));
}

#[test]
fn config_action_reports_first_bad_argument() {
    let a = args("frob", "key", "openai");
    match get_config_action(&a) {
        Err(Error::ReadConfigAction(m)) => assert_eq!(m, "Error: unrecognized verb argument"),
        _ => panic!("expected a verb error"),
    }
    let a = args("get", "frob", "openai");
    match get_config_action(&a) {
        Err(Error::ReadConfigAction(m)) => assert_eq!(m, "Error: unrecognized what argument"),
        _ => panic!("expected a what error"),
    }
    let a = args("get", "key", "frob");
    match get_config_action(&a) {
        Err(Error::ReadConfigAction(m)) => assert_eq!(m, "Error: unrecognized who argument"),
        _ => panic!("expected a who error"),
    }
}

#[test]
fn unknown_words_fail_to_parse() {
    assert!(matches!(Verb::from_str("put"), Err(Error::ArgParse)));
    assert!(matches!(What::from_str("token"), Err(Error::ArgParse)));
    assert!(matches!(Provider::from_str("other"), Err(Error::ArgParse)));
}

#[test]
fn keys_round_trip_through_the_store() {
    let mut c = Config::new();
    assert_eq!(c.get_key(Provider::OpenAi), None);
    c.insert_key(Provider::OpenAi, String::from("test-key-123"));
    assert_eq!(c.get_key(Provider::OpenAi).as_deref(), Some("test-key-123"));
}

#[test]
fn inserting_again_replaces_the_key() {
    let mut c = Config::new();
    c.insert_key(Provider::OpenAi, String::from("first"));
    c.insert_key(Provider::OpenAi, String::from("second"));
    assert_eq!(c.get_key(Provider::OpenAi).as_deref(), Some("second"));
}
