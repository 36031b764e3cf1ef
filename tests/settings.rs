use icc::config::Config;

fn empty() -> Config {
    Config {
        bind_address: None,
        addresses_to_monitor: None,
        max_timeouts: None,
        max_ping_timeout: None,
        db: None,
        clear_text_log: None,
    }
}

#[test]
fn defaults_fill_an_empty_file() {
    let mut c = empty();
    assert!(c.apply_defaults("store".to_string()));
    assert_eq!(c.bind_address.as_deref(), Some("0.0.0.0:4017"));
    assert_eq!(
        c.addresses_to_monitor,
        Some(vec!["8.8.8.8".to_string(), "1.1.1.1".to_string()])
    );
    assert_eq!(c.max_timeouts, Some(3));
    assert_eq!(c.max_ping_timeout, Some(1000));
    assert_eq!(c.db.as_deref(), Some("store"));
    assert_eq!(c.clear_text_log, None);
}

#[test]
fn given_settings_are_kept() {
    let mut c = Config {
        bind_address: Some("127.0.0.1:1".to_string()),
        addresses_to_monitor: Some(vec!["9.9.9.9".to_string()]),
        max_timeouts: Some(5),
        max_ping_timeout: Some(200),
        db: Some("d".to_string()),
        clear_text_log: Some("log.txt".to_string()),
    };
    assert!(!c.apply_defaults("other".to_string()));
    assert_eq!(c.bind_address.as_deref(), Some("127.0.0.1:1"));
    assert_eq!(c.addresses_to_monitor, Some(vec!["9.9.9.9".to_string()]));
    assert_eq!(c.max_timeouts, Some(5));
    assert_eq!(c.max_ping_timeout, Some(200));
    assert_eq!(c.db.as_deref(), Some("d"));
    assert_eq!(c.clear_text_log.as_deref(), Some("log.txt"));
}

#[test]
fn timeouts_alone_do_not_ask_for_a_save() {
    let mut c = empty();
    c.bind_address = Some("a".to_string());
    c.addresses_to_monitor = Some(vec![]);
    c.db = Some("d".to_string());
    assert!(!c.apply_defaults("x".to_string()));
    assert_eq!(c.max_timeouts, Some(3));
    assert_eq!(c.max_ping_timeout, Some(1000));
}

#[test]
fn generated_database_name() {
    let mut c = empty();
    assert!(c.complete());
    let name = c.db.unwrap();
    assert_eq!(name.chars().count(), 17);
    assert!(name.chars().all(|ch| ch.is_ascii_alphanumeric()));
}
