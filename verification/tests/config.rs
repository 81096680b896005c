use stars::config::Config;

#[test]
fn defaults_from_map() {
    let cfg = Config::from_map(|_| None);
    assert_eq!(cfg.database_url, "sqlite://stars.db");
    assert_eq!(cfg.bind_addr, "0.0.0.0:8080");
    assert!(cfg.dev_user.is_none());
}

#[test]
fn overrides_from_map() {
    let cfg = Config::from_map(|k| match k {
        "DATABASE_URL" => Some("sqlite:///data/x.db".into()),
        "DEV_USER" => Some("alice".into()),
        _ => None,
    });
    assert_eq!(cfg.database_url, "sqlite:///data/x.db");
    assert_eq!(cfg.dev_user.as_deref(), Some("alice"));
}

#[test]
fn empty_dev_user_is_unset() {
    let cfg = Config::from_map(|k| match k {
        "DEV_USER" => Some(String::new()),
        "BIND_ADDR" => Some("127.0.0.1:9000".into()),
        _ => None,
    });
    assert!(cfg.dev_user.is_none());
    assert_eq!(cfg.bind_addr, "127.0.0.1:9000");
    assert_eq!(cfg.database_url, "sqlite://stars.db");
}
