use homepage_backend::config::{Config, ConfigError, EnvValues, parse_u16, str_eq};

fn empty_env() -> EnvValues {
    EnvValues {
        server_port: None,
        database_host: None,
        database_port: None,
        database_name: None,
        redis_url: None,
        vault_addr: None,
        vault_role_id: None,
        vault_secret_id: None,
        enable_mtls: None,
        tls_cert_path: None,
        tls_key_path: None,
        tls_ca_path: None,
    }
}

#[test]
fn defaults_apply_when_nothing_is_set() {
    let cfg = Config::from_env_values(empty_env()).unwrap();
    assert_eq!(cfg.server_port, 8000);
    assert_eq!(cfg.database_host, "localhost");
    assert_eq!(cfg.database_port, 5432);
    assert_eq!(cfg.database_name, "homepage");
    assert_eq!(cfg.redis_url, "redis://valkey:6379");
    assert_eq!(cfg.vault_addr, "http://vault:8200");
    assert_eq!(cfg.vault_role_id, "");
    assert_eq!(cfg.vault_secret_id, "");
    assert!(!cfg.enable_mtls);
    assert_eq!(cfg.tls_cert_path, "/vault/secrets/tls.crt");
    assert_eq!(cfg.tls_key_path, "/vault/secrets/tls.key");
    assert_eq!(cfg.tls_ca_path, "/vault/secrets/ca.crt");
}

#[test]
fn set_values_override_defaults() {
    let mut env = empty_env();
    env.server_port = Some("9090".to_string());
    env.database_host = Some("db.internal".to_string());
    env.database_port = Some("6543".to_string());
    env.database_name = Some("appdb".to_string());
    env.enable_mtls = Some("true".to_string());
    let cfg = Config::from_env_values(env).unwrap();
    assert_eq!(cfg.server_port, 9090);
    assert_eq!(cfg.database_host, "db.internal");
    assert_eq!(cfg.database_port, 6543);
    assert_eq!(cfg.database_name, "appdb");
    assert!(cfg.enable_mtls);
}

#[test]
fn bad_server_port_is_rejected() {
    let mut env = empty_env();
    env.server_port = Some("eighty".to_string());
    let err = Config::from_env_values(env).unwrap_err();
    assert_eq!(err, ConfigError::InvalidServerPort);
    assert_eq!(err.message(), "invalid SERVER_PORT value");
}

#[test]
fn bad_database_port_is_rejected() {
    let mut env = empty_env();
    env.database_port = Some("65536".to_string());
    let err = Config::from_env_values(env).unwrap_err();
    assert_eq!(err, ConfigError::InvalidDatabasePort);
    assert_eq!(err.message(), "invalid DATABASE_PORT value");
}

#[test]
fn bad_server_port_reported_before_bad_database_port() {
    let mut env = empty_env();
    env.server_port = Some("".to_string());
    env.database_port = Some("nope".to_string());
    assert_eq!(
        Config::from_env_values(env).unwrap_err(),
        ConfigError::InvalidServerPort
    );
}

#[test]
fn mtls_flag_accepts_only_the_exact_word_true() {
    for (raw, expected) in [
        ("true", true),
        ("false", false),
        ("TRUE", false),
        ("1", false),
        ("yes", false),
    ] {
        let mut env = empty_env();
        env.enable_mtls = Some(raw.to_string());
        let cfg = Config::from_env_values(env).unwrap();
        assert_eq!(cfg.enable_mtls, expected, "value {raw:?}");
    }
}

#[test]
fn parse_u16_accepts_the_port_grammar() {
    assert_eq!(parse_u16("0"), Some(0));
    assert_eq!(parse_u16("8000"), Some(8000));
    assert_eq!(parse_u16("+8080"), Some(8080));
    assert_eq!(parse_u16("65535"), Some(65535));
    assert_eq!(parse_u16("000065535"), Some(65535));
    assert_eq!(parse_u16("65536"), None);
    assert_eq!(parse_u16("99999999999999999999"), None);
    assert_eq!(parse_u16(""), None);
    assert_eq!(parse_u16("+"), None);
    assert_eq!(parse_u16("-1"), None);
    assert_eq!(parse_u16("12a"), None);
    assert_eq!(parse_u16(" 12"), None);
}

#[test]
fn parse_u16_matches_the_standard_parser() {
    for s in ["0", "8000", "+8080", "65535", "65536", "", "+", "-1", "12a", "007"] {
        assert_eq!(parse_u16(s), s.parse::<u16>().ok(), "input {s:?}");
    }
}

#[test]
fn str_eq_compares_contents() {
    assert!(str_eq("", ""));
    assert!(str_eq("abc", "abc"));
    assert!(!str_eq("abc", "abd"));
    assert!(!str_eq("abc", "abcd"));
    assert!(str_eq("héllo", "héllo"));
    assert!(!str_eq("héllo", "hello"));
}
