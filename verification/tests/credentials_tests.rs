use homepage_backend::config::{Config, EnvValues};
use homepage_backend::credentials::{
    CredentialError, FallbackEnv, LoginMethod, SecretPayload, SecretReadOutcome, login_method,
    resolve_credentials, secret_path,
};

fn config_with_vault_ids(role_id: &str, secret_id: &str) -> Config {
    let env = EnvValues {
        server_port: None,
        database_host: None,
        database_port: None,
        database_name: None,
        redis_url: None,
        vault_addr: None,
        vault_role_id: Some(role_id.to_string()),
        vault_secret_id: Some(secret_id.to_string()),
        enable_mtls: None,
        tls_cert_path: None,
        tls_key_path: None,
        tls_ca_path: None,
    };
    Config::from_env_values(env).unwrap()
}

#[test]
fn both_identifiers_present_means_explicit_login() {
    let cfg = config_with_vault_ids("role-123", "secret-456");
    assert_eq!(login_method(&cfg), LoginMethod::AppRole);
}

#[test]
fn missing_role_id_skips_login() {
    let cfg = config_with_vault_ids("", "secret-456");
    assert_eq!(login_method(&cfg), LoginMethod::AmbientToken);
}

#[test]
fn missing_secret_id_skips_login() {
    let cfg = config_with_vault_ids("role-123", "");
    assert_eq!(login_method(&cfg), LoginMethod::AmbientToken);
}

#[test]
fn missing_both_identifiers_skips_login() {
    let cfg = config_with_vault_ids("", "");
    assert_eq!(login_method(&cfg), LoginMethod::AmbientToken);
}

#[test]
fn secret_path_is_derived_from_the_database_name() {
    assert_eq!(secret_path(&"homepage".to_string()), "database/homepage");
    assert_eq!(secret_path(&"".to_string()), "database/");
}

#[test]
fn read_failure_falls_back_to_environment_credentials() {
    let creds = resolve_credentials(
        SecretReadOutcome::Failure,
        FallbackEnv {
            database_user: Some("envuser".to_string()),
            database_password: Some("envpass".to_string()),
        },
    )
    .unwrap();
    assert_eq!(creds.username, "envuser");
    assert_eq!(creds.password, "envpass");
}

#[test]
fn read_failure_without_environment_uses_the_placeholder_pair() {
    let creds = resolve_credentials(
        SecretReadOutcome::Failure,
        FallbackEnv { database_user: None, database_password: None },
    )
    .unwrap();
    assert_eq!(creds.username, "postgres");
    assert_eq!(creds.password, "postgres");
}

#[test]
fn well_shaped_payload_yields_its_own_pair() {
    let creds = resolve_credentials(
        SecretReadOutcome::Success(SecretPayload {
            username: Some("svc".to_string()),
            password: Some("s3cr3t".to_string()),
        }),
        FallbackEnv {
            database_user: Some("envuser".to_string()),
            database_password: Some("envpass".to_string()),
        },
    )
    .unwrap();
    assert_eq!(creds.username, "svc");
    assert_eq!(creds.password, "s3cr3t");
}

#[test]
fn payload_missing_username_is_a_configuration_error() {
    let err = resolve_credentials(
        SecretReadOutcome::Success(SecretPayload {
            username: None,
            password: Some("s3cr3t".to_string()),
        }),
        FallbackEnv { database_user: None, database_password: None },
    )
    .unwrap_err();
    assert_eq!(err, CredentialError::MissingUsername);
    assert_eq!(err.message(), "Missing username in Vault secret");
}

#[test]
fn payload_missing_password_is_a_configuration_error() {
    let err = resolve_credentials(
        SecretReadOutcome::Success(SecretPayload {
            username: Some("svc".to_string()),
            password: None,
        }),
        FallbackEnv { database_user: None, database_password: None },
    )
    .unwrap_err();
    assert_eq!(err, CredentialError::MissingPassword);
    assert_eq!(err.message(), "Missing password in Vault secret");
}
