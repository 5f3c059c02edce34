//! Credential bootstrap: how the service turns a secret-store read into a
//! database credential pair.
//!
//! The single read attempt either yields a payload, whose `username` and
//! `password` fields must both be present, or fails, in which case the
//! bootstrap degrades to environment-supplied fallback credentials (with a
//! fixed placeholder pair as the last resort) instead of failing the call.

use vstd::prelude::*;
use vstd::string::StringExecFns;
use crate::config::Config;
use crate::config::str_or_default;

verus! {

/// A database credential pair. Created by the bootstrap, held only long
/// enough to build a connection, then discarded.
#[derive(Clone, Debug)]
pub struct DbCredentials {
    pub username: String,
    pub password: String,
}

/// How the bootstrap authenticates to the secret store.
#[derive(Clone, Copy, PartialEq, Eq, Structural, Debug)]
pub enum LoginMethod {
    /// Both identifiers are configured: perform an explicit role-based
    /// login before anything else; its failure is fatal.
    AppRole,
    /// One or both identifiers are missing: skip the explicit login and
    /// rely on an externally supplied session token.
    AmbientToken,
}

/// Role-based login happens exactly when both the role identifier and the
/// secret identifier are configured (non-empty).
pub open spec fn login_method_spec(role_id: Seq<char>, secret_id: Seq<char>) -> LoginMethod {
    if role_id.len() > 0 && secret_id.len() > 0 {
        LoginMethod::AppRole
    } else {
        LoginMethod::AmbientToken
    }
}

/// Decide the authentication method from the configuration. A configuration
/// missing either identifier skips the explicit login and proceeds directly
/// to the secret read.
pub fn login_method(cfg: &Config) -> (m: LoginMethod)
    ensures
        m == login_method_spec(cfg.vault_role_id@, cfg.vault_secret_id@),
        m == LoginMethod::AmbientToken <==> cfg.vault_role_id@.len() == 0
            || cfg.vault_secret_id@.len() == 0,
{
    if !cfg.vault_role_id.as_str().is_empty() && !cfg.vault_secret_id.as_str().is_empty() {
        LoginMethod::AppRole
    } else {
        LoginMethod::AmbientToken
    }
}

/// The path of the versioned secret read for a database: `database/` plus
/// the configured database name.
pub fn secret_path(database_name: &String) -> (r: String)
    ensures
        r@ == "database/"@ + database_name@,
{
    let mut r = String::from_str("database/");
    r.append(database_name.as_str());
    r
}

/// What a successful secret read contained. A field is `Some` only when the
/// payload held it as a string; an absent field and one of another type
/// both come through as `None`.
pub struct SecretPayload {
    pub username: Option<String>,
    pub password: Option<String>,
}

/// Result of the single secret-read attempt.
pub enum SecretReadOutcome {
    /// The read returned a payload, possibly of the wrong shape.
    Success(SecretPayload),
    /// The read failed: network, permission, or not found.
    Failure,
}

/// The environment-supplied fallback pair consulted when the read fails.
pub struct FallbackEnv {
    pub database_user: Option<String>,
    pub database_password: Option<String>,
}

/// Why the bootstrap rejected a payload that was read successfully.
#[derive(Clone, Copy, PartialEq, Eq, Structural, Debug)]
pub enum CredentialError {
    MissingUsername,
    MissingPassword,
}

impl CredentialError {
    pub fn message(&self) -> (r: String)
        ensures
            *self == CredentialError::MissingUsername ==> r@
                == "Missing username in Vault secret"@,
            *self == CredentialError::MissingPassword ==> r@
                == "Missing password in Vault secret"@,
    {
        match self {
            CredentialError::MissingUsername => String::from_str(
                "Missing username in Vault secret",
            ),
            CredentialError::MissingPassword => String::from_str(
                "Missing password in Vault secret",
            ),
        }
    }
}

/// Turn the outcome of the secret read into credentials.
///
/// A failed read never fails the call: it degrades to the fallback pair,
/// with `postgres`/`postgres` as the placeholder for unset variables. A
/// read that succeeded but returned a payload missing either field is a
/// configuration error, never a silent fallback.
pub fn resolve_credentials(outcome: SecretReadOutcome, fallback: FallbackEnv) -> (r: Result<
    DbCredentials,
    CredentialError,
>)
    ensures
        outcome is Failure ==> (r matches Ok(c) && c.username@ == str_or_default(
            fallback.database_user,
            "postgres"@,
        ) && c.password@ == str_or_default(fallback.database_password, "postgres"@)),
        outcome is Success && outcome->Success_0.username is Some
            && outcome->Success_0.password is Some ==> (r matches Ok(c) && Some(c.username)
            == outcome->Success_0.username && Some(c.password) == outcome->Success_0.password),
        outcome matches SecretReadOutcome::Success(p) && p.username is None ==> r == Err::<
            DbCredentials,
            CredentialError,
        >(CredentialError::MissingUsername),
        outcome matches SecretReadOutcome::Success(p) && p.username is Some && p.password
            is None ==> r == Err::<DbCredentials, CredentialError>(
            CredentialError::MissingPassword,
        ),
        r is Err <==> (outcome matches SecretReadOutcome::Success(p) && (p.username is None
            || p.password is None)),
{
    match outcome {
        SecretReadOutcome::Success(p) => {
            match (p.username, p.password) {
                (Some(u), Some(w)) => Ok(DbCredentials { username: u, password: w }),
                (None, _) => Err(CredentialError::MissingUsername),
                (Some(_), None) => Err(CredentialError::MissingPassword),
            }
        }
        SecretReadOutcome::Failure => {
            let username = match fallback.database_user {
                Some(u) => u,
                None => String::from_str("postgres"),
            };
            let password = match fallback.database_password {
                Some(w) => w,
                None => String::from_str("postgres"),
            };
            Ok(DbCredentials { username, password })
        }
    }
}

} // verus!
