//! Parameters of the database connection pool. The pool itself is built by
//! the surrounding process; which options it is built with is decided here.

use vstd::prelude::*;
use crate::config::Config;
use crate::credentials::DbCredentials;

verus! {

/// Fixed pool sizing, not derived from load.
pub const MAX_CONNECTIONS: u32 = 20;

pub const MIN_CONNECTIONS: u32 = 5;

pub const ACQUIRE_TIMEOUT_SECS: u64 = 30;

pub const IDLE_TIMEOUT_SECS: u64 = 600;

/// TLS requirement for the database connection: required under mutual TLS,
/// otherwise preferred — never disabled.
#[derive(Clone, Copy, PartialEq, Eq, Structural, Debug)]
pub enum SslMode {
    Require,
    Prefer,
}

pub open spec fn ssl_mode_spec(enable_mtls: bool) -> SslMode {
    if enable_mtls {
        SslMode::Require
    } else {
        SslMode::Prefer
    }
}

pub fn ssl_mode_for(enable_mtls: bool) -> (m: SslMode)
    ensures
        m == ssl_mode_spec(enable_mtls),
{
    if enable_mtls {
        SslMode::Require
    } else {
        SslMode::Prefer
    }
}

/// Pool bounds and timeouts handed to the pool builder.
#[derive(Clone, Copy, PartialEq, Eq, Structural, Debug)]
pub struct PoolSettings {
    pub max_connections: u32,
    pub min_connections: u32,
    pub acquire_timeout_secs: u64,
    pub idle_timeout_secs: u64,
}

pub fn pool_settings() -> (r: PoolSettings)
    ensures
        r.max_connections == MAX_CONNECTIONS,
        r.min_connections == MIN_CONNECTIONS,
        r.acquire_timeout_secs == ACQUIRE_TIMEOUT_SECS,
        r.idle_timeout_secs == IDLE_TIMEOUT_SECS,
{
    PoolSettings {
        max_connections: MAX_CONNECTIONS,
        min_connections: MIN_CONNECTIONS,
        acquire_timeout_secs: ACQUIRE_TIMEOUT_SECS,
        idle_timeout_secs: IDLE_TIMEOUT_SECS,
    }
}

/// Everything the pool builder needs: endpoint, database, credentials, TLS
/// requirement and the fixed pool sizing.
pub struct ConnectParams {
    pub host: String,
    pub port: u16,
    pub database: String,
    pub username: String,
    pub password: String,
    pub ssl_mode: SslMode,
    pub pool: PoolSettings,
}

/// Assemble the connection parameters from configuration and credentials.
pub fn connect_params(credentials: &DbCredentials, config: &Config) -> (r: ConnectParams)
    ensures
        r.host@ == config.database_host@,
        r.port == config.database_port,
        r.database@ == config.database_name@,
        r.username@ == credentials.username@,
        r.password@ == credentials.password@,
        r.ssl_mode == ssl_mode_spec(config.enable_mtls),
        r.pool == (PoolSettings {
            max_connections: MAX_CONNECTIONS,
            min_connections: MIN_CONNECTIONS,
            acquire_timeout_secs: ACQUIRE_TIMEOUT_SECS,
            idle_timeout_secs: IDLE_TIMEOUT_SECS,
        }),
{
    ConnectParams {
        host: config.database_host.clone(),
        port: config.database_port,
        database: config.database_name.clone(),
        username: credentials.username.clone(),
        password: credentials.password.clone(),
        ssl_mode: ssl_mode_for(config.enable_mtls),
        pool: pool_settings(),
    }
}

} // verus!
