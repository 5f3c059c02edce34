//! Environment-derived configuration: a typed snapshot of the service's
//! settings, with a documented default for every variable and strict
//! parsing for the two port numbers.
//!
//! The process reads the raw variables and hands them in as an
//! [`EnvValues`] record; everything from there on is checked computation.

use vstd::prelude::*;
use vstd::string::StrSliceExecFns;
use vstd::string::StringExecFns;

verus! {

/// Digit value of a character: 0 through 9 for `'0'`..`'9'`, 10 for
/// everything else.
pub open spec fn char_digit(c: char) -> int {
    match c {
        '0' => 0,
        '1' => 1,
        '2' => 2,
        '3' => 3,
        '4' => 4,
        '5' => 5,
        '6' => 6,
        '7' => 7,
        '8' => 8,
        '9' => 9,
        _ => 10,
    }
}

pub open spec fn is_digit_char(c: char) -> bool {
    char_digit(c) < 10
}

pub open spec fn all_digits(s: Seq<char>) -> bool {
    forall|i: int| 0 <= i < s.len() ==> is_digit_char(#[trigger] s[i])
}

/// Numeric value of a digit string read in base ten.
pub open spec fn digits_val(s: Seq<char>) -> int
    decreases s.len(),
{
    if s.len() == 0 {
        0
    } else {
        digits_val(s.drop_last()) * 10 + char_digit(s.last())
    }
}

/// The digits of a port string: everything after an optional leading `+`.
pub open spec fn port_body(s: Seq<char>) -> Seq<char> {
    if s.len() > 0 && s[0] == '+' {
        s.drop_first()
    } else {
        s
    }
}

/// What parsing a port number accepts: an optional leading `+`, then one or
/// more decimal digits, with a value of at most 65535. Leading zeros are
/// allowed; anything else is rejected.
pub open spec fn parse_u16_spec(s: Seq<char>) -> Option<u16> {
    let body = port_body(s);
    if body.len() == 0 || !all_digits(body) {
        None
    } else if digits_val(body) > u16::MAX {
        None
    } else {
        Some(digits_val(body) as u16)
    }
}

proof fn lemma_digits_val_nonneg(s: Seq<char>)
    ensures
        digits_val(s) >= 0,
    decreases s.len(),
{
    if s.len() > 0 {
        lemma_digits_val_nonneg(s.drop_last());
    }
}

fn char_digit_val(c: char) -> (d: u8)
    ensures
        d == char_digit(c),
{
    match c {
        '0' => 0,
        '1' => 1,
        '2' => 2,
        '3' => 3,
        '4' => 4,
        '5' => 5,
        '6' => 6,
        '7' => 7,
        '8' => 8,
        '9' => 9,
        _ => 10,
    }
}

/// Parse a decimal port number exactly as the configuration loader does:
/// optional `+` sign, digits, value within `u16`.
pub fn parse_u16(s: &str) -> (r: Option<u16>)
    ensures
        r == parse_u16_spec(s@),
{
    let n = s.unicode_len();
    let mut i: usize = 0;
    if n > 0 && s.get_char(0) == '+' {
        i = 1;
    }
    let ghost start = i as int;
    let ghost body = port_body(s@);
    assert(body =~= s@.subrange(start, n as int));
    if i >= n {
        return None;
    }
    let mut acc: u32 = 0;
    while i < n
        invariant
            n == s@.len(),
            0 <= start <= i <= n,
            start < n,
            body == port_body(s@),
            body =~= s@.subrange(start, n as int),
            body.len() == n - start,
            all_digits(body.subrange(0, i - start)),
            acc <= 65535 ==> acc == digits_val(body.subrange(0, i - start)),
            acc > 65535 ==> acc == 65536 && digits_val(body.subrange(0, i - start)) > 65535,
        decreases n - i,
    {
        let c = s.get_char(i);
        let d = char_digit_val(c);
        let ghost prefix = body.subrange(0, i - start);
        assert(body[i - start] == s@.subrange(start, n as int)[i - start]);
        assert(body[i - start] == c);
        if d >= 10 {
            assert(!is_digit_char(body[i - start]));
            assert(!all_digits(body));
            assert(parse_u16_spec(s@) is None);
            return None;
        }
        let ghost longer = body.subrange(0, i + 1 - start);
        assert(longer.drop_last() =~= prefix);
        assert(longer.last() == c);
        assert(digits_val(longer) == digits_val(prefix) * 10 + char_digit(c));
        let next: u32 = acc * 10 + (d as u32);
        if next > 65535 {
            proof {
                lemma_digits_val_nonneg(prefix);
            }
            acc = 65536;
        } else {
            acc = next;
        }
        i += 1;
    }
    assert(body.subrange(0, n - start) =~= body);
    proof {
        lemma_digits_val_nonneg(body);
    }
    if acc > 65535 {
        None
    } else {
        Some(acc as u16)
    }
}

/// Compare two string slices character by character.
pub fn str_eq(a: &str, b: &str) -> (r: bool)
    ensures
        r == (a@ == b@),
{
    let na = a.unicode_len();
    let nb = b.unicode_len();
    if na != nb {
        return false;
    }
    let mut i: usize = 0;
    while i < na
        invariant
            na == a@.len(),
            nb == b@.len(),
            na == nb,
            i <= na,
            forall|j: int| 0 <= j < i ==> a@[j] == b@[j],
        decreases na - i,
    {
        if a.get_char(i) != b.get_char(i) {
            return false;
        }
        i += 1;
    }
    proof {
        assert(a@ =~= b@);
    }
    true
}

/// The raw environment, one optional string per variable the service reads.
/// `None` stands for an unset variable.
pub struct EnvValues {
    pub server_port: Option<String>,
    pub database_host: Option<String>,
    pub database_port: Option<String>,
    pub database_name: Option<String>,
    pub redis_url: Option<String>,
    pub vault_addr: Option<String>,
    pub vault_role_id: Option<String>,
    pub vault_secret_id: Option<String>,
    pub enable_mtls: Option<String>,
    pub tls_cert_path: Option<String>,
    pub tls_key_path: Option<String>,
    pub tls_ca_path: Option<String>,
}

/// Immutable snapshot of the service's settings, created once at startup.
#[derive(Clone, Debug)]
pub struct Config {
    pub server_port: u16,
    pub database_host: String,
    pub database_port: u16,
    pub database_name: String,
    pub redis_url: String,
    pub vault_addr: String,
    pub vault_role_id: String,
    pub vault_secret_id: String,
    pub enable_mtls: bool,
    pub tls_cert_path: String,
    pub tls_key_path: String,
    pub tls_ca_path: String,
}

/// Why configuration loading failed: one of the two port variables did not
/// parse as a port number.
#[derive(Clone, Copy, PartialEq, Eq, Structural, Debug)]
pub enum ConfigError {
    InvalidServerPort,
    InvalidDatabasePort,
}

impl ConfigError {
    pub fn message(&self) -> (r: String)
        ensures
            *self == ConfigError::InvalidServerPort ==> r@ == "invalid SERVER_PORT value"@,
            *self == ConfigError::InvalidDatabasePort ==> r@ == "invalid DATABASE_PORT value"@,
    {
        match self {
            ConfigError::InvalidServerPort => String::from_str("invalid SERVER_PORT value"),
            ConfigError::InvalidDatabasePort => String::from_str("invalid DATABASE_PORT value"),
        }
    }
}

/// A string variable's effective value: what was set, or the default.
pub open spec fn str_or_default(o: Option<String>, d: Seq<char>) -> Seq<char> {
    match o {
        Some(s) => s@,
        None => d,
    }
}

/// A port variable's effective value: the default when unset, otherwise the
/// parse of what was set (`None` when the parse fails).
pub open spec fn port_or_default(o: Option<String>, d: u16) -> Option<u16> {
    match o {
        Some(s) => parse_u16_spec(s@),
        None => Some(d),
    }
}

/// The mutual-TLS flag is on exactly when the variable is set to `true`;
/// unset and unparsable values both mean off.
pub open spec fn mtls_flag(o: Option<String>) -> bool {
    match o {
        Some(s) => s@ == "true"@,
        None => false,
    }
}

impl Config {
    /// Build the configuration from the raw environment. Every variable is
    /// optional; string variables fall back to their documented defaults,
    /// the two ports default to 8000 and 5432 and fail loading when set to
    /// something that is not a port number, and the mutual-TLS flag is on
    /// only for the exact value `true`.
    pub fn from_env_values(env: EnvValues) -> (r: Result<Config, ConfigError>)
        ensures
            r is Ok <==> port_or_default(env.server_port, 8000) is Some && port_or_default(
                env.database_port,
                5432,
            ) is Some,
            r == Err::<Config, ConfigError>(ConfigError::InvalidServerPort) <==> port_or_default(
                env.server_port,
                8000,
            ) is None,
            r == Err::<Config, ConfigError>(ConfigError::InvalidDatabasePort) <==> port_or_default(
                env.server_port,
                8000,
            ) is Some && port_or_default(env.database_port, 5432) is None,
            r matches Ok(cfg) ==> Some(cfg.server_port) == port_or_default(env.server_port, 8000)
                && Some(cfg.database_port) == port_or_default(env.database_port, 5432)
                && cfg.database_host@ == str_or_default(env.database_host, "localhost"@)
                && cfg.database_name@ == str_or_default(env.database_name, "homepage"@)
                && cfg.redis_url@ == str_or_default(env.redis_url, "redis://valkey:6379"@)
                && cfg.vault_addr@ == str_or_default(env.vault_addr, "http://vault:8200"@)
                && cfg.vault_role_id@ == str_or_default(env.vault_role_id, ""@)
                && cfg.vault_secret_id@ == str_or_default(env.vault_secret_id, ""@)
                && cfg.enable_mtls == mtls_flag(env.enable_mtls)
                && cfg.tls_cert_path@ == str_or_default(env.tls_cert_path, "/vault/secrets/tls.crt"@)
                && cfg.tls_key_path@ == str_or_default(env.tls_key_path, "/vault/secrets/tls.key"@)
                && cfg.tls_ca_path@ == str_or_default(env.tls_ca_path, "/vault/secrets/ca.crt"@),
    {
        let server_port: u16 = match &env.server_port {
            None => 8000,
            Some(s) => match parse_u16(s.as_str()) {
                Some(p) => p,
                None => {
                    return Err(ConfigError::InvalidServerPort);
                }
            },
        };
        let database_port: u16 = match &env.database_port {
            None => 5432,
            Some(s) => match parse_u16(s.as_str()) {
                Some(p) => p,
                None => {
                    return Err(ConfigError::InvalidDatabasePort);
                }
            },
        };
        let enable_mtls = match &env.enable_mtls {
            Some(s) => str_eq(s.as_str(), "true"),
            None => false,
        };
        Ok(
            Config {
                server_port,
                database_host: match env.database_host {
                    Some(s) => s,
                    None => String::from_str("localhost"),
                },
                database_port,
                database_name: match env.database_name {
                    Some(s) => s,
                    None => String::from_str("homepage"),
                },
                redis_url: match env.redis_url {
                    Some(s) => s,
                    None => String::from_str("redis://valkey:6379"),
                },
                vault_addr: match env.vault_addr {
                    Some(s) => s,
                    None => String::from_str("http://vault:8200"),
                },
                vault_role_id: match env.vault_role_id {
                    Some(s) => s,
                    None => String::from_str(""),
                },
                vault_secret_id: match env.vault_secret_id {
                    Some(s) => s,
                    None => String::from_str(""),
                },
                enable_mtls,
                tls_cert_path: match env.tls_cert_path {
                    Some(s) => s,
                    None => String::from_str("/vault/secrets/tls.crt"),
                },
                tls_key_path: match env.tls_key_path {
                    Some(s) => s,
                    None => String::from_str("/vault/secrets/tls.key"),
                },
                tls_ca_path: match env.tls_ca_path {
                    Some(s) => s,
                    None => String::from_str("/vault/secrets/ca.crt"),
                },
            },
        )
    }
}

} // verus!
