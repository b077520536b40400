//! Server configuration and its defaults. Reading and writing the
//! configuration file is the program's business; this module holds the
//! values and the rules for filling in what the file leaves out.

use vstd::prelude::*;
use crate::text::{chars_of, owned, trim_chars, trim_end_spec, trim_spec, trim_start_spec};
use crate::crypto::{hex_digit_lower, spec_hex_encode};
use crate::tokens::{law_hex_secret_decodes, random_hex_secret, spec_decode_jwt_secret};

verus! {

/// The whole configuration.
#[derive(Debug, Clone)]
pub struct AppConfig {
    pub server: ServerConfig,
    pub database: DatabaseConfig,
    pub auth: AuthConfig,
    /// Proxy trust, rate limits and CSRF; defaults when the file has none.
    pub security: SecurityConfig,
}

/// Where the server listens.
#[derive(Debug, Clone)]
pub struct ServerConfig {
    pub bind: String,
}

/// Where the database file lives.
#[derive(Debug, Clone)]
pub struct DatabaseConfig {
    pub path: String,
}

/// Token lifetimes, the JWT secret and the password-hashing costs.
#[derive(Debug, Clone)]
pub struct AuthConfig {
    /// The HMAC SHA-256 secret, as hexadecimal text.
    pub jwt_secret: String,
    pub access_token_ttl_secs: i64,
    pub refresh_token_ttl_secs: i64,
    pub machine_token_ttl_secs: i64,
    pub argon2_memory_kib: u32,
    pub argon2_iterations: u32,
    pub argon2_parallelism: u32,
    /// Whether registering needs a valid invite code.
    pub require_invite: bool,
}

/// Reverse-proxy trust, rate limits and CSRF protection.
#[derive(Debug, Clone)]
pub struct SecurityConfig {
    /// Networks whose `X-Forwarded-For` header is believed.
    pub trusted_proxies: Vec<String>,
    /// Requests per minute and client address on the login endpoints.
    pub login_rate_per_minute: u32,
    /// Requests per minute and client address on the other admin and API
    /// endpoints.
    pub api_rate_per_minute: u32,
    /// Whether admin web forms must echo the CSRF token.
    pub csrf_enabled: bool,
}

/// The default trusted proxies: the IPv4 and IPv6 loopback hosts.
pub open spec fn spec_default_trusted_proxies() -> Seq<Seq<char>> {
    seq!["127.0.0.1/32"@, "::1/128"@]
}

/// The default trusted proxies: the loopback hosts only.
pub fn default_trusted_proxies() -> (r: Vec<String>)
    ensures
        r@.map_values(|s: String| s@) == spec_default_trusted_proxies(),
{
    let mut v: Vec<String> = Vec::new();
    v.push(owned("127.0.0.1/32"));
    v.push(owned("::1/128"));
    assert(v@.map_values(|s: String| s@) =~= spec_default_trusted_proxies());
    v
}

/// The default login rate: 5 requests per minute.
pub fn default_login_rate_per_minute() -> (r: u32)
    ensures
        r == 5,
{
    5
}

/// The default API rate: 60 requests per minute.
pub fn default_api_rate_per_minute() -> (r: u32)
    ensures
        r == 60,
{
    60
}

/// The default of on/off switches that are on unless configured off.
pub fn default_true() -> (r: bool)
    ensures
        r,
{
    true
}

/// The default security settings.
pub open spec fn spec_default_security(c: SecurityConfig) -> bool {
    &&& c.trusted_proxies@.map_values(|s: String| s@) == spec_default_trusted_proxies()
    &&& c.login_rate_per_minute == 5
    &&& c.api_rate_per_minute == 60
    &&& c.csrf_enabled
}

impl Default for SecurityConfig {
    fn default() -> (r: Self)
        ensures
            spec_default_security(r),
    {
        SecurityConfig {
            trusted_proxies: default_trusted_proxies(),
            login_rate_per_minute: default_login_rate_per_minute(),
            api_rate_per_minute: default_api_rate_per_minute(),
            csrf_enabled: true,
        }
    }
}

/// The default configuration: listen on `0.0.0.0:8080`, database
/// `./cmem-server.db`, no JWT secret yet, access tokens for 15 minutes,
/// refresh tokens for 30 days, machine tokens for 180 days, Argon2id with
/// 19 MiB, 2 passes and 1 lane, open registration, default security.
pub open spec fn spec_default_config(c: AppConfig) -> bool {
    &&& c.server.bind@ == "0.0.0.0:8080"@
    &&& c.database.path@ == "./cmem-server.db"@
    &&& c.auth.jwt_secret@ == Seq::<char>::empty()
    &&& c.auth.access_token_ttl_secs == 900
    &&& c.auth.refresh_token_ttl_secs == 2_592_000
    &&& c.auth.machine_token_ttl_secs == 15_552_000
    &&& c.auth.argon2_memory_kib == 19_456
    &&& c.auth.argon2_iterations == 2
    &&& c.auth.argon2_parallelism == 1
    &&& !c.auth.require_invite
    &&& spec_default_security(c.security)
}

impl Default for AppConfig {
    fn default() -> (r: Self)
        ensures
            spec_default_config(r),
    {
        AppConfig {
            server: ServerConfig { bind: owned("0.0.0.0:8080") },
            database: DatabaseConfig { path: owned("./cmem-server.db") },
            auth: AuthConfig {
                jwt_secret: String::new(),
                access_token_ttl_secs: 900,
                refresh_token_ttl_secs: 2_592_000,
                machine_token_ttl_secs: 15_552_000,
                argon2_memory_kib: 19_456,
                argon2_iterations: 2,
                argon2_parallelism: 1,
                require_invite: false,
            },
            security: SecurityConfig::default(),
        }
    }
}

impl AppConfig {
    /// Whether the configured JWT secret is blank (only whitespace or
    /// nothing), so that a new one must be generated.
    pub fn needs_jwt_secret(&self) -> (r: bool)
        ensures
            r == (trim_spec(self.auth.jwt_secret@).len() == 0),
    {
        let v = chars_of(self.auth.jwt_secret.as_str());
        trim_chars(&v).len() == 0
    }

    /// Replaces a blank JWT secret by a new random one (64 hex digits);
    /// answers whether it did. Everything else stays as it was.
    pub fn fill_jwt_secret(&mut self) -> (generated: bool)
        ensures
            generated == (trim_spec(old(self).auth.jwt_secret@).len() == 0),
            generated ==> final(self).auth.jwt_secret@.len() == 64,
            generated ==> spec_decode_jwt_secret(final(self).auth.jwt_secret@) is Ok,
            trim_spec(final(self).auth.jwt_secret@).len() > 0,
            !generated ==> final(self).auth.jwt_secret@ == old(self).auth.jwt_secret@,
            final(self).server == old(self).server,
            final(self).database == old(self).database,
            final(self).security == old(self).security,
            final(self).auth.access_token_ttl_secs == old(self).auth.access_token_ttl_secs,
            final(self).auth.refresh_token_ttl_secs == old(self).auth.refresh_token_ttl_secs,
            final(self).auth.machine_token_ttl_secs == old(self).auth.machine_token_ttl_secs,
            final(self).auth.argon2_memory_kib == old(self).auth.argon2_memory_kib,
            final(self).auth.argon2_iterations == old(self).auth.argon2_iterations,
            final(self).auth.argon2_parallelism == old(self).auth.argon2_parallelism,
            final(self).auth.require_invite == old(self).auth.require_invite,
    {
        if self.needs_jwt_secret() {
            let secret = random_hex_secret();
            proof {
                let b = choose|b: Seq<u8>| b.len() == 32 && secret@ == spec_hex_encode(b);
                law_hex_secret_decodes(b);
                let t = secret@;
                assert(t[0] == hex_digit_lower(b[0] as int / 16));
                assert(t[63] == hex_digit_lower(b[31] as int % 16));
                assert(trim_start_spec(t) == t);
                assert(t.last() == t[63]);
                assert(trim_end_spec(t) == t);
            }
            self.auth.jwt_secret = secret;
            true
        } else {
            false
        }
    }
}

} // verus!
