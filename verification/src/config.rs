//! Application configuration: defaults and environment overrides.
//!
//! Reading the configuration file and the environment is left to the caller,
//! which hands the values of the `VELO_HUB_*` variables over in
//! [`EnvOverrides`]; applying them is done here.
use vstd::prelude::*;
use crate::text::{concat2, concat3, has_prefix, str_starts_with};

verus! {

/// Configuration of the circuit breaker. The error-rate threshold is held in
/// parts per million of requests (500_000 is an error rate of one half); an error
/// rate meets the threshold when `failed * 1_000_000 >= ppm * total`.
#[derive(Debug, Clone, Copy, PartialEq, Eq, Structural)]
pub struct CircuitBreakerConfig {
    pub failure_threshold_ppm: u32,
    pub window_duration_secs: u64,
    pub cooldown_duration_secs: u64,
    pub half_open_max_requests: u32,
}

/// Threshold one half, a window of 60 s, a cooldown of 30 s and 3 test requests.
pub open spec fn default_circuit_breaker_config() -> CircuitBreakerConfig {
    CircuitBreakerConfig {
        failure_threshold_ppm: 500_000,
        window_duration_secs: 60,
        cooldown_duration_secs: 30,
        half_open_max_requests: 3,
    }
}

impl Default for CircuitBreakerConfig {
    fn default() -> (c: Self)
        ensures
            c == default_circuit_breaker_config(),
    {
        CircuitBreakerConfig {
            failure_threshold_ppm: 500_000,
            window_duration_secs: 60,
            cooldown_duration_secs: 30,
            half_open_max_requests: 3,
        }
    }
}


#[derive(Debug, Clone)]
pub struct ServerConfig {
    pub host: String,
    pub port: u16,
    pub enable_tls: bool,
}

#[derive(Debug, Clone)]
pub struct DatabaseConfig {
    pub path: String,
}

#[derive(Debug, Clone)]
pub struct SessionConfig {
    pub ttl_minutes: u64,
    pub cleanup_interval_secs: u64,
}

#[derive(Debug, Clone)]
pub struct LoggingConfig {
    pub level: String,
    pub file: Option<String>,
}

#[derive(Debug, Clone)]
pub struct AppConfig {
    pub server: ServerConfig,
    pub database: DatabaseConfig,
    pub circuit_breaker: CircuitBreakerConfig,
    pub session: SessionConfig,
    pub logging: LoggingConfig,
}

/// The default configuration: `127.0.0.1:8080` without TLS, the database at
/// `~/.velo-hub/data.db`, the default circuit breaker, sessions of 5 minutes
/// cleaned every 60 s, and `info` logging to `~/.velo-hub/logs/app.log`.
pub open spec fn is_default_config(c: AppConfig) -> bool {
    &&& c.server.host@ == "127.0.0.1"@
    &&& c.server.port == 8080
    &&& !c.server.enable_tls
    &&& c.database.path@ == "~/.velo-hub/data.db"@
    &&& c.circuit_breaker == default_circuit_breaker_config()
    &&& c.session.ttl_minutes == 5
    &&& c.session.cleanup_interval_secs == 60
    &&& c.logging.level@ == "info"@
    &&& c.logging.file matches Some(f) && f@ == "~/.velo-hub/logs/app.log"@
}

impl Default for AppConfig {
    fn default() -> (c: Self)
        ensures
            is_default_config(c),
    {
        AppConfig {
            server: ServerConfig { host: String::from_str("127.0.0.1"), port: 8080, enable_tls: false },
            database: DatabaseConfig { path: String::from_str("~/.velo-hub/data.db") },
            circuit_breaker: CircuitBreakerConfig::default(),
            session: SessionConfig { ttl_minutes: 5, cleanup_interval_secs: 60 },
            logging: LoggingConfig {
                level: String::from_str("info"),
                file: Some(String::from_str("~/.velo-hub/logs/app.log")),
            },
        }
    }
}

// ============================================================================
// Environment overrides
// ============================================================================

/// The values of the `VELO_HUB_*` environment variables that are set (as
/// Unicode text). The failure threshold, a decimal fraction, comes already
/// read into parts per million.
#[derive(Debug, Clone)]
pub struct EnvOverrides {
    pub server_host: Option<String>,
    pub server_port: Option<String>,
    pub server_enable_tls: Option<String>,
    pub database_path: Option<String>,
    pub circuit_breaker_failure_threshold_ppm: Option<u32>,
    pub circuit_breaker_window_duration_secs: Option<String>,
    pub circuit_breaker_cooldown_duration_secs: Option<String>,
    pub circuit_breaker_half_open_max_requests: Option<String>,
    pub session_ttl_minutes: Option<String>,
    pub session_cleanup_interval_secs: Option<String>,
    pub logging_level: Option<String>,
    pub logging_file: Option<String>,
}

pub open spec fn is_digit(c: char) -> bool {
    '0' <= c && c <= '9'
}

/// The value of a string of decimal digits.
pub open spec fn digits_value(s: Seq<char>) -> nat
    decreases s.len(),
{
    if s.len() == 0 {
        0
    } else {
        digits_value(s.drop_last()) * 10 + (s.last() as nat - 48) as nat
    }
}

/// An unsigned integer read as `str::parse` reads it: an optional `+`, then
/// at least one decimal digit and nothing else, with a value of at most
/// `max`.
pub open spec fn parse_unsigned(s: Seq<char>, max: nat) -> Option<nat> {
    let d = unsigned_digits(s);
    if d.len() > 0 && all_digits(d) && digits_value(d) <= max {
        Some(digits_value(d))
    } else {
        None
    }
}

/// The digits of an unsigned integer: the text after an optional `+`.
pub open spec fn unsigned_digits(s: Seq<char>) -> Seq<char> {
    if s.len() > 0 && s[0] == '+' { s.drop_first() } else { s }
}

pub open spec fn all_digits(d: Seq<char>) -> bool {
    forall|i: int| 0 <= i < d.len() ==> is_digit(#[trigger] d[i])
}

/// A boolean read as `str::parse` reads it: exactly `true` or `false`.
pub open spec fn parse_bool(s: Seq<char>) -> Option<bool> {
    if s == "true"@ {
        Some(true)
    } else if s == "false"@ {
        Some(false)
    } else {
        None
    }
}

proof fn lemma_digits_value_grows(s: Seq<char>, i: int)
    requires
        0 <= i <= s.len(),
        all_digits(s),
    ensures
        digits_value(s.take(i)) <= digits_value(s),
    decreases s.len() - i,
{
    if i < s.len() {
        lemma_digits_value_grows(s, i + 1);
        assert(s.take(i + 1).drop_last() =~= s.take(i));
    } else {
        assert(s.take(i) =~= s);
    }
}

/// Reads an unsigned integer of at most `max` (see `parse_unsigned`).
pub fn parse_unsigned_str(s: &str, max: u64) -> (r: Option<u64>)
    ensures
        match parse_unsigned(s@, max as nat) {
            Some(v) => r == Some(v as u64),
            None => r is None,
        },
{
    let n = s.unicode_len();
    let start: usize = if n > 0 && s.get_char(0) == '+' { 1 } else { 0 };
    let ghost d = unsigned_digits(s@);
    assert(d =~= s@.subrange(start as int, n as int));
    if start >= n {
        return None;
    }
    let mut acc: u64 = 0;
    let mut i: usize = start;
    while i < n
        invariant
            start <= i <= n,
            n == s@.len(),
            d =~= s@.subrange(start as int, n as int),
            d == unsigned_digits(s@),
            forall|j: int| start <= j < i ==> is_digit(#[trigger] s@[j]),
            acc == digits_value(s@.subrange(start as int, i as int)),
            acc <= max,
        decreases n - i,
    {
        let c = s.get_char(i);
        assert(s@.subrange(start as int, i + 1).drop_last() =~= s@.subrange(start as int, i as int));
        if !('0' <= c && c <= '9') {
            assert(!is_digit(d[i - start]));
            assert(!all_digits(d));
            return None;
        }
        let dv: u64 = (c as u32 - 48) as u64;
        let next: Option<u64> = match acc.checked_mul(10) {
            Some(m) => m.checked_add(dv),
            None => None,
        };
        match next {
            Some(v) if v <= max => {
                acc = v;
            },
            _ => {
                proof {
                    assert(digits_value(s@.subrange(start as int, i + 1)) > max);
                    if all_digits(d) {
                        lemma_digits_value_grows(d, i + 1 - start);
                        assert(d.take(i + 1 - start) =~= s@.subrange(start as int, i + 1));
                    }
                }
                return None;
            },
        }
        i = i + 1;
    }
    assert(s@.subrange(start as int, n as int) =~= d);
    Some(acc)
}

/// Reads `true` or `false`.
pub fn parse_bool_str(s: &str) -> (r: Option<bool>)
    ensures
        r == parse_bool(s@),
{
    if crate::text::str_eq(s, "true") {
        Some(true)
    } else if crate::text::str_eq(s, "false") {
        Some(false)
    } else {
        None
    }
}

/// An override of an unsigned setting: the variable's value when it reads as
/// an integer of at most `max`, else the setting unchanged.
pub open spec fn overridden(v: Option<String>, max: nat, old: nat) -> nat {
    match v {
        Some(s) => match parse_unsigned(s@, max) {
            Some(x) => x,
            None => old,
        },
        None => old,
    }
}

/// `after` is `before` with the overrides of `env` applied: text settings
/// take the variable's value, numeric and boolean settings take it when it
/// reads as one (and stay otherwise).
pub open spec fn overrides_applied(before: AppConfig, env: EnvOverrides, after: AppConfig) -> bool {
    &&& after.server.host@ == (match env.server_host { Some(h) => h@, None => before.server.host@ })
    &&& after.server.port == overridden(env.server_port, u16::MAX as nat, before.server.port as nat)
    &&& after.server.enable_tls == (match env.server_enable_tls {
        Some(t) => match parse_bool(t@) { Some(b) => b, None => before.server.enable_tls },
        None => before.server.enable_tls,
    })
    &&& after.database.path@ == (match env.database_path { Some(p) => p@, None => before.database.path@ })
    &&& after.circuit_breaker.failure_threshold_ppm == (match env.circuit_breaker_failure_threshold_ppm {
        Some(t) => t,
        None => before.circuit_breaker.failure_threshold_ppm,
    })
    &&& after.circuit_breaker.window_duration_secs == overridden(env.circuit_breaker_window_duration_secs,
        u64::MAX as nat, before.circuit_breaker.window_duration_secs as nat)
    &&& after.circuit_breaker.cooldown_duration_secs == overridden(env.circuit_breaker_cooldown_duration_secs,
        u64::MAX as nat, before.circuit_breaker.cooldown_duration_secs as nat)
    &&& after.circuit_breaker.half_open_max_requests == overridden(env.circuit_breaker_half_open_max_requests,
        u32::MAX as nat, before.circuit_breaker.half_open_max_requests as nat)
    &&& after.session.ttl_minutes == overridden(env.session_ttl_minutes, u64::MAX as nat, before.session.ttl_minutes as nat)
    &&& after.session.cleanup_interval_secs == overridden(env.session_cleanup_interval_secs, u64::MAX as nat,
        before.session.cleanup_interval_secs as nat)
    &&& after.logging.level@ == (match env.logging_level { Some(l) => l@, None => before.logging.level@ })
    &&& match env.logging_file {
        Some(f) => after.logging.file matches Some(g) && g@ == f@,
        None => after.logging.file == before.logging.file,
    }
}

fn override_u64(v: &Option<String>, old: u64) -> (r: u64)
    ensures
        r == overridden(*v, u64::MAX as nat, old as nat),
{
    match v {
        Some(s) => match parse_unsigned_str(s.as_str(), u64::MAX) {
            Some(x) => x,
            None => old,
        },
        None => old,
    }
}

impl AppConfig {
    /// Applies the environment overrides (see `overrides_applied`).
    pub fn apply_env_overrides(&mut self, env: &EnvOverrides)
        ensures
            overrides_applied(*old(self), *env, *final(self)),
    {
        if let Some(h) = &env.server_host {
            self.server.host = h.clone();
        }
        if let Some(p) = &env.server_port {
            if let Some(x) = parse_unsigned_str(p.as_str(), 65535) {
                self.server.port = x as u16;
            }
        }
        if let Some(t) = &env.server_enable_tls {
            if let Some(b) = parse_bool_str(t.as_str()) {
                self.server.enable_tls = b;
            }
        }
        if let Some(p) = &env.database_path {
            self.database.path = p.clone();
        }
        if let Some(t) = env.circuit_breaker_failure_threshold_ppm {
            self.circuit_breaker.failure_threshold_ppm = t;
        }
        self.circuit_breaker.window_duration_secs =
            override_u64(&env.circuit_breaker_window_duration_secs, self.circuit_breaker.window_duration_secs);
        self.circuit_breaker.cooldown_duration_secs =
            override_u64(&env.circuit_breaker_cooldown_duration_secs, self.circuit_breaker.cooldown_duration_secs);
        if let Some(m) = &env.circuit_breaker_half_open_max_requests {
            if let Some(x) = parse_unsigned_str(m.as_str(), 4294967295) {
                self.circuit_breaker.half_open_max_requests = x as u32;
            }
        }
        self.session.ttl_minutes = override_u64(&env.session_ttl_minutes, self.session.ttl_minutes);
        self.session.cleanup_interval_secs =
            override_u64(&env.session_cleanup_interval_secs, self.session.cleanup_interval_secs);
        if let Some(l) = &env.logging_level {
            self.logging.level = l.clone();
        }
        if let Some(f) = &env.logging_file {
            self.logging.file = Some(f.clone());
        }
    }
}

/// Two configurations hold the same settings.
pub open spec fn same_settings(a: AppConfig, b: AppConfig) -> bool {
    &&& a.server.host@ == b.server.host@
    &&& a.server.port == b.server.port
    &&& a.server.enable_tls == b.server.enable_tls
    &&& a.database.path@ == b.database.path@
    &&& a.circuit_breaker == b.circuit_breaker
    &&& a.session.ttl_minutes == b.session.ttl_minutes
    &&& a.session.cleanup_interval_secs == b.session.cleanup_interval_secs
    &&& a.logging.level@ == b.logging.level@
    &&& match (a.logging.file, b.logging.file) {
        (Some(x), Some(y)) => x@ == y@,
        (None, None) => true,
        _ => false,
    }
}

/// An environment that sets no variable.
pub open spec fn no_overrides() -> EnvOverrides {
    EnvOverrides {
        server_host: None,
        server_port: None,
        server_enable_tls: None,
        database_path: None,
        circuit_breaker_failure_threshold_ppm: None,
        circuit_breaker_window_duration_secs: None,
        circuit_breaker_cooldown_duration_secs: None,
        circuit_breaker_half_open_max_requests: None,
        session_ttl_minutes: None,
        session_cleanup_interval_secs: None,
        logging_level: None,
        logging_file: None,
    }
}

/// A variable that is set and reads as an integer of at most `max`.
pub open spec fn readable_unsigned(v: Option<String>, max: nat) -> bool {
    v matches Some(s) && parse_unsigned(s@, max) is Some
}

/// An environment that sets every variable, each to a value that reads.
pub open spec fn sets_every_setting(env: EnvOverrides) -> bool {
    &&& env.server_host is Some
    &&& readable_unsigned(env.server_port, u16::MAX as nat)
    &&& env.server_enable_tls matches Some(t) && parse_bool(t@) is Some
    &&& env.database_path is Some
    &&& env.circuit_breaker_failure_threshold_ppm is Some
    &&& readable_unsigned(env.circuit_breaker_window_duration_secs, u64::MAX as nat)
    &&& readable_unsigned(env.circuit_breaker_cooldown_duration_secs, u64::MAX as nat)
    &&& readable_unsigned(env.circuit_breaker_half_open_max_requests, u32::MAX as nat)
    &&& readable_unsigned(env.session_ttl_minutes, u64::MAX as nat)
    &&& readable_unsigned(env.session_cleanup_interval_secs, u64::MAX as nat)
    &&& env.logging_level is Some
    &&& env.logging_file is Some
}

/// Without environment variables the configuration keeps every setting it
/// had from the file or the defaults.
pub proof fn lemma_no_variables_keep_config(before: AppConfig, after: AppConfig)
    requires
        overrides_applied(before, no_overrides(), after),
    ensures
        same_settings(before, after),
{
}

/// Environment variables take precedence over the file and the defaults:
/// when every variable is set to a value that reads, the result does not
/// depend on the configuration they were applied to.
pub proof fn lemma_variables_take_precedence(
    before1: AppConfig,
    before2: AppConfig,
    env: EnvOverrides,
    after1: AppConfig,
    after2: AppConfig,
)
    requires
        sets_every_setting(env),
        overrides_applied(before1, env, after1),
        overrides_applied(before2, env, after2),
    ensures
        same_settings(after1, after2),
{
}

// ============================================================================
// Paths
// ============================================================================

/// A path under the home directory: it starts with `~/` or `~\`.
pub open spec fn is_home_path(path: Seq<char>) -> bool {
    has_prefix(path, "~/"@) || has_prefix(path, "~\\"@)
}

/// The path with its leading `~` replaced by the home directory `home`, when
/// it is a path under the home directory and the home directory is known.
pub open spec fn expanded(path: Seq<char>, home: Option<Seq<char>>) -> Seq<char> {
    match home {
        Some(h) => if is_home_path(path) { h + path.drop_first() } else { path },
        None => path,
    }
}

/// The home directory of the user running the program, from `dirs::home_dir`,
/// as text (lossily, as `to_string_lossy` gives it). Nothing is stated of it:
/// it depends on the environment.
#[verifier::external_body]
fn home_dir_text() -> (h: Option<String>) {
    match dirs::home_dir() {
        Some(p) => Some(p.to_string_lossy().into_owned()),
        None => None,
    }
}

impl AppConfig {
    /// Expands a leading `~` with the home directory `home` (see `expanded`).
    pub fn expand_path_with_home(path: &str, home: Option<&str>) -> (r: String)
        ensures
            r@ == expanded(path@, match home { Some(h) => Some(h@), None => None }),
    {
        let under_home = str_starts_with(path, "~/") || str_starts_with(path, "~\\");
        proof {
            reveal_strlit("~/");
            reveal_strlit("~\\");
        }
        match home {
            Some(h) => {
                if under_home {
                    let n = path.unicode_len();
                    let rest = path.substring_char(1, n);
                    let r = concat2(h, rest);
                    assert(rest@ =~= path@.drop_first());
                    r
                } else {
                    String::from_str(path)
                }
            },
            None => String::from_str(path),
        }
    }

    /// Expands a leading `~` with the user's home directory, when it is known.
    pub fn expand_path(path: &str) -> (r: String)
        ensures
            exists|home: Option<Seq<char>>| r@ == #[trigger] expanded(path@, home),
    {
        let home = home_dir_text();
        let r = match &home {
            Some(h) => Self::expand_path_with_home(path, Some(h.as_str())),
            None => Self::expand_path_with_home(path, None),
        };
        proof {
            let hv: Option<Seq<char>> = match home { Some(h) => Some(h@), None => None };
            assert(r@ == expanded(path@, hv));
        }
        r
    }
}

// ============================================================================
// Errors
// ============================================================================

/// An error of reading or writing the configuration; paths are given as
/// text.
#[derive(Debug)]
pub enum ConfigError {
    FileRead(String, String),
    FileWrite(String, String),
    Parse(String),
    Serialize(String),
    PathResolution(String),
}

impl ConfigError {
    /// The message under which the error is displayed.
    pub open spec fn spec_message(&self) -> Seq<char> {
        match self {
            ConfigError::FileRead(p, e) => "Failed to read config file "@ + p@ + ": "@ + e@,
            ConfigError::FileWrite(p, e) => "Failed to write config file "@ + p@ + ": "@ + e@,
            ConfigError::Parse(e) => "Failed to parse config: "@ + e@,
            ConfigError::Serialize(e) => "Failed to serialize config: "@ + e@,
            ConfigError::PathResolution(e) => "Failed to resolve path: "@ + e@,
        }
    }

    /// The message under which the error is displayed.
    pub fn to_string(&self) -> (s: String)
        ensures
            s@ == self.spec_message(),
    {
        match self {
            ConfigError::FileRead(p, e) => {
                let mut s = concat3("Failed to read config file ", p.as_str(), ": ");
                s.append(e.as_str());
                s
            },
            ConfigError::FileWrite(p, e) => {
                let mut s = concat3("Failed to write config file ", p.as_str(), ": ");
                s.append(e.as_str());
                s
            },
            ConfigError::Parse(e) => concat2("Failed to parse config: ", e.as_str()),
            ConfigError::Serialize(e) => concat2("Failed to serialize config: ", e.as_str()),
            ConfigError::PathResolution(e) => concat2("Failed to resolve path: ", e.as_str()),
        }
    }
}

} // verus!
