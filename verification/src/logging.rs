//! Log levels.
use vstd::prelude::*;
use crate::text::concat2;

verus! {

/// The level type of `tracing`.
#[verifier::external_type_specification]
#[verifier::external_body]
pub struct ExLevel(tracing::Level);

/// The `tracing` level that `name` parses to.
pub uninterp spec fn tracing_level_named(name: Seq<char>) -> tracing::Level;

/// One of the five lower-case level names of `tracing`.
pub open spec fn is_tracing_name(s: Seq<char>) -> bool {
    s == "trace"@ || s == "debug"@ || s == "info"@ || s == "warn"@ || s == "error"@
}

/// `str::parse::<tracing::Level>`: the level `name` parses to, if any. Of the
/// outcome the contract states that a parsed level is `tracing_level_named`
/// of the text, that the five lower-case level names parse, and that they
/// parse to five different levels (the source compares them with
/// `eq_ignore_ascii_case`, after trying a number, and maps each to its own
/// constant: `Level::ERROR`, `WARN`, `INFO`, `DEBUG`, `TRACE`).
#[verifier::external_body]
fn parse_tracing_level(name: &str) -> (r: Option<tracing::Level>)
    ensures
        r matches Some(l) ==> l == tracing_level_named(name@),
        is_tracing_name(name@) ==> r is Some,
        r matches Some(l) ==> (is_tracing_name(name@) ==> forall|other: Seq<char>|
            is_tracing_name(other) && other != name@ ==> l != #[trigger] tracing_level_named(other)),
{
    name.parse::<tracing::Level>().ok()
}

/// A log level.
#[derive(Debug, Clone, Copy, PartialEq, Eq, Structural)]
pub enum LogLevel {
    Trace,
    Debug,
    Info,
    Warn,
    Error,
}

/// A character in ASCII lower case.
pub open spec fn ascii_lower(c: char) -> char {
    if 'A' <= c && c <= 'Z' { ((c as u32) + 32) as char } else { c }
}

/// Equal up to the case of ASCII letters.
pub open spec fn eq_ignore_ascii_case(a: Seq<char>, b: Seq<char>) -> bool {
    a.len() == b.len() && forall|i: int| 0 <= i < a.len() ==> ascii_lower(#[trigger] a[i]) == ascii_lower(b[i])
}

impl LogLevel {
    /// The level's name in lower case.
    pub open spec fn spec_name(self) -> Seq<char> {
        match self {
            LogLevel::Trace => "trace"@,
            LogLevel::Debug => "debug"@,
            LogLevel::Info => "info"@,
            LogLevel::Warn => "warn"@,
            LogLevel::Error => "error"@,
        }
    }

    /// The level's name in lower case.
    pub fn as_str(&self) -> (s: &'static str)
        ensures
            s@ == self.spec_name(),
    {
        match self {
            LogLevel::Trace => "trace",
            LogLevel::Debug => "debug",
            LogLevel::Info => "info",
            LogLevel::Warn => "warn",
            LogLevel::Error => "error",
        }
    }

    /// The `tracing` level of the same name; the five levels map to five
    /// different `tracing` levels.
    pub fn as_tracing_level(&self) -> (l: tracing::Level)
        ensures
            l == tracing_level_named(self.spec_name()),
            forall|l2: LogLevel| l2 != *self ==> l != #[trigger] tracing_level_named(l2.spec_name()),
    {
        proof {
            reveal_strlit("trace");
            reveal_strlit("debug");
            reveal_strlit("info");
            reveal_strlit("warn");
            reveal_strlit("error");
        }
        let r = parse_tracing_level(self.as_str());
        proof {
            assert forall|l2: LogLevel| l2 != *self implies r.unwrap() != #[trigger] tracing_level_named(l2.spec_name()) by {
                assert(is_tracing_name(l2.spec_name()));
                assert(l2.spec_name() != self.spec_name()) by {
                    if l2.spec_name() == self.spec_name() {
                        assert(l2.spec_name()[0] == self.spec_name()[0]);
                    }
                }
            }
        }
        r.unwrap()
    }

    /// The level named `s`, in any mix of cases; anything else is refused
    /// with `Invalid log level: S`.
    pub fn parse(s: &str) -> (r: Result<LogLevel, String>)
        ensures
            match r {
                Ok(l) => eq_ignore_ascii_case(s@, l.spec_name()),
                Err(m) => m@ == "Invalid log level: "@ + s@ && !is_level_name(s@),
            },
    {
        if ascii_eq_ignore_case(s, "trace") {
            Ok(LogLevel::Trace)
        } else if ascii_eq_ignore_case(s, "debug") {
            Ok(LogLevel::Debug)
        } else if ascii_eq_ignore_case(s, "info") {
            Ok(LogLevel::Info)
        } else if ascii_eq_ignore_case(s, "warn") {
            Ok(LogLevel::Warn)
        } else if ascii_eq_ignore_case(s, "error") {
            Ok(LogLevel::Error)
        } else {
            Err(concat2("Invalid log level: ", s))
        }
    }
}

/// Level names read back: a text that reads as the name of two levels, up to
/// case, names the same level, so `parse` of any level's name (in any mix of
/// cases) gives that level.
pub proof fn lemma_level_names_distinct(s: Seq<char>, l1: LogLevel, l2: LogLevel)
    requires
        eq_ignore_ascii_case(s, l1.spec_name()),
        eq_ignore_ascii_case(s, l2.spec_name()),
    ensures
        l1 == l2,
{
    reveal_strlit("trace");
    reveal_strlit("debug");
    reveal_strlit("info");
    reveal_strlit("warn");
    reveal_strlit("error");
    if l1 != l2 {
        assert(ascii_lower(s[0]) == ascii_lower(l1.spec_name()[0]));
        assert(ascii_lower(s[0]) == ascii_lower(l2.spec_name()[0]));
    }
}

/// `s` names a level, in any mix of cases.
pub open spec fn is_level_name(s: Seq<char>) -> bool {
    ||| eq_ignore_ascii_case(s, "trace"@)
    ||| eq_ignore_ascii_case(s, "debug"@)
    ||| eq_ignore_ascii_case(s, "info"@)
    ||| eq_ignore_ascii_case(s, "warn"@)
    ||| eq_ignore_ascii_case(s, "error"@)
}

fn to_ascii_lower(c: char) -> (r: char)
    ensures
        r == ascii_lower(c),
{
    if 'A' <= c && c <= 'Z' {
        let u: u32 = c as u32 + 32;
        let b: u8 = u as u8;
        b as char
    } else {
        c
    }
}

/// Whether `a` and `b` are equal up to the case of ASCII letters.
pub fn ascii_eq_ignore_case(a: &str, b: &str) -> (r: bool)
    ensures
        r == eq_ignore_ascii_case(a@, b@),
{
    let n = a.unicode_len();
    if n != b.unicode_len() {
        return false;
    }
    let mut i: usize = 0;
    while i < n
        invariant
            i <= n,
            n == a@.len(),
            n == b@.len(),
            forall|j: int| 0 <= j < i ==> ascii_lower(#[trigger] a@[j]) == ascii_lower(b@[j]),
        decreases n - i,
    {
        if to_ascii_lower(a.get_char(i)) != to_ascii_lower(b.get_char(i)) {
            return false;
        }
        i = i + 1;
    }
    true
}

impl std::str::FromStr for LogLevel {
    type Err = String;

    fn from_str(s: &str) -> (r: Result<LogLevel, String>)
        ensures
            match r {
                Ok(l) => eq_ignore_ascii_case(s@, l.spec_name()),
                Err(m) => m@ == "Invalid log level: "@ + s@ && !is_level_name(s@),
            },
    {
        LogLevel::parse(s)
    }
}

/// Checks a level given to change the logging: one of the five level names,
/// in any mix of cases, else `Invalid log level: S. Must be one of: trace,
/// debug, info, warn, error`.
pub fn validate_log_level(level: &str) -> (r: Result<(), String>)
    ensures
        r is Ok <==> is_level_name(level@),
        r matches Err(m) ==> m@ == "Invalid log level: "@ + level@ + ". Must be one of: trace, debug, info, warn, error"@,
{
    match LogLevel::parse(level) {
        Ok(_) => Ok(()),
        Err(_) => {
            let mut m = concat2("Invalid log level: ", level);
            m.append(". Must be one of: trace, debug, info, warn, error");
            Err(m)
        },
    }
}

/// How logging is set up.
#[derive(Debug, Clone)]
pub struct LogConfig {
    /// Log level (trace, debug, info, warn or error).
    pub level: String,
    /// Directory of the log files.
    pub log_dir: String,
    pub console_enabled: bool,
    pub file_enabled: bool,
    /// Whether file logs are written as JSON.
    pub json_format: bool,
}

/// `rel` appended to the path `base` as `PathBuf::push` does for a relative
/// component on Unix: with a `/` between them unless `base` is empty or ends
/// with one.
pub open spec fn path_join(base: Seq<char>, rel: Seq<char>) -> Seq<char> {
    if base.len() == 0 {
        rel
    } else if base.last() == '/' {
        base + rel
    } else {
        base + seq!['/'] + rel
    }
}

fn push_path(base: String, rel: &str) -> (r: String)
    ensures
        r@ == path_join(base@, rel@),
{
    let n = base.as_str().unicode_len();
    if n == 0 {
        String::from_str(rel)
    } else if base.as_str().get_char(n - 1) == '/' {
        let mut b = base;
        b.append(rel);
        b
    } else {
        let mut b = base;
        crate::text::push_char(&mut b, '/');
        b.append(rel);
        b
    }
}

/// The local data directory of the user (`dirs::data_local_dir`), as text
/// (lossily). Nothing is stated of it: it depends on the environment.
#[verifier::external_body]
fn data_local_dir_text() -> (d: Option<String>) {
    match dirs::data_local_dir() {
        Some(p) => Some(p.to_string_lossy().into_owned()),
        None => None,
    }
}

impl LogConfig {
    /// The default configuration under the data directory `base` (`.` when
    /// unknown): `info` to the console and to files in `BASE/velo-hub/logs`,
    /// as text.
    pub fn default_in(base: Option<String>) -> (c: Self)
        ensures
            c.level@ == "info"@,
            c.log_dir@ == path_join(path_join(match base { Some(b) => b@, None => "."@ }, "velo-hub"@), "logs"@),
            c.console_enabled,
            c.file_enabled,
            !c.json_format,
    {
        let b = match base {
            Some(b) => b,
            None => String::from_str("."),
        };
        let d = push_path(push_path(b, "velo-hub"), "logs");
        LogConfig {
            level: String::from_str("info"),
            log_dir: d,
            console_enabled: true,
            file_enabled: true,
            json_format: false,
        }
    }

    /// The default configuration under the user's local data directory.
    pub fn default() -> (c: Self)
        ensures
            c.level@ == "info"@,
            c.console_enabled,
            c.file_enabled,
            !c.json_format,
    {
        Self::default_in(data_local_dir_text())
    }
}

} // verus!
