//! Entries of the log files: reading a line written by the log formatter,
//! and choosing the entries to show.
use vstd::prelude::*;
use crate::config::parse_unsigned;
use crate::config::parse_unsigned_str;
use crate::logging::{ascii_eq_ignore_case, eq_ignore_ascii_case};
use crate::text::{find_char, first_of, last_occurrence, last_of, occurs_at, rfind_char, rfind_str, str_eq, trim, trim_str};

verus! {

/// One entry of a log file.
#[derive(Debug, Clone)]
pub struct LogEntry {
    pub timestamp: String,
    pub level: String,
    pub target: String,
    pub message: String,
    pub file: Option<String>,
    pub line: Option<u32>,
}

/// Which entries to show: of a level (in any case), whose message contains a
/// text (in any case), and at most how many (100 when not given).
#[derive(Debug, Clone)]
pub struct LogFilter {
    pub level: Option<String>,
    pub search: Option<String>,
    pub limit: Option<usize>,
}

/// Leading spaces removed.
pub open spec fn skip_spaces(s: Seq<char>) -> Seq<char>
    decreases s.len(),
{
    if s.len() > 0 && s[0] == ' ' { skip_spaces(s.drop_first()) } else { s }
}

/// The three parts of a log line: the timestamp before the first space; past
/// the run of spaces that follows it (the formatter pads the level), the level
/// up to the next space; and the rest after that space (`None` where the line
/// has no such second space).
pub open spec fn line_parts(line: Seq<char>) -> Option<(Seq<char>, Seq<char>, Seq<char>)> {
    match first_of(line, ' ') {
        None => None,
        Some(i1) => {
            let r1 = skip_spaces(line.subrange(i1 + 1, line.len() as int));
            match first_of(r1, ' ') {
                None => None,
                Some(i2) => Some((line.subrange(0, i1), r1.subrange(0, i2), r1.subrange(i2 + 1, r1.len() as int))),
            }
        },
    }
}

proof fn lemma_skip_spaces(s: Seq<char>, a: int)
    requires
        0 <= a <= s.len(),
        forall|j: int| 0 <= j < a ==> s[j] == ' ',
        a == s.len() || s[a] != ' ',
    ensures
        skip_spaces(s) == s.subrange(a, s.len() as int),
    decreases a,
{
    if a == 0 {
        assert(s.subrange(0, s.len() as int) =~= s);
    } else {
        lemma_skip_spaces(s.drop_first(), a - 1);
        assert(s.drop_first().subrange(a - 1, s.len() - 1) =~= s.subrange(a, s.len() as int));
    }
}

/// Target, message, file and line read from the rest of a log line: the
/// target before the first `:`, and, when the message ends with
/// ` at FILE:LINE`, that place; the line number is kept when it reads as one.
pub open spec fn rest_fields(rest: Seq<char>) -> (Seq<char>, Seq<char>, Option<Seq<char>>, Option<u32>) {
    match first_of(rest, ':') {
        None => ("unknown"@, rest, None, None),
        Some(c) => {
            let after = rest.subrange(c + 1, rest.len() as int);
            let target = trim(rest.subrange(0, c));
            match last_occurrence(after, " at "@) {
                None => (target, trim(after), None, None),
                Some(f) => {
                    let info = after.subrange(f + 4, after.len() as int);
                    match last_of(info, ':') {
                        None => (target, trim(after), None, None),
                        Some(l) => (target, trim(after.subrange(0, f)), Some(info.subrange(0, l)),
                            match parse_unsigned(info.subrange(l + 1, info.len() as int), u32::MAX as nat) {
                                Some(v) => Some(v as u32),
                                None => None,
                            }),
                    }
                },
            }
        },
    }
}

/// `e` is the entry read from `line`.
pub open spec fn entry_of_line(e: LogEntry, line: Seq<char>) -> bool {
    match line_parts(line) {
        None => false,
        Some((p0, p1, rest)) => {
            let (target, message, file, ln) = rest_fields(rest);
            &&& e.timestamp@ == trim(p0)
            &&& e.level@ == trim(p1)
            &&& e.target@ == target
            &&& e.message@ == message
            &&& match file {
                Some(f) => e.file matches Some(x) && x@ == f,
                None => e.file is None,
            }
            &&& e.line == ln
        },
    }
}

fn rest_fields_of(rest: &str) -> (r: (String, String, Option<String>, Option<u32>))
    ensures
        ({
            let (t, m, f, l) = rest_fields(rest@);
            &&& r.0@ == t
            &&& r.1@ == m
            &&& match f {
                Some(x) => r.2 matches Some(y) && y@ == x,
                None => r.2 is None,
            }
            &&& r.3 == l
        }),
{
    proof {
        reveal_strlit(" at ");
    }
    let n = rest.unicode_len();
    match find_char(rest, ':') {
        None => (String::from_str("unknown"), String::from_str(rest), None, None),
        Some(c) => {
            let after = rest.substring_char(c + 1, n);
            let target = trim_str(rest.substring_char(0, c));
            let an = after.unicode_len();
            match rfind_str(after, " at ") {
                None => (target, trim_str(after), None, None),
                Some(f) => {
                    proof {
                        assert(occurs_at(after@, " at "@, f as int));
                    }
                    let info = after.substring_char(f + 4, an);
                    let inn = info.unicode_len();
                    match rfind_char(info, ':') {
                        None => (target, trim_str(after), None, None),
                        Some(l) => {
                            let message = trim_str(after.substring_char(0, f));
                            let file = String::from_str(info.substring_char(0, l));
                            let num = parse_unsigned_str(info.substring_char(l + 1, inn), 4294967295);
                            let ln: Option<u32> = match num {
                                Some(v) => Some(v as u32),
                                None => None,
                            };
                            (target, message, Some(file), ln)
                        },
                    }
                },
            }
        },
    }
}

/// Reads a log line `TIMESTAMP  LEVEL TARGET: MESSAGE at FILE:LINE`, where
/// one or more spaces stand between timestamp and level; a line without
/// the two separating spaces is no entry (see `line_parts`).
pub fn parse_log_line(line: &str) -> (r: Option<LogEntry>)
    ensures
        match r {
            Some(e) => entry_of_line(e, line@),
            None => line_parts(line@) is None,
        },
{
    let n = line.unicode_len();
    let i1 = match find_char(line, ' ') {
        Some(i) => i,
        None => {
            return None;
        },
    };
    let mut a: usize = i1 + 1;
    while a < n && line.get_char(a) == ' '
        invariant
            i1 < a <= n,
            n == line@.len(),
            forall|j: int| i1 < j < a ==> line@[j] == ' ',
        decreases n - a,
    {
        a = a + 1;
    }
    proof {
        let t = line@.subrange(i1 + 1, n as int);
        assert forall|j: int| 0 <= j < a - (i1 + 1) implies t[j] == ' ' by {
            assert(t[j] == line@[i1 + 1 + j]);
        }
        if a < n {
            assert(t[a - (i1 + 1)] == line@[a as int]);
        }
        lemma_skip_spaces(t, a - (i1 + 1));
        assert(t.subrange(a - (i1 + 1), t.len() as int) =~= line@.subrange(a as int, n as int));
    }
    let r1 = line.substring_char(a, n);
    let m = r1.unicode_len();
    let i2 = match find_char(r1, ' ') {
        Some(i) => i,
        None => {
            return None;
        },
    };
    let timestamp = trim_str(line.substring_char(0, i1));
    let level = trim_str(r1.substring_char(0, i2));
    let rest = r1.substring_char(i2 + 1, m);
    let (target, message, file, ln) = rest_fields_of(rest);
    Some(LogEntry { timestamp, level, target, message, file, line: ln })
}

// ============================================================================
// Choosing entries
// ============================================================================

/// The lower-case form of a text, as `str::to_lowercase` gives it.
pub uninterp spec fn lowercase(s: Seq<char>) -> Seq<char>;

/// `str::to_lowercase`. The contract names the result `lowercase` of the
/// text and says nothing more of it.
#[verifier::external_body]
fn to_lowercase(s: &str) -> (r: String)
    ensures
        r@ == lowercase(s@),
{
    s.to_lowercase()
}

/// `p` occurs somewhere in `s`.
pub open spec fn contains(s: Seq<char>, p: Seq<char>) -> bool {
    exists|i: int| occurs_at(s, p, i)
}

/// Whether `p` occurs in `s`.
pub fn contains_str(s: &str, p: &str) -> (b: bool)
    ensures
        b == contains(s@, p@),
{
    let n = s.unicode_len();
    let m = p.unicode_len();
    if m > n {
        return false;
    }
    let mut i: usize = 0;
    loop
        invariant
            n == s@.len(),
            m == p@.len(),
            m <= n,
            i <= n - m,
            forall|j: int| 0 <= j < i ==> !#[trigger] occurs_at(s@, p@, j),
        decreases n - m - i,
    {
        if str_eq(s.substring_char(i, i + m), p) {
            assert(occurs_at(s@, p@, i as int));
            return true;
        }
        if i == n - m {
            assert forall|j: int| !occurs_at(s@, p@, j) by {
                if j < i {
                    assert(!occurs_at(s@, p@, j));
                }
            }
            return false;
        }
        i = i + 1;
    }
}

/// `e` passes the filter's level and search conditions.
pub open spec fn entry_kept(e: LogEntry, f: LogFilter) -> bool {
    &&& match f.level {
        Some(l) => eq_ignore_ascii_case(e.level@, l@),
        None => true,
    }
    &&& match f.search {
        Some(q) => contains(lowercase(e.message@), lowercase(q@)),
        None => true,
    }
}

/// The entries that pass the filter's conditions, in order.
pub open spec fn kept_entries(es: Seq<LogEntry>, f: LogFilter) -> Seq<LogEntry>
    decreases es.len(),
{
    if es.len() == 0 {
        Seq::empty()
    } else if entry_kept(es.last(), f) {
        kept_entries(es.drop_last(), f).push(es.last())
    } else {
        kept_entries(es.drop_last(), f)
    }
}

/// How many entries are shown at most.
pub open spec fn entry_limit(f: LogFilter) -> nat {
    match f.limit {
        Some(n) => n as nat,
        None => 100,
    }
}

/// The entries to show: the most recent of those that pass the conditions,
/// that is the last of them in file order, at most the limit, kept in order.
pub fn filter_log_entries(entries: Vec<LogEntry>, filter: &LogFilter) -> (r: Vec<LogEntry>)
    ensures
        ({
            let k = kept_entries(entries@, *filter);
            r@ == k.skip(k.len() - (if entry_limit(*filter) < k.len() { entry_limit(*filter) as int } else { k.len() as int }))
        }),
{
    let mut out: Vec<LogEntry> = Vec::new();
    let mut rest = entries;
    let ghost all = rest@;
    let ghost mut taken: Seq<LogEntry> = Seq::empty();
    assert(taken + rest@ =~= all);
    let lowered_search: Option<String> = match &filter.search {
        Some(q) => Some(to_lowercase(q.as_str())),
        None => None,
    };
    while rest.len() > 0
        invariant
            taken + rest@ == all,
            out@ == kept_entries(taken, *filter),
            match filter.search {
                Some(q) => lowered_search matches Some(lq) && lq@ == lowercase(q@),
                None => lowered_search is None,
            },
        decreases rest@.len(),
    {
        let ghost prev = taken;
        let e = rest.remove(0);
        proof {
            taken = taken.push(e);
            assert(taken + rest@ =~= all);
            assert(taken.drop_last() =~= prev);
        }
        let level_ok = match &filter.level {
            Some(l) => ascii_eq_ignore_case(e.level.as_str(), l.as_str()),
            None => true,
        };
        let search_ok = match &lowered_search {
            Some(lq) => {
                let lm = to_lowercase(e.message.as_str());
                contains_str(lm.as_str(), lq.as_str())
            },
            None => true,
        };
        if level_ok && search_ok {
            out.push(e);
        }
    }
    assert(taken =~= all);
    let limit: usize = match filter.limit {
        Some(n) => n,
        None => 100,
    };
    if out.len() > limit {
        let start = out.len() - limit;
        let recent = out.split_off(start);
        recent
    } else {
        proof {
            assert(out@.skip(0) =~= out@);
        }
        out
    }
}

} // verus!
