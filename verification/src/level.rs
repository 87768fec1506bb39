//! Severity levels and level thresholds.
//!
//! A [`Level`] is attached to a log record; a [`LevelFilter`] is the
//! threshold a directive carries. The two enumerations are ordered:
//! `Off < Error < Warn < Info < Debug < Trace`, where a greater threshold
//! is more permissive. A record at level `l` passes a threshold `t` iff
//! `l <= t` in this ordering, so `Off` admits nothing.

use vstd::prelude::*;

use crate::chars::{ci_matches, eq_ignore_case};

verus! {

/// Severity of a single log record, from most severe to most verbose.
#[derive(Clone, Copy, Debug, Eq, Hash, PartialEq, Structural)]
pub enum Level {
    /// The "error" level: serious failures.
    Error,
    /// The "warn" level: hazardous situations.
    Warn,
    /// The "info" level: useful information.
    Info,
    /// The "debug" level: lower priority information.
    Debug,
    /// The "trace" level: very verbose information.
    Trace,
}

/// Threshold carried by a directive: a level of verbosity up to which
/// records are admitted, or `Off` for none at all.
#[derive(Clone, Copy, Debug, Eq, Hash, PartialEq, Structural)]
pub enum LevelFilter {
    /// No level is admitted.
    Off,
    /// Admits records up to [`Level::Error`].
    Error,
    /// Admits records up to [`Level::Warn`].
    Warn,
    /// Admits records up to [`Level::Info`].
    Info,
    /// Admits records up to [`Level::Debug`].
    Debug,
    /// Admits records up to [`Level::Trace`], that is, everything.
    Trace,
}

impl Level {
    /// Numeric rank of a level. The least severe (most verbose) level has
    /// the greatest rank; no record level ranks as low as `Off`.
    pub open spec fn as_nat(self) -> nat {
        match self {
            Level::Error => 1,
            Level::Warn => 2,
            Level::Info => 3,
            Level::Debug => 4,
            Level::Trace => 5,
        }
    }
}

impl LevelFilter {
    /// Numeric rank of a threshold; `Off` is minimal, `Trace` maximal.
    pub open spec fn as_nat(self) -> nat {
        match self {
            LevelFilter::Off => 0,
            LevelFilter::Error => 1,
            LevelFilter::Warn => 2,
            LevelFilter::Info => 3,
            LevelFilter::Debug => 4,
            LevelFilter::Trace => 5,
        }
    }

    /// The most permissive threshold.
    pub fn max() -> (r: LevelFilter)
        ensures
            r == LevelFilter::Trace,
    {
        LevelFilter::Trace
    }
}

/// A record at `level` passes the threshold `filter` iff its rank does not
/// exceed the threshold's. Under `Off` (rank 0) no record level passes.
pub open spec fn spec_level_enabled(level: Level, filter: LevelFilter) -> bool {
    level.as_nat() <= filter.as_nat()
}

/// Executable rank of a record level.
pub fn level_num(level: Level) -> (n: u8)
    ensures
        n as nat == level.as_nat(),
{
    match level {
        Level::Error => 1,
        Level::Warn => 2,
        Level::Info => 3,
        Level::Debug => 4,
        Level::Trace => 5,
    }
}

/// Executable rank of a threshold.
pub fn filter_num(filter: LevelFilter) -> (n: u8)
    ensures
        n as nat == filter.as_nat(),
{
    match filter {
        LevelFilter::Off => 0,
        LevelFilter::Error => 1,
        LevelFilter::Warn => 2,
        LevelFilter::Info => 3,
        LevelFilter::Debug => 4,
        LevelFilter::Trace => 5,
    }
}

/// Executable form of [`spec_level_enabled`].
pub fn level_passes(level: Level, filter: LevelFilter) -> (r: bool)
    ensures
        r == spec_level_enabled(level, filter),
{
    level_num(level) <= filter_num(filter)
}

/// Is `c` an ASCII decimal digit?
pub open spec fn is_digit(c: char) -> bool {
    '0' <= c && c <= '9'
}

/// Value of an ASCII decimal digit.
pub open spec fn digit_val(c: char) -> nat {
    (c as u32 - '0' as u32) as nat
}

/// Do all characters of `s` satisfy `is_digit`?
pub open spec fn all_digits(s: Seq<char>) -> bool {
    forall|i: int| 0 <= i < s.len() ==> is_digit(s[i])
}

/// Numeric value of a digit string, most significant digit first.
pub open spec fn digits_val(s: Seq<char>) -> nat
    decreases s.len(),
{
    if s.len() == 0 {
        0
    } else {
        digits_val(s.drop_last()) * 10 + digit_val(s.last())
    }
}

/// The threshold of rank `n`, for `n <= 5`.
pub open spec fn level_filter_of_nat(n: nat) -> LevelFilter {
    if n == 0 {
        LevelFilter::Off
    } else if n == 1 {
        LevelFilter::Error
    } else if n == 2 {
        LevelFilter::Warn
    } else if n == 3 {
        LevelFilter::Info
    } else if n == 4 {
        LevelFilter::Debug
    } else {
        LevelFilter::Trace
    }
}

/// How a piece of a specification string is read as a threshold: one of
/// the six level names, compared case-insensitively, or a non-negative
/// integer between 0 and 5.
pub open spec fn spec_parse_level(s: Seq<char>) -> Option<LevelFilter> {
    if ci_matches(s, seq!['o', 'f', 'f']) {
        Some(LevelFilter::Off)
    } else if ci_matches(s, seq!['e', 'r', 'r', 'o', 'r']) {
        Some(LevelFilter::Error)
    } else if ci_matches(s, seq!['w', 'a', 'r', 'n']) {
        Some(LevelFilter::Warn)
    } else if ci_matches(s, seq!['i', 'n', 'f', 'o']) {
        Some(LevelFilter::Info)
    } else if ci_matches(s, seq!['d', 'e', 'b', 'u', 'g']) {
        Some(LevelFilter::Debug)
    } else if ci_matches(s, seq!['t', 'r', 'a', 'c', 'e']) {
        Some(LevelFilter::Trace)
    } else if s.len() > 0 && all_digits(s) && digits_val(s) <= 5 {
        Some(level_filter_of_nat(digits_val(s)))
    } else {
        None
    }
}

/// Clamp of `digits_val` at 6, used by the executable digit scan so that
/// the running value never overflows.
spec fn clamped_val(s: Seq<char>) -> nat {
    if digits_val(s) > 5 {
        6
    } else {
        digits_val(s)
    }
}

proof fn lemma_digits_val_grows(s: Seq<char>)
    requires
        s.len() > 0,
    ensures
        digits_val(s) >= digits_val(s.drop_last()),
{
}

/// Executable parse of a digit string, clamped at 6; returns `s@.len()`'s
/// worth of scanning and `None` when a non-digit occurs.
fn parse_digits_clamped(s: &str) -> (r: Option<u32>)
    ensures
        match r {
            Some(v) => s@.len() > 0 && all_digits(s@) && v as nat == clamped_val(s@),
            None => s@.len() == 0 || !all_digits(s@),
        },
{
    let n = s.unicode_len();
    if n == 0 {
        return None;
    }
    let mut v: u32 = 0;
    let mut i: usize = 0;
    while i < n
        invariant
            i <= n,
            n == s@.len(),
            forall|j: int| 0 <= j < i ==> is_digit(s@[j]),
            v as nat == clamped_val(s@.take(i as int)),
            v <= 6,
        decreases n - i,
    {
        let c = s.get_char(i);
        if !('0' <= c && c <= '9') {
            assert(!is_digit(s@[i as int]));
            return None;
        }
        let d: u32 = c as u32 - '0' as u32;
        v = v * 10 + d;
        if v > 5 {
            v = 6;
        }
        proof {
            let p = s@.take(i as int);
            let q = s@.take(i + 1);
            assert(q.drop_last() =~= p);
            assert(q.last() == s@[i as int]);
            lemma_digits_val_grows(q);
        }
        i = i + 1;
    }
    proof {
        assert(s@.take(n as int) =~= s@);
    }
    Some(v)
}

/// Parse a threshold from a piece of a specification string: a level name
/// (case-insensitive) or an integer 0 to 5, else `None`.
pub fn parse_level_filter(s: &str) -> (r: Option<LevelFilter>)
    ensures
        r == spec_parse_level(s@),
{
    proof {
        reveal_strlit("off");
        reveal_strlit("error");
        reveal_strlit("warn");
        reveal_strlit("info");
        reveal_strlit("debug");
        reveal_strlit("trace");
        assert("off"@ =~= seq!['o', 'f', 'f']);
        assert("error"@ =~= seq!['e', 'r', 'r', 'o', 'r']);
        assert("warn"@ =~= seq!['w', 'a', 'r', 'n']);
        assert("info"@ =~= seq!['i', 'n', 'f', 'o']);
        assert("debug"@ =~= seq!['d', 'e', 'b', 'u', 'g']);
        assert("trace"@ =~= seq!['t', 'r', 'a', 'c', 'e']);
    }
    if eq_ignore_case(s, "off") {
        Some(LevelFilter::Off)
    } else if eq_ignore_case(s, "error") {
        Some(LevelFilter::Error)
    } else if eq_ignore_case(s, "warn") {
        Some(LevelFilter::Warn)
    } else if eq_ignore_case(s, "info") {
        Some(LevelFilter::Info)
    } else if eq_ignore_case(s, "debug") {
        Some(LevelFilter::Debug)
    } else if eq_ignore_case(s, "trace") {
        Some(LevelFilter::Trace)
    } else {
        match parse_digits_clamped(s) {
            Some(v) => {
                if v <= 5 {
                    Some(match v {
                        0 => LevelFilter::Off,
                        1 => LevelFilter::Error,
                        2 => LevelFilter::Warn,
                        3 => LevelFilter::Info,
                        4 => LevelFilter::Debug,
                        _ => LevelFilter::Trace,
                    })
                } else {
                    None
                }
            },
            None => None,
        }
    }
}

} // verus!
