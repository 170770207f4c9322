//! Watching a node's log: what a log line reports, and when the node is
//! due a warning or a restart.

use vstd::prelude::*;

verus! {

broadcast use {vstd::string::axiom_spec_iter, vstd::string::next_postcondition};

/// The characters of a string slice, in order.
pub fn chars_of(s: &str) -> (v: Vec<char>)
    ensures
        v@ == s@,
{
    let mut v: Vec<char> = Vec::new();
    for c in it: s.chars()
        invariant
            v@ == it.seq().take(it.index() as int),
    {
        v.push(c);
    }
    v
}

/// Whether `needle` stands in `hay` at position `i`.
pub open spec fn occurs_at(hay: Seq<char>, needle: Seq<char>, i: int) -> bool {
    0 <= i && i + needle.len() <= hay.len() && hay.subrange(i, i + needle.len()) == needle
}

/// Whether `needle` stands anywhere in `hay`, as `str::contains` finds it.
pub open spec fn occurs_in(hay: Seq<char>, needle: Seq<char>) -> bool {
    exists|i: int| #[trigger] occurs_at(hay, needle, i)
}

/// Whether `needle` stands in `hay` at position `i`.
fn matches_at(hay: &Vec<char>, needle: &Vec<char>, i: usize) -> (r: bool)
    requires
        i + needle@.len() <= hay@.len(),
    ensures
        r == occurs_at(hay@, needle@, i as int),
{
    let n = needle.len();
    let h = hay.len();
    let mut k: usize = 0;
    while k < n
        invariant
            n == needle@.len(),
            k <= n,
            i + n <= hay@.len(),
            h == hay@.len(),
            forall|j: int| 0 <= j < k ==> hay@[i + j] == needle@[j],
        decreases n - k,
    {
        if hay[i + k] != needle[k] {
            assert(hay@.subrange(i as int, i + n)[k as int] != needle@[k as int]);
            return false;
        }
        k = k + 1;
    }
    assert(hay@.subrange(i as int, i + n) =~= needle@);
    true
}

/// Whether `needle` stands anywhere in `hay`.
fn contains_chars(hay: &Vec<char>, needle: &Vec<char>) -> (r: bool)
    ensures
        r == occurs_in(hay@, needle@),
{
    let n = needle.len();
    let h = hay.len();
    if n > h {
        assert(forall|j: int| !occurs_at(hay@, needle@, j));
        return false;
    }
    let last = h - n;
    let mut i: usize = 0;
    while i < last
        invariant
            n == needle@.len(),
            h == hay@.len(),
            last + n == h,
            i <= last,
            forall|j: int| 0 <= j < i ==> !#[trigger] occurs_at(hay@, needle@, j),
        decreases last - i,
    {
        if matches_at(hay, needle, i) {
            return true;
        }
        i = i + 1;
    }
    let r = matches_at(hay, needle, last);
    assert(r ==> occurs_at(hay@, needle@, last as int));
    assert(!r ==> forall|j: int| !#[trigger] occurs_at(hay@, needle@, j));
    r
}

/// Whether `needle` stands anywhere in `line`.
pub fn line_contains(line: &str, needle: &str) -> (r: bool)
    ensures
        r == occurs_in(line@, needle@),
{
    let hay = chars_of(line);
    let pattern = chars_of(needle);
    contains_chars(&hay, &pattern)
}

/// What one line of the node's log reports.
pub struct LineEvents {
    /// The node accepted a share: the log and share clocks restart.
    pub got_share: bool,
    /// The chain reorganised.
    pub reorg: bool,
    /// The node handed out a job of difficulty 0.
    pub zero_difficulty_job: bool,
    /// The node rejected a block for an invalid root.
    pub invalid_root: bool,
    /// The node's stratum server came up.
    pub stratum_started: bool,
}

/// Reads the events a log line reports, each by the marker text the node
/// writes for it.
pub fn classify_log_line(line: &str) -> (e: LineEvents)
    ensures
        e.got_share == occurs_in(line@, "Got share"@),
        e.reorg == occurs_in(line@, "REORG"@),
        e.zero_difficulty_job == occurs_in(line@, " DIFFICULTY 0 Job"@),
        e.invalid_root == occurs_in(line@, "Invalid Root"@),
        e.stratum_started == occurs_in(line@, "Stratum server started"@),
{
    LineEvents {
        got_share: line_contains(line, "Got share"),
        reorg: line_contains(line, "REORG"),
        zero_difficulty_job: line_contains(line, " DIFFICULTY 0 Job"),
        invalid_root: line_contains(line, "Invalid Root"),
        stratum_started: line_contains(line, "Stratum server started"),
    }
}

/// Log silence, in seconds, after which a warning is printed.
pub const TIMEOUT_WARN_LOG: u64 = 10;

/// Share silence, in seconds, after which a warning is printed.
pub const TIMEOUT_WARN_SHARE: u64 = 30;

/// Log silence, in seconds, after which the node is restarted.
pub const TIMEOUT_RESTART_LOG: u64 = 5;

/// Share silence, in seconds, after which the node is restarted.
pub const TIMEOUT_RESTART_SHARE: u64 = 240;

/// Seconds a restarted node is given: both clocks are set this far ahead.
pub const RESTART_TIME: u64 = 120;

/// Time since a clock was last set, as whole seconds and the nanoseconds
/// beyond them.
pub struct Elapsed {
    pub secs: u64,
    pub nanos: u32,
}

/// Whether an elapsed time is longer than a whole number of seconds.
pub open spec fn longer_than(e: Elapsed, limit_secs: u64) -> bool {
    e.secs > limit_secs || (e.secs == limit_secs && e.nanos > 0)
}

/// What one look at a clock calls for.
pub struct ClockCheck {
    pub warn: bool,
    pub restart: bool,
}

/// Compares the time since a clock was set with its two limits. A clock
/// set in the future (as after a restart) has no elapsed time and calls for
/// nothing.
pub fn check_clock(elapsed: Option<Elapsed>, warn_after: u64, restart_after: u64) -> (c: ClockCheck)
    ensures
        match elapsed {
            None => !c.warn && !c.restart,
            Some(e) => c.warn == longer_than(e, warn_after) && c.restart == longer_than(
                e,
                restart_after,
            ),
        },
{
    match elapsed {
        None => ClockCheck { warn: false, restart: false },
        Some(e) => ClockCheck {
            warn: e.secs > warn_after || (e.secs == warn_after && e.nanos > 0),
            restart: e.secs > restart_after || (e.secs == restart_after && e.nanos > 0),
        },
    }
}

/// Checks the log clock: a warning past 10 s of silence, a restart past
/// 5 s, so that every warning comes with a restart.
pub fn check_log_activity(elapsed: Option<Elapsed>) -> (c: ClockCheck)
    ensures
        match elapsed {
            None => !c.warn && !c.restart,
            Some(e) => c.warn == longer_than(e, TIMEOUT_WARN_LOG) && c.restart == longer_than(
                e,
                TIMEOUT_RESTART_LOG,
            ),
        },
        c.warn ==> c.restart,
{
    check_clock(elapsed, TIMEOUT_WARN_LOG, TIMEOUT_RESTART_LOG)
}

/// Checks the share clock: a warning past 30 s without a share, a restart
/// past 240 s, so that every restart comes with a warning.
pub fn check_share_activity(elapsed: Option<Elapsed>) -> (c: ClockCheck)
    ensures
        match elapsed {
            None => !c.warn && !c.restart,
            Some(e) => c.warn == longer_than(e, TIMEOUT_WARN_SHARE) && c.restart == longer_than(
                e,
                TIMEOUT_RESTART_SHARE,
            ),
        },
        c.restart ==> c.warn,
{
    check_clock(elapsed, TIMEOUT_WARN_SHARE, TIMEOUT_RESTART_SHARE)
}

} // verus!
