//! The sliding window of recent shares: trimming expired shares off the
//! front of a queue, and merging recent shares at its back.
//!
//! Trimming pops the front share while it is older than the window start,
//! so every share from the first one inside the window on is kept.

use vstd::prelude::*;
use std::collections::VecDeque;
use vstd::string::StringExecFns;
use crate::grouping::{group_positions, groups_view, is_grouping, KeyGroup};
use crate::keys::dash_join;
use crate::text::{dec_text, i64_to_string, str_eq};

verus! {

/// Length of the payout window, in seconds.
pub const WINDOW_LENGTH: u64 = 7200;

/// How many shares a trim removes from the front of a queue with these
/// times: the leading shares older than `start`.
pub open spec fn trim_count(times: Seq<int>, start: int) -> nat
    decreases times.len(),
{
    if times.len() == 0 || times[0] >= start {
        0
    } else {
        1 + trim_count(times.drop_first(), start)
    }
}

/// A trim removes exactly the leading shares older than `start`: at most
/// all of them, every removed one expired, and the first kept one not.
pub proof fn lemma_trim_shape(times: Seq<int>, start: int)
    ensures
        trim_count(times, start) <= times.len(),
        forall|j: int| 0 <= j < trim_count(times, start) ==> #[trigger] times[j] < start,
        trim_count(times, start) < times.len() ==> times[trim_count(times, start) as int] >= start,
    decreases times.len(),
{
    if times.len() > 0 && times[0] < start {
        let d = times.drop_first();
        lemma_trim_shape(d, start);
        assert forall|j: int| 0 <= j < trim_count(times, start) implies #[trigger] times[j] < start by {
            if j > 0 {
                assert(times[j] == d[j - 1]);
            }
        }
        if trim_count(times, start) < times.len() {
            assert(times[trim_count(times, start) as int] == d[trim_count(d, start) as int]);
        }
    }
}

/// Removing the first `k` of the leading expired shares leaves the rest of
/// them to remove.
proof fn lemma_trim_step(times: Seq<int>, start: int, k: int)
    requires
        0 <= k < times.len(),
        times[k] < start,
        trim_count(times, start) == k + trim_count(times.skip(k), start),
    ensures
        trim_count(times, start) == k + 1 + trim_count(times.skip(k + 1), start),
{
    assert(times.skip(k).drop_first() =~= times.skip(k + 1));
}

/// Times in non-decreasing order, as shares arrive.
pub open spec fn sorted_times(times: Seq<int>) -> bool {
    forall|i: int, j: int| 0 <= i <= j < times.len() ==> times[i] <= times[j]
}

/// A trim removes only expired shares.
pub proof fn law_trim_removes_only_expired(times: Seq<int>, start: int)
    ensures
        forall|j: int| 0 <= j < trim_count(times, start) ==> #[trigger] times[j] < start,
{
    lemma_trim_shape(times, start);
}

/// On a queue in time order, every share left by a trim lies in the window.
pub proof fn law_trim_leaves_window(times: Seq<int>, start: int)
    requires
        sorted_times(times),
    ensures
        forall|i: int|
            trim_count(times, start) <= i < times.len() ==> #[trigger] times[i] >= start,
{
    lemma_trim_shape(times, start);
    let c = trim_count(times, start) as int;
    if c < times.len() {
        assert forall|i: int| c <= i < times.len() implies #[trigger] times[i] >= start by {
            assert(times[c] <= times[i]);
        }
    }
}

/// Trimming again at the same start removes nothing.
pub proof fn law_trim_idempotent(times: Seq<int>, start: int)
    ensures
        trim_count(times.skip(trim_count(times, start) as int), start) == 0,
{
    lemma_trim_shape(times, start);
    let c = trim_count(times, start) as int;
    let r = times.skip(c);
    if r.len() > 0 {
        assert(r[0] == times[c]);
    }
}

/// Trimming keeps a queue in time order.
pub proof fn law_trim_keeps_order(times: Seq<int>, start: int)
    requires
        sorted_times(times),
    ensures
        sorted_times(times.skip(trim_count(times, start) as int)),
{
    lemma_trim_shape(times, start);
    let c = trim_count(times, start) as int;
    let r = times.skip(c);
    assert forall|i: int, j: int| 0 <= i <= j < r.len() implies r[i] <= r[j] by {
        assert(r[i] == times[c + i] && r[j] == times[c + j]);
    }
}

/// Adding a share no older than the newest one keeps a queue in time order.
pub proof fn law_append_keeps_order(times: Seq<int>, t: int)
    requires
        sorted_times(times),
        times.len() == 0 || times.last() <= t,
    ensures
        sorted_times(times.push(t)),
{
    let r = times.push(t);
    assert forall|i: int, j: int| 0 <= i <= j < r.len() implies r[i] <= r[j] by {
        if j == times.len() && i < j {
            assert(times[i] <= times[times.len() - 1]);
        }
    }
}

/// A share of the payout window, reduced to what scoring needs. The score is
/// a 32-bit float, carried here by its bit pattern.
#[derive(Clone)]
pub struct ShareMinified {
    pub user_name: String,
    pub coin_id: i16,
    pub algo: String,
    pub time: i32,
    pub share_payout_bits: u32,
    pub mode: String,
    pub party_pass: String,
    pub compressed: bool,
}

/// The times of the shares in a payout queue.
pub open spec fn share_times(q: Seq<ShareMinified>) -> Seq<int> {
    q.map_values(|s: ShareMinified| s.time as int)
}

/// The window start for a current time, as the queue compares it: the
/// difference taken in `u64`, then cut to `i32`.
pub open spec fn window_start_i32(time_current: u64) -> int {
    ((time_current - WINDOW_LENGTH) as u64) as i32 as int
}

/// Trims the payout queue to the window ending at `time_current` (seconds).
pub fn trim_shares_queue(shares: &mut VecDeque<ShareMinified>, time_current: u64)
    requires
        time_current >= WINDOW_LENGTH,
    ensures
        final(shares)@ == old(shares)@.skip(
            trim_count(share_times(old(shares)@), window_start_i32(time_current)) as int,
        ),
{
    let ghost t = share_times(old(shares)@);
    let start: i32 = #[verifier::truncate] ((time_current - WINDOW_LENGTH) as i32);
    assert(start as int == window_start_i32(time_current));
    let ghost mut k: int = 0;
    assert(old(shares)@.skip(0) =~= old(shares)@);
    assert(t.skip(0) =~= t);
    while shares.len() > 0 && shares[0].time < start
        invariant
            0 <= k <= t.len(),
            t.len() == old(shares)@.len(),
            t == share_times(old(shares)@),
            shares@ == old(shares)@.skip(k),
            trim_count(t, start as int) == k + trim_count(t.skip(k), start as int),
        decreases shares@.len(),
    {
        proof {
            assert(shares@[0] == old(shares)@[k]);
            lemma_trim_step(t, start as int, k);
            assert(old(shares)@.skip(k).drop_first() =~= old(shares)@.skip(k + 1));
        }
        let _ = shares.pop_front();
        proof {
            k = k + 1;
        }
    }
    proof {
        if shares@.len() == 0 {
            assert(t.skip(k) =~= Seq::<int>::empty());
        } else {
            assert(t.skip(k)[0] == t[k]);
        }
    }
}

/// Seconds back from now within which shares are merged by compression.
pub const COMPRESSION_LOOKBACK: u64 = 360000000;

/// The time before which compression leaves shares alone: the current time
/// cut to `i32`, less the lookback.
pub open spec fn lookback_from(time_current: u64) -> int {
    (time_current as i32) as int - COMPRESSION_LOOKBACK
}

/// The time before which compression leaves shares alone.
pub fn compression_lookback(time_current: u64) -> (t: i32)
    requires
        lookback_from(time_current) >= i32::MIN,
    ensures
        t as int == lookback_from(time_current),
{
    let now: i32 = #[verifier::truncate] (time_current as i32);
    now - (COMPRESSION_LOOKBACK as i32)
}

/// The key under which compression merges shares:
/// "<user>-<coin>-<algo>-<mode>-<party password>".
pub open spec fn compress_key_text(s: ShareMinified) -> Seq<char> {
    dash_join(
        dash_join(dash_join(dash_join(s.user_name@, dec_text(s.coin_id as int)), s.algo@), s.mode@),
        s.party_pass@,
    )
}

/// The key under which compression merges a share.
pub fn compress_key(share: &ShareMinified) -> (key: String)
    ensures
        key@ == compress_key_text(*share),
{
    let mut key = share.user_name.clone();
    key.append("-");
    let coin = i64_to_string(share.coin_id as i64);
    key.append(coin.as_str());
    key.append("-");
    key.append(share.algo.as_str());
    key.append("-");
    key.append(share.mode.as_str());
    key.append("-");
    key.append(share.party_pass.as_str());
    proof {
        reveal_strlit("-");
    }
    assert(key@ =~= compress_key_text(*share));
    key
}

/// The times of a payout queue read from the back, negated, so that "newer
/// than the lookback" reads "below the negated lookback".
pub open spec fn back_times(q: Seq<ShareMinified>) -> Seq<int> {
    Seq::new(q.len(), |i: int| -(q[q.len() - 1 - i].time as int))
}

/// Shares popped once a share newer than the lookback has been popped (times
/// read from the back, negated): the next share goes unconditionally, and
/// popping goes on while the share just popped is newer than the lookback.
pub open spec fn popped_after(times: Seq<int>, start: int) -> nat
    decreases times.len(),
{
    if times.len() == 0 {
        0
    } else if times[0] >= start {
        1
    } else {
        1 + popped_after(times.drop_first(), start)
    }
}

/// How many shares compression takes off the back of a queue: none where
/// the back share is not newer than the lookback; otherwise every share
/// newer than it from the back, and the first share that is not.
pub open spec fn compress_count(q: Seq<ShareMinified>, lookback: int) -> nat {
    let t = back_times(q);
    if t.len() == 0 || t[0] >= -lookback {
        0
    } else {
        1 + popped_after(t.drop_first(), -lookback)
    }
}

/// Shares still to pop, given the time (negated) of the share examined last.
spec fn pending_pops(rest: Seq<int>, last: int, start: int) -> nat {
    if last >= start {
        0
    } else {
        popped_after(rest, start)
    }
}

/// Compression never takes more shares than there are.
proof fn lemma_popped_after_bound(times: Seq<int>, start: int)
    ensures
        popped_after(times, start) <= times.len(),
    decreases times.len(),
{
    if times.len() > 0 && times[0] < start {
        lemma_popped_after_bound(times.drop_first(), start);
    }
}

/// The shares compression takes, newest first: the last `c` of the queue,
/// in the order they are popped.
pub open spec fn popped_from_back(q: Seq<ShareMinified>, c: int) -> Seq<ShareMinified> {
    Seq::new(c as nat, |i: int| q[q.len() - 1 - i])
}

/// Takes off the back of a non-empty payout queue the shares that
/// compression merges: popping goes on while the share popped last (at the
/// start, the back share) is newer than `time_lookback`, so the first share
/// that is not newer is taken too. Returns them in the order popped.
pub fn take_recent_shares(shares: &mut VecDeque<ShareMinified>, time_lookback: i32) -> (taken: Vec<
    ShareMinified,
>)
    requires
        old(shares)@.len() > 0,
    ensures
        compress_count(old(shares)@, time_lookback as int) <= old(shares)@.len(),
        final(shares)@ == old(shares)@.take(
            old(shares)@.len() - compress_count(old(shares)@, time_lookback as int),
        ),
        taken@ == popped_from_back(
            old(shares)@,
            compress_count(old(shares)@, time_lookback as int) as int,
        ),
{
    let ghost q = old(shares)@;
    let ghost n = q.len() as int;
    let ghost t = back_times(q);
    let ghost start = -(time_lookback as int);
    let mut taken: Vec<ShareMinified> = Vec::new();
    let last = shares.len() - 1;
    let mut time: i32 = shares[last].time;
    let ghost mut k: int = 0;
    assert(t.skip(0) =~= t);
    assert(q.take(n) =~= q);
    assert(taken@ =~= popped_from_back(q, 0));
    assert(-(time as int) == t[0]);
    proof {
        lemma_popped_after_bound(t.drop_first(), start);
    }
    while time > time_lookback && shares.len() > 0
        invariant
            0 <= k <= n,
            n == q.len(),
            t == back_times(q),
            start == -(time_lookback as int),
            shares@ == q.take(n - k),
            taken@ == popped_from_back(q, k),
            compress_count(q, time_lookback as int) == k + pending_pops(t.skip(k), -(time as int), start),
        decreases shares@.len(),
    {
        let share = shares.pop_back().unwrap();
        proof {
            assert(share == q[n - 1 - k]);
            assert(-(share.time as int) == t[k]);
            assert(t.skip(k).drop_first() =~= t.skip(k + 1));
            assert(q.take(n - k).drop_last() =~= q.take(n - k - 1));
        }
        time = share.time;
        taken.push(share);
        proof {
            k = k + 1;
            assert(taken@ =~= popped_from_back(q, k));
        }
    }
    proof {
        if shares@.len() == 0 {
            assert(t.skip(k) =~= Seq::<int>::empty());
        }
    }
    taken
}

/// The compression keys of shares, in order.
pub open spec fn compress_keys(q: Seq<ShareMinified>) -> Seq<Seq<char>> {
    q.map_values(|s: ShareMinified| compress_key_text(s))
}

/// Compression of a non-empty payout queue, up to the summing of scores:
/// takes the recent shares off the back (as `take_recent_shares`) and groups
/// them by compression key, in order of first appearance. Each group
/// becomes one compressed share, with the fields of its first share and the
/// sum of its scores.
pub fn compress_shares_queue(shares: &mut VecDeque<ShareMinified>, time_lookback: i32) -> (r: (
    Vec<ShareMinified>,
    Vec<KeyGroup>,
))
    requires
        old(shares)@.len() > 0,
    ensures
        compress_count(old(shares)@, time_lookback as int) <= old(shares)@.len(),
        final(shares)@ == old(shares)@.take(
            old(shares)@.len() - compress_count(old(shares)@, time_lookback as int),
        ),
        r.0@ == popped_from_back(
            old(shares)@,
            compress_count(old(shares)@, time_lookback as int) as int,
        ),
        is_grouping(compress_keys(r.0@), groups_view(r.1@)),
{
    let taken = take_recent_shares(shares, time_lookback);
    let mut keys: Vec<String> = Vec::new();
    let n = taken.len();
    let mut i: usize = 0;
    while i < n
        invariant
            n == taken@.len(),
            i <= n,
            keys@.len() == i,
            forall|j: int| 0 <= j < i ==> #[trigger] keys@[j]@ == compress_key_text(taken@[j]),
        decreases n - i,
    {
        keys.push(compress_key(&taken[i]));
        i = i + 1;
    }
    assert(keys@.map_values(|s: String| s@) =~= compress_keys(taken@));
    let groups = group_positions(&keys);
    (taken, groups)
}

/// The share that stands for a merged group: the fields of the group's
/// first share, the summed score (as its bit pattern), marked compressed.
pub fn compressed_share(first: &ShareMinified, payout_bits: u32) -> (s: ShareMinified)
    ensures
        s.user_name@ == first.user_name@,
        s.coin_id == first.coin_id,
        s.algo@ == first.algo@,
        s.time == first.time,
        s.share_payout_bits == payout_bits,
        s.mode@ == first.mode@,
        s.party_pass@ == first.party_pass@,
        s.compressed,
{
    ShareMinified {
        user_name: first.user_name.clone(),
        coin_id: first.coin_id,
        algo: first.algo.clone(),
        time: first.time,
        share_payout_bits: payout_bits,
        mode: first.mode.clone(),
        party_pass: first.party_pass.clone(),
        compressed: true,
    }
}

/// Whether a share feeds the pool scores: solo shares do not.
pub fn is_scored(share: &ShareMinified) -> (r: bool)
    ensures
        r == (share.mode@ != "solo"@),
{
    !str_eq(share.mode.as_str(), "solo")
}

/// Adds a share at the back of the payout queue.
pub fn add_share_to_queue(shares: &mut VecDeque<ShareMinified>, share: ShareMinified)
    ensures
        final(shares)@ == old(shares)@.push(share),
{
    shares.push_back(share);
}

/// A share as the hashrate service queues it. The difficulty is a 64-bit
/// float, carried here by its bit pattern.
#[derive(Clone)]
pub struct ShareQueueMinifiedObj {
    pub user_name: String,
    pub timestamp: i64,
    pub algo: String,
    pub uuid: String,
    pub coin_id: i16,
    pub worker_name: String,
    pub difficulty_bits: u64,
}

/// The times of the shares in a hashrate queue.
pub open spec fn worker_share_times(q: Seq<ShareQueueMinifiedObj>) -> Seq<int> {
    q.map_values(|s: ShareQueueMinifiedObj| s.timestamp as int)
}

/// Trims a hashrate queue to the window starting at `window_start`.
pub fn trim_worker_queue(queue: &mut VecDeque<ShareQueueMinifiedObj>, window_start: i64)
    ensures
        final(queue)@ == old(queue)@.skip(
            trim_count(worker_share_times(old(queue)@), window_start as int) as int,
        ),
{
    let ghost t = worker_share_times(old(queue)@);
    let ghost mut k: int = 0;
    assert(old(queue)@.skip(0) =~= old(queue)@);
    assert(t.skip(0) =~= t);
    while queue.len() > 0 && queue[0].timestamp < window_start
        invariant
            0 <= k <= t.len(),
            t.len() == old(queue)@.len(),
            t == worker_share_times(old(queue)@),
            queue@ == old(queue)@.skip(k),
            trim_count(t, window_start as int) == k + trim_count(t.skip(k), window_start as int),
        decreases queue@.len(),
    {
        proof {
            assert(queue@[0] == old(queue)@[k]);
            lemma_trim_step(t, window_start as int, k);
            assert(old(queue)@.skip(k).drop_first() =~= old(queue)@.skip(k + 1));
        }
        let _ = queue.pop_front();
        proof {
            k = k + 1;
        }
    }
    proof {
        if queue@.len() == 0 {
            assert(t.skip(k) =~= Seq::<int>::empty());
        } else {
            assert(t.skip(k)[0] == t[k]);
        }
    }
}

} // verus!
