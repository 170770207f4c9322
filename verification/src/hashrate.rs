//! The hashrate service's share queues: one queue per coin and algorithm,
//! trimmed to a per-queue window, and tallied per worker.

use vstd::prelude::*;
use std::collections::VecDeque;
use vstd::string::StringExecFns;
use crate::grouping::{group_positions, groups_view, is_grouping};
use crate::keyed::{has_key, key_pos, lookup, upsert, KeyedList};
use crate::keys::{dash_join, keygen};
use crate::text::dec_text;
use crate::window::{trim_count, trim_worker_queue, worker_share_times, ShareQueueMinifiedObj};

verus! {

/// Window length used when a queue has no configuration, in seconds.
pub const DEFAULT_WINDOW_LENGTH: u64 = 300;

/// Difficulty target used when a queue has no configuration.
pub const DEFAULT_ALGO_TARGET: u64 = 1000;

/// Length, in seconds, of the window that worker hashrates are averaged over.
pub const HASHRATE_WINDOW_LENGTH: u64 = 300;

/// Per coin-and-algorithm settings of the hashrate service.
#[derive(Clone, Copy)]
pub struct ShareProcessorConfigObj {
    pub window_length: u32,
    pub algo_target: u32,
}

/// The window length configured for a queue key, or the default.
pub open spec fn configured_window(config: Seq<(Seq<char>, ShareProcessorConfigObj)>, key: Seq<char>) -> int {
    match lookup(config, key) {
        Some(c) => c.window_length as int,
        None => DEFAULT_WINDOW_LENGTH as int,
    }
}

/// The difficulty target configured for a queue key, or the default.
pub open spec fn configured_target(config: Seq<(Seq<char>, ShareProcessorConfigObj)>, key: Seq<char>) -> int {
    match lookup(config, key) {
        Some(c) => c.algo_target as int,
        None => DEFAULT_ALGO_TARGET as int,
    }
}

/// The settings the hashrate service starts with: Nimiq on argon2d and
/// Kadena on blake2s.
pub fn default_share_processor_config() -> (config: KeyedList<ShareProcessorConfigObj>)
    ensures
        config.wf(),
        config@ == seq![
            ("2408-argon2d"@, ShareProcessorConfigObj { window_length: 300, algo_target: 65536000 }),
            ("2423-blake2s"@, ShareProcessorConfigObj { window_length: 300, algo_target: 1000 }),
        ],
{
    let mut config = KeyedList::new();
    config.push_new(
        String::from_str("2408-argon2d"),
        ShareProcessorConfigObj { window_length: 300, algo_target: 65536000 },
    );
    proof {
        reveal_strlit("2408-argon2d");
        reveal_strlit("2423-blake2s");
        assert("2408-argon2d"@[3] != "2423-blake2s"@[3]);
        if has_key(config@, "2423-blake2s"@) {
            assert(config@[0].0 == "2408-argon2d"@);
        }
    }
    config.push_new(
        String::from_str("2423-blake2s"),
        ShareProcessorConfigObj { window_length: 300, algo_target: 1000 },
    );
    assert(config@ =~= seq![
        ("2408-argon2d"@, ShareProcessorConfigObj { window_length: 300, algo_target: 65536000 }),
        ("2423-blake2s"@, ShareProcessorConfigObj { window_length: 300, algo_target: 1000 }),
    ]);
    config
}

/// The window length of a queue, from the configuration or the default.
pub fn config_window_length(config: &KeyedList<ShareProcessorConfigObj>, key: &String) -> (w: u64)
    requires
        config.wf(),
    ensures
        w as int == configured_window(config@, key@),
{
    match config.index_of(key) {
        Some(i) => config.value_at(i).window_length as u64,
        None => DEFAULT_WINDOW_LENGTH,
    }
}

/// The difficulty target of a queue, from the configuration or the default.
pub fn config_algo_target(config: &KeyedList<ShareProcessorConfigObj>, key: &String) -> (t: u64)
    requires
        config.wf(),
    ensures
        t as int == configured_target(config@, key@),
{
    match config.index_of(key) {
        Some(i) => config.value_at(i).algo_target as u64,
        None => DEFAULT_ALGO_TARGET,
    }
}

/// The queue key of a share: "<coin>-<algo>".
pub open spec fn share_queue_key(s: ShareQueueMinifiedObj) -> Seq<char> {
    dash_join(dec_text(s.coin_id as int), s.algo@)
}

/// The queue stored under a key, empty where there is none.
pub open spec fn queue_or_empty(
    queues: Seq<(Seq<char>, VecDeque<ShareQueueMinifiedObj>)>,
    key: Seq<char>,
) -> Seq<ShareQueueMinifiedObj> {
    match lookup(queues, key) {
        Some(q) => q@,
        None => Seq::empty(),
    }
}

/// Adds a share at the back of the queue of its coin and algorithm, opening
/// that queue where it does not exist yet.
pub fn queue_share(queues: &mut KeyedList<VecDeque<ShareQueueMinifiedObj>>, share: ShareQueueMinifiedObj)
    requires
        old(queues).wf(),
    ensures
        final(queues).wf(),
        keyed_queue_views(final(queues)@) == upsert(
            keyed_queue_views(old(queues)@),
            share_queue_key(share),
            queue_or_empty(old(queues)@, share_queue_key(share)).push(share),
        ),
{
    let key = keygen(share.coin_id, &share.algo);
    match queues.index_of(&key) {
        Some(i) => {
            let mut q = queues.replace_at(i, VecDeque::new());
            q.push_back(share);
            let _ = queues.replace_at(i, q);
            proof {
                crate::keyed::lemma_key_pos_unique(old(queues)@, key@, i as int);
                assert(keyed_queue_views(queues@) =~= upsert(
                    keyed_queue_views(old(queues)@),
                    key@,
                    queue_or_empty(old(queues)@, key@).push(share),
                )) by {
                    lemma_views_key_pos(old(queues)@, key@, i as int);
                }
            }
        },
        None => {
            let mut q = VecDeque::new();
            q.push_back(share);
            queues.push_new(key, q);
            proof {
                lemma_views_no_key(old(queues)@, key@);
                assert(keyed_queue_views(queues@) =~= upsert(
                    keyed_queue_views(old(queues)@),
                    key@,
                    queue_or_empty(old(queues)@, key@).push(share),
                ));
            }
        },
    }
}

/// The queues with each queue taken by its contents.
pub open spec fn keyed_queue_views(
    queues: Seq<(Seq<char>, VecDeque<ShareQueueMinifiedObj>)>,
) -> Seq<(Seq<char>, Seq<ShareQueueMinifiedObj>)> {
    queues.map_values(|e: (Seq<char>, VecDeque<ShareQueueMinifiedObj>)| (e.0, e.1@))
}

proof fn lemma_views_key_pos(
    queues: Seq<(Seq<char>, VecDeque<ShareQueueMinifiedObj>)>,
    key: Seq<char>,
    i: int,
)
    requires
        crate::keyed::unique_keys(queues),
        0 <= i < queues.len(),
        queues[i].0 == key,
    ensures
        has_key(keyed_queue_views(queues), key),
        key_pos(keyed_queue_views(queues), key) == i,
{
    let v = keyed_queue_views(queues);
    assert(v[i].0 == key);
    assert(crate::keyed::unique_keys(v)) by {
        assert forall|a: int, b: int| 0 <= a < v.len() && 0 <= b < v.len() && a != b implies v[a].0 != v[b].0 by {
            assert(v[a].0 == queues[a].0);
            assert(v[b].0 == queues[b].0);
        }
    }
    crate::keyed::lemma_key_pos_unique(v, key, i);
}

proof fn lemma_views_no_key(queues: Seq<(Seq<char>, VecDeque<ShareQueueMinifiedObj>)>, key: Seq<char>)
    requires
        !has_key(queues, key),
    ensures
        !has_key(keyed_queue_views(queues), key),
{
    let v = keyed_queue_views(queues);
    if has_key(v, key) {
        let p = key_pos(v, key);
        assert(queues[p].0 == key);
    }
}

/// The window start of a queue: the current time less its window, taken in
/// `u64` and read as `i64`.
pub open spec fn queue_window_start(
    config: Seq<(Seq<char>, ShareProcessorConfigObj)>,
    key: Seq<char>,
    time_current: u64,
) -> int {
    ((time_current - configured_window(config, key)) as u64) as i64 as int
}

/// Every window the configuration can give is at most `time_current` long.
pub open spec fn windows_fit(config: Seq<(Seq<char>, ShareProcessorConfigObj)>, time_current: u64) -> bool {
    &&& DEFAULT_WINDOW_LENGTH <= time_current
    &&& forall|i: int| 0 <= i < config.len() ==> #[trigger] config[i].1.window_length <= time_current
}

/// Trims every queue to its own window ending at `time_current`.
pub fn trim_queues(
    queues: &mut KeyedList<VecDeque<ShareQueueMinifiedObj>>,
    config: &KeyedList<ShareProcessorConfigObj>,
    time_current: u64,
)
    requires
        old(queues).wf(),
        config.wf(),
        windows_fit(config@, time_current),
    ensures
        final(queues).wf(),
        final(queues)@.len() == old(queues)@.len(),
        forall|i: int| 0 <= i < old(queues)@.len() ==> #[trigger] final(queues)@[i].0 == old(queues)@[i].0,
        forall|i: int|
            0 <= i < old(queues)@.len() ==> #[trigger] final(queues)@[i].1@ == old(queues)@[i].1@.skip(
                trim_count(
                    worker_share_times(old(queues)@[i].1@),
                    queue_window_start(config@, old(queues)@[i].0, time_current),
                ) as int,
            ),
{
    let n = queues.len();
    let mut i: usize = 0;
    while i < n
        invariant
            n == old(queues)@.len(),
            queues@.len() == n,
            queues.wf(),
            config.wf(),
            windows_fit(config@, time_current),
            i <= n,
            forall|j: int| 0 <= j < n ==> #[trigger] queues@[j].0 == old(queues)@[j].0,
            forall|j: int| i <= j < n ==> #[trigger] queues@[j].1 == old(queues)@[j].1,
            forall|j: int|
                0 <= j < i ==> #[trigger] queues@[j].1@ == old(queues)@[j].1@.skip(
                    trim_count(
                        worker_share_times(old(queues)@[j].1@),
                        queue_window_start(config@, old(queues)@[j].0, time_current),
                    ) as int,
                ),
        decreases n - i,
    {
        let key = queues.key_at(i).clone();
        let window_length = config_window_length(config, &key);
        proof {
            match lookup(config@, key@) {
                Some(c) => {
                    let p = key_pos(config@, key@);
                    assert(config@[p].1.window_length <= time_current);
                },
                None => {},
            }
        }
        let window_start: i64 = #[verifier::truncate] ((time_current - window_length) as i64);
        let mut q = queues.replace_at(i, VecDeque::new());
        trim_worker_queue(&mut q, window_start);
        let _ = queues.replace_at(i, q);
        i = i + 1;
    }
}

/// A worker's share tally over one queue. The difficulty fields of the
/// service are 64-bit floats; they are summed over `share_indices`.
pub struct WorkerDictObj {
    pub uuid: String,
    pub start_time: i64,
    pub last_share_time: i64,
    pub count: i16,
    pub worker_name: String,
    pub user_name: String,
    pub algo: String,
    pub coin_id: i16,
    pub share_indices: Vec<usize>,
}

/// The tally of a worker, given the positions of its shares in the queue:
/// fields come from its first share, the last share time from its last share,
/// and the count is the number of shares it sent.
pub open spec fn is_tally(q: Seq<ShareQueueMinifiedObj>, positions: Seq<usize>, t: WorkerDictObj) -> bool {
    let first = q[positions[0] as int];
    &&& t.uuid@ == first.uuid@
    &&& t.share_indices@ == positions
    &&& t.count as int == positions.len()
    &&& t.start_time == first.timestamp
    &&& t.last_share_time == q[positions[positions.len() - 1] as int].timestamp
    &&& t.worker_name@ == first.worker_name@
    &&& t.user_name@ == first.user_name@
    &&& t.algo@ == first.algo@
    &&& t.coin_id == first.coin_id
}

/// The uuids of the shares of a queue.
pub open spec fn share_uuids(q: Seq<ShareQueueMinifiedObj>) -> Seq<Seq<char>> {
    q.map_values(|s: ShareQueueMinifiedObj| s.uuid@)
}

/// Tallies the shares of a queue per worker (by uuid), workers in order of
/// their first share.
pub fn tally_workers(queue: &VecDeque<ShareQueueMinifiedObj>) -> (tallies: Vec<WorkerDictObj>)
    requires
        queue@.len() <= 32767,
    ensures
        exists|groups: Seq<(Seq<char>, Seq<usize>)>|
            #![trigger is_grouping(share_uuids(queue@), groups)]
            is_grouping(share_uuids(queue@), groups) && groups.len() == tallies@.len() && forall|k: int|
                0 <= k < groups.len() ==> is_tally(queue@, groups[k].1, #[trigger] tallies@[k]),
        forall|k: int|
            0 <= k < tallies@.len() ==> #[trigger] tallies@[k].share_indices@.len() > 0
                && tallies@[k].share_indices@[0] < queue@.len()
                && tallies@[k].share_indices@[tallies@[k].share_indices@.len() - 1] < queue@.len(),
        forall|k: int|
            0 <= k < tallies@.len() ==> {
                let t = #[trigger] tallies@[k];
                let first = queue@[t.share_indices@[0] as int];
                let last = queue@[t.share_indices@[t.share_indices@.len() - 1] as int];
                &&& t.uuid@ == first.uuid@
                &&& t.user_name@ == first.user_name@
                &&& t.worker_name@ == first.worker_name@
                &&& t.algo@ == first.algo@
                &&& t.coin_id == first.coin_id
                &&& t.start_time == first.timestamp
                &&& t.last_share_time == last.timestamp
                &&& t.count as int == t.share_indices@.len()
            },
        forall|k: int, a: int|
            0 <= k < tallies@.len() && 0 <= a < tallies@[k].share_indices@.len() ==> #[trigger] queue@[
                tallies@[k].share_indices@[a] as int
            ].uuid@ == tallies@[k].uuid@,
{
    let ghost q = queue@;
    let n = queue.len();
    let mut uuids: Vec<String> = Vec::new();
    let mut i: usize = 0;
    while i < n
        invariant
            n == q.len(),
            q == queue@,
            i <= n,
            uuids@.len() == i,
            forall|j: int| 0 <= j < i ==> #[trigger] uuids@[j]@ == q[j].uuid@,
        decreases n - i,
    {
        uuids.push(queue[i].uuid.clone());
        i = i + 1;
    }
    assert(uuids@.map_values(|s: String| s@) =~= share_uuids(q));
    let groups = group_positions(&uuids);
    let ghost gv = groups_view(groups@);
    let mut tallies: Vec<WorkerDictObj> = Vec::new();
    let m = groups.len();
    let mut k: usize = 0;
    while k < m
        invariant
            m == groups@.len(),
            gv == groups_view(groups@),
            is_grouping(share_uuids(q), gv),
            q == queue@,
            n == q.len(),
            n <= 32767,
            k <= m,
            tallies@.len() == k,
            forall|l: int| 0 <= l < k ==> is_tally(q, gv[l].1, #[trigger] tallies@[l]),
        decreases m - k,
    {
        let g = &groups[k];
        assert(gv[k as int].1 == g.positions@);
        assert(g.positions@.len() > 0);
        let first = g.positions[0];
        let last = g.positions[g.positions.len() - 1];
        assert(first < n && last < n);
        let s = &queue[first];
        let positions = g.positions.clone();
        proof {
            assert(positions@.len() <= n) by {
                lemma_increasing_len_bound(positions@, n as int);
            }
        }
        let count: i16 = positions.len() as i16;
        let t = WorkerDictObj {
            uuid: s.uuid.clone(),
            start_time: s.timestamp,
            last_share_time: queue[last].timestamp,
            count,
            worker_name: s.worker_name.clone(),
            user_name: s.user_name.clone(),
            algo: s.algo.clone(),
            coin_id: s.coin_id,
            share_indices: positions,
        };
        tallies.push(t);
        k = k + 1;
    }
    proof {
        assert forall|k: int, a: int|
            0 <= k < tallies@.len() && 0 <= a < tallies@[k].share_indices@.len() implies #[trigger] q[
                tallies@[k].share_indices@[a] as int
            ].uuid@ == tallies@[k].uuid@ by {
            let p = gv[k].1;
            assert(tallies@[k].share_indices@ == p);
            assert(p.contains(p[a]));
            assert(p.contains(p[0]));
            assert(share_uuids(q)[p[a] as int] == gv[k].0);
            assert(share_uuids(q)[p[0] as int] == gv[k].0);
        }
        assert forall|k: int| 0 <= k < tallies@.len() implies #[trigger] tallies@[k].share_indices@.len() > 0
            && tallies@[k].share_indices@[0] < q.len()
            && tallies@[k].share_indices@[tallies@[k].share_indices@.len() - 1] < q.len() by {
            let p = gv[k].1;
            assert(tallies@[k].share_indices@ == p);
            assert(p[0] < q.len());
            assert(p[p.len() - 1] < q.len());
        }
        assert forall|k: int| 0 <= k < tallies@.len() implies (#[trigger] tallies@[k]).count as int
            == tallies@[k].share_indices@.len() by {
            assert(is_tally(q, gv[k].1, tallies@[k]));
        }
    }
    tallies
}

/// What a tally holds, read off the shares it counts: the uuid, user name,
/// worker name, algorithm and coin of its first share, the times of its
/// first and last shares, and as its count the number of its shares.
pub proof fn law_tally_fields(q: Seq<ShareQueueMinifiedObj>, positions: Seq<usize>, t: WorkerDictObj)
    requires
        is_tally(q, positions, t),
    ensures
        t.share_indices@ == positions,
        t.uuid@ == q[positions[0] as int].uuid@,
        t.user_name@ == q[positions[0] as int].user_name@,
        t.worker_name@ == q[positions[0] as int].worker_name@,
        t.algo@ == q[positions[0] as int].algo@,
        t.coin_id == q[positions[0] as int].coin_id,
        t.start_time == q[positions[0] as int].timestamp,
        t.last_share_time == q[positions[positions.len() - 1] as int].timestamp,
        t.count as int == positions.len(),
{
}

/// A strictly increasing sequence below `n` has at most `n` elements.
proof fn lemma_increasing_len_bound(s: Seq<usize>, n: int)
    requires
        forall|a: int, b: int| 0 <= a < b < s.len() ==> s[a] < s[b],
        forall|a: int| 0 <= a < s.len() ==> s[a] < n,
        n >= 0,
    ensures
        s.len() <= n,
    decreases s.len(),
{
    if s.len() > 0 {
        let d = s.drop_last();
        assert forall|a: int| 0 <= a < d.len() implies d[a] < s[s.len() - 1] by {
            assert(d[a] == s[a]);
        }
        assert forall|a: int, b: int| 0 <= a < b < d.len() implies d[a] < d[b] by {
            assert(d[a] == s[a] && d[b] == s[b]);
        }
        lemma_increasing_len_bound(d, s[s.len() - 1] as int);
        assert(d.len() <= s[s.len() - 1]);
        assert(s[s.len() - 1] < n);
        assert(s.len() == d.len() + 1);
    }
}

} // verus!
