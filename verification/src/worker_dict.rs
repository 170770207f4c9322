//! The per-worker windows of the hashrate service: each share opens or
//! extends the window of its worker, keyed "<coin>-<ALGO>-<user>-<worker>".

use vstd::prelude::*;
use std::collections::VecDeque;
use vstd::string::StringExecFns;
use crate::enums::Algos;
use crate::keyed::{has_key, key_pos, lookup, unique_keys, upsert, KeyedList};
use crate::keys::{generate_key, worker_key};

verus! {

/// A share as the hashrate service keeps it. The difficulty is a 64-bit
/// float, carried here by its bit pattern.
pub struct HashrateShare {
    pub user_id: i32,
    pub timestamp: i64,
    pub algo: Algos,
    pub worker_id: i32,
    pub coin_id: i16,
    pub worker_name: String,
    pub difficulty_bits: u64,
}

/// The window of one worker: the times of its first and latest share, the
/// number of its shares, and their positions in the queue (whose
/// difficulties the service sums).
pub struct WorkerWindow {
    pub start_time: i64,
    pub end_time: i64,
    pub count: i16,
    pub worker_name: String,
    pub user_id: i32,
    pub algo: Algos,
    pub coin_id: i16,
    pub added: Vec<usize>,
}

/// A worker window with its strings and lists taken by their contents.
pub struct WindowView {
    pub start_time: i64,
    pub end_time: i64,
    pub count: i16,
    pub worker_name: Seq<char>,
    pub user_id: i32,
    pub algo: Algos,
    pub coin_id: i16,
    pub added: Seq<usize>,
}

/// The contents of a worker window.
pub open spec fn window_view(w: WorkerWindow) -> WindowView {
    WindowView {
        start_time: w.start_time,
        end_time: w.end_time,
        count: w.count,
        worker_name: w.worker_name@,
        user_id: w.user_id,
        algo: w.algo,
        coin_id: w.coin_id,
        added: w.added@,
    }
}

/// The windows of a dictionary, each taken by its contents.
pub open spec fn window_views(d: Seq<(Seq<char>, WorkerWindow)>) -> Seq<(Seq<char>, WindowView)> {
    d.map_values(|e: (Seq<char>, WorkerWindow)| (e.0, window_view(e.1)))
}

/// The dictionary key of a share's worker.
pub open spec fn share_worker_key(s: HashrateShare) -> Seq<char> {
    worker_key(s.coin_id as int, s.algo, s.user_id as int, s.worker_name@)
}

/// The window a worker's first share (at position `i`) opens: it starts
/// and ends at the share, and counts that one share.
pub open spec fn opened_window(s: HashrateShare, i: usize) -> WindowView {
    WindowView {
        start_time: s.timestamp,
        end_time: s.timestamp,
        count: 1,
        worker_name: s.worker_name@,
        user_id: s.user_id,
        algo: s.algo,
        coin_id: s.coin_id,
        added: seq![i],
    }
}

/// The window after a later share (at position `i`) of its worker: it ends
/// at the share and counts it too.
pub open spec fn extended_window(w: WindowView, s: HashrateShare, i: usize) -> WindowView {
    WindowView { end_time: s.timestamp, count: (w.count + 1) as i16, added: w.added.push(i), ..w }
}

/// The worker windows built from the shares of a queue, in order.
pub open spec fn windows_of(q: Seq<HashrateShare>) -> Seq<(Seq<char>, WindowView)>
    decreases q.len(),
{
    if q.len() == 0 {
        Seq::empty()
    } else {
        let d = windows_of(q.drop_last());
        let s = q.last();
        let k = share_worker_key(s);
        match lookup(d, k) {
            Some(w) => upsert(d, k, extended_window(w, s, (q.len() - 1) as usize)),
            None => upsert(d, k, opened_window(s, (q.len() - 1) as usize)),
        }
    }
}

/// Every worker window counts exactly the shares it holds, no more than
/// there are shares, and no worker has two windows.
pub proof fn law_window_counts(q: Seq<HashrateShare>)
    requires
        q.len() <= 32767,
    ensures
        unique_keys(windows_of(q)),
        forall|j: int|
            0 <= j < windows_of(q).len() ==> #[trigger] windows_of(q)[j].1.count as int
                == windows_of(q)[j].1.added.len() && windows_of(q)[j].1.count <= q.len(),
    decreases q.len(),
{
    if q.len() > 0 {
        let d = windows_of(q.drop_last());
        law_window_counts(q.drop_last());
        let s = q.last();
        let k = share_worker_key(s);
        let r = windows_of(q);
        match lookup(d, k) {
            Some(w) => {
                let p = key_pos(d, k);
                crate::keyed::lemma_upsert(d, k, extended_window(w, s, (q.len() - 1) as usize));
                assert(r == d.update(p, (k, extended_window(w, s, (q.len() - 1) as usize))));
                assert forall|j: int| 0 <= j < r.len() implies #[trigger] r[j].1.count as int
                    == r[j].1.added.len() && r[j].1.count <= q.len() by {
                    if j != p {
                        assert(r[j] == d[j]);
                    } else {
                        assert(w == d[p].1);
                    }
                }
            },
            None => {
                crate::keyed::lemma_upsert(d, k, opened_window(s, (q.len() - 1) as usize));
                assert(r == d.push((k, opened_window(s, (q.len() - 1) as usize))));
                assert forall|j: int| 0 <= j < r.len() implies #[trigger] r[j].1.count as int
                    == r[j].1.added.len() && r[j].1.count <= q.len() by {
                    if j < d.len() {
                        assert(r[j] == d[j]);
                    }
                }
            },
        }
    }
}

/// What every worker window holds, read off the shares of the queue: the
/// positions of the shares it counts, all in the queue and all keyed to the
/// window's key; the user, coin, algorithm and worker name of its first
/// share; the time of its first share as its start and of its last as its
/// end.
pub proof fn law_window_fields(q: Seq<HashrateShare>)
    requires
        q.len() <= usize::MAX,
    ensures
        forall|j: int|
            0 <= j < windows_of(q).len() ==> {
                let e = #[trigger] windows_of(q)[j];
                let w = e.1;
                &&& w.added.len() > 0
                &&& forall|a: int|
                    0 <= a < w.added.len() ==> w.added[a] < q.len() && share_worker_key(
                        q[w.added[a] as int],
                    ) == e.0
                &&& w.user_id == q[w.added[0] as int].user_id
                &&& w.coin_id == q[w.added[0] as int].coin_id
                &&& w.algo == q[w.added[0] as int].algo
                &&& w.worker_name == q[w.added[0] as int].worker_name@
                &&& w.start_time == q[w.added[0] as int].timestamp
                &&& w.end_time == q[w.added[w.added.len() - 1] as int].timestamp
            },
    decreases q.len(),
{
    if q.len() > 0 {
        let q0 = q.drop_last();
        let d = windows_of(q0);
        law_window_fields(q0);
        let s = q.last();
        let n = q.len() as int;
        let k = share_worker_key(s);
        let r = windows_of(q);
        assert forall|x: int| 0 <= x < n - 1 implies q0[x] == q[x] by {}
        if has_key(d, k) {
            let p = key_pos(d, k);
            let w = d[p].1;
            assert(d[p].0 == k);
            assert(lookup(d, k) == Some(w));
            assert(r == d.update(p, (k, extended_window(w, s, (n - 1) as usize))));
            assert forall|j: int| 0 <= j < r.len() implies {
                let e = #[trigger] r[j];
                let v = e.1;
                &&& v.added.len() > 0
                &&& forall|a: int|
                    0 <= a < v.added.len() ==> v.added[a] < q.len() && share_worker_key(
                        q[v.added[a] as int],
                    ) == e.0
                &&& v.user_id == q[v.added[0] as int].user_id
                &&& v.coin_id == q[v.added[0] as int].coin_id
                &&& v.algo == q[v.added[0] as int].algo
                &&& v.worker_name == q[v.added[0] as int].worker_name@
                &&& v.start_time == q[v.added[0] as int].timestamp
                &&& v.end_time == q[v.added[v.added.len() - 1] as int].timestamp
            } by {
                let old_e = d[j];
                assert(old_e.1.added.len() > 0);
                assert(old_e.1.added[0] < q0.len());
                if j == p {
                    let v = r[j].1;
                    assert(v.added == w.added.push((n - 1) as usize));
                    assert(v.added[0] == w.added[0]);
                    assert forall|a: int| 0 <= a < v.added.len() implies v.added[a] < q.len()
                        && share_worker_key(q[v.added[a] as int]) == r[j].0 by {
                        if a < w.added.len() {
                            assert(v.added[a] == w.added[a]);
                            assert(w.added[a] < q0.len());
                            assert(q0[w.added[a] as int] == q[w.added[a] as int]);
                        } else {
                            assert(v.added[a] == (n - 1) as usize);
                            assert(q[n - 1] == s);
                        }
                    }
                    assert(q0[w.added[0] as int] == q[w.added[0] as int]);
                } else {
                    assert(r[j] == d[j]);
                    assert forall|a: int| 0 <= a < old_e.1.added.len() implies old_e.1.added[a] < q.len()
                        && share_worker_key(q[old_e.1.added[a] as int]) == old_e.0 by {
                        assert(old_e.1.added[a] < q0.len());
                        assert(q0[old_e.1.added[a] as int] == q[old_e.1.added[a] as int]);
                    }
                    assert(q0[old_e.1.added[0] as int] == q[old_e.1.added[0] as int]);
                    let l = old_e.1.added[old_e.1.added.len() - 1];
                    assert(l < q0.len());
                    assert(q0[l as int] == q[l as int]);
                }
            }
        } else {
            assert(lookup(d, k) is None);
            assert(r == d.push((k, opened_window(s, (n - 1) as usize))));
            assert forall|j: int| 0 <= j < r.len() implies {
                let e = #[trigger] r[j];
                let v = e.1;
                &&& v.added.len() > 0
                &&& forall|a: int|
                    0 <= a < v.added.len() ==> v.added[a] < q.len() && share_worker_key(
                        q[v.added[a] as int],
                    ) == e.0
                &&& v.user_id == q[v.added[0] as int].user_id
                &&& v.coin_id == q[v.added[0] as int].coin_id
                &&& v.algo == q[v.added[0] as int].algo
                &&& v.worker_name == q[v.added[0] as int].worker_name@
                &&& v.start_time == q[v.added[0] as int].timestamp
                &&& v.end_time == q[v.added[v.added.len() - 1] as int].timestamp
            } by {
                if j < d.len() {
                    let old_e = d[j];
                    assert(r[j] == d[j]);
                    assert forall|a: int| 0 <= a < old_e.1.added.len() implies old_e.1.added[a] < q.len()
                        && share_worker_key(q[old_e.1.added[a] as int]) == old_e.0 by {
                        assert(old_e.1.added[a] < q0.len());
                        assert(q0[old_e.1.added[a] as int] == q[old_e.1.added[a] as int]);
                    }
                    assert(old_e.1.added[0] < q0.len());
                    assert(q0[old_e.1.added[0] as int] == q[old_e.1.added[0] as int]);
                    let l = old_e.1.added[old_e.1.added.len() - 1];
                    assert(l < q0.len());
                    assert(q0[l as int] == q[l as int]);
                } else {
                    assert(j == d.len());
                    assert(r[j] == (k, opened_window(s, (n - 1) as usize)));
                    assert(r[j].1.added == seq![(n - 1) as usize]);
                    assert(r[j].1.added[0] == (n - 1) as usize);
                    assert(q[n - 1] == s);
                }
            }
        }
    }
}

proof fn lemma_views_key_pos(d: Seq<(Seq<char>, WorkerWindow)>, key: Seq<char>, i: int)
    requires
        unique_keys(d),
        0 <= i < d.len(),
        d[i].0 == key,
    ensures
        unique_keys(window_views(d)),
        has_key(window_views(d), key),
        key_pos(window_views(d), key) == i,
        lookup(window_views(d), key) == Some(window_view(d[i].1)),
{
    let v = window_views(d);
    assert(v[i].0 == key);
    assert(unique_keys(v)) by {
        assert forall|a: int, b: int| 0 <= a < v.len() && 0 <= b < v.len() && a != b implies v[a].0 != v[b].0 by {
            assert(v[a].0 == d[a].0);
            assert(v[b].0 == d[b].0);
        }
    }
    crate::keyed::lemma_key_pos_unique(v, key, i);
}

proof fn lemma_views_no_key(d: Seq<(Seq<char>, WorkerWindow)>, key: Seq<char>)
    requires
        !has_key(d, key),
    ensures
        !has_key(window_views(d), key),
        lookup(window_views(d), key) is None,
{
    let v = window_views(d);
    if has_key(v, key) {
        let p = key_pos(v, key);
        assert(d[p].0 == key);
    }
}

/// A window to hold a slot while its entry is updated: all times, counts
/// and ids zero, no worker name, the `DEFAULT` algorithm, no shares added.
fn placeholder_window() -> (w: WorkerWindow)
    ensures
        window_view(w) == (WindowView {
            start_time: 0,
            end_time: 0,
            count: 0,
            worker_name: Seq::empty(),
            user_id: 0,
            algo: Algos::DEFAULT,
            coin_id: 0,
            added: Seq::empty(),
        }),
{
    WorkerWindow {
        start_time: 0,
        end_time: 0,
        count: 0,
        worker_name: String::new(),
        user_id: 0,
        algo: Algos::DEFAULT,
        coin_id: 0,
        added: Vec::new(),
    }
}

/// Builds the window of every worker from a queue of shares, workers in
/// order of their first share.
pub fn worker_windows(queue: &VecDeque<HashrateShare>) -> (dict: KeyedList<WorkerWindow>)
    requires
        queue@.len() <= 32767,
    ensures
        dict.wf(),
        window_views(dict@) == windows_of(queue@),
        forall|j: int|
            0 <= j < dict@.len() ==> {
                let w = #[trigger] dict@[j].1;
                let first = queue@[w.added@[0] as int];
                &&& w.added@.len() > 0
                &&& forall|a: int| 0 <= a < w.added@.len() ==> w.added@[a] < queue@.len()
                &&& w.user_id == first.user_id
                &&& w.coin_id == first.coin_id
                &&& w.algo == first.algo
                &&& w.worker_name@ == first.worker_name@
                &&& w.start_time == first.timestamp
                &&& w.end_time == queue@[w.added@[w.added@.len() - 1] as int].timestamp
                &&& w.count as int == w.added@.len()
            },
{
    let ghost q = queue@;
    let n = queue.len();
    let mut dict: KeyedList<WorkerWindow> = KeyedList::new();
    let mut i: usize = 0;
    assert(window_views(dict@) =~= windows_of(q.take(0)));
    while i < n
        invariant
            n == q.len(),
            q == queue@,
            n <= 32767,
            i <= n,
            dict.wf(),
            window_views(dict@) == windows_of(q.take(i as int)),
            forall|j: int| 0 <= j < dict@.len() ==> #[trigger] dict@[j].1.count <= i,
        decreases n - i,
    {
        let s = &queue[i];
        let key = generate_key(s.coin_id, s.algo, s.user_id, &s.worker_name);
        let ghost before = dict@;
        proof {
            assert(q.take(i + 1).drop_last() =~= q.take(i as int));
            assert(q.take(i + 1).last() == q[i as int]);
        }
        match dict.index_of(&key) {
            Some(p) => {
                let mut w = dict.replace_at(p, placeholder_window());
                w.end_time = s.timestamp;
                w.count = w.count + 1;
                w.added.push(i);
                let _ = dict.replace_at(p, w);
                proof {
                    crate::keyed::lemma_key_pos_unique(before, key@, p as int);
                    lemma_views_key_pos(before, key@, p as int);
                    assert(window_views(dict@) =~= upsert(
                        window_views(before),
                        key@,
                        extended_window(window_view(before[p as int].1), q[i as int], i),
                    ));
                    assert forall|j: int| 0 <= j < dict@.len() implies #[trigger] dict@[j].1.count <= i + 1 by {
                        if j != p {
                            assert(dict@[j] == before[j]);
                        }
                    }
                }
            },
            None => {
                let mut added: Vec<usize> = Vec::new();
                added.push(i);
                let w = WorkerWindow {
                    start_time: s.timestamp,
                    end_time: s.timestamp,
                    count: 1,
                    worker_name: s.worker_name.clone(),
                    user_id: s.user_id,
                    algo: s.algo,
                    coin_id: s.coin_id,
                    added,
                };
                dict.push_new(key, w);
                proof {
                    lemma_views_no_key(before, key@);
                    assert(window_views(dict@) =~= upsert(window_views(before), key@, opened_window(q[i as int], i)));
                    assert forall|j: int| 0 <= j < dict@.len() implies #[trigger] dict@[j].1.count <= i + 1 by {
                        if j < before.len() {
                            assert(dict@[j] == before[j]);
                        }
                    }
                }
            },
        }
        i = i + 1;
    }
    assert(q.take(n as int) =~= q);
    proof {
        law_window_fields(q);
        law_window_counts(q);
        assert forall|j: int| 0 <= j < dict@.len() implies {
            let w = #[trigger] dict@[j].1;
            let first = q[w.added@[0] as int];
            &&& w.added@.len() > 0
            &&& forall|a: int| 0 <= a < w.added@.len() ==> w.added@[a] < q.len()
            &&& w.user_id == first.user_id
            &&& w.coin_id == first.coin_id
            &&& w.algo == first.algo
            &&& w.worker_name@ == first.worker_name@
            &&& w.start_time == first.timestamp
            &&& w.end_time == q[w.added@[w.added@.len() - 1] as int].timestamp
            &&& w.count as int == w.added@.len()
        } by {
            let e = windows_of(q)[j];
            assert(window_views(dict@)[j] == e);
            assert(window_views(dict@)[j].1 == window_view(dict@[j].1));
            let w = dict@[j].1;
            assert(e.1.added == w.added@);
            assert(e.1.added.len() > 0);
            assert(e.1.count as int == e.1.added.len());
            assert forall|a: int| 0 <= a < w.added@.len() implies w.added@[a] < q.len() by {
                assert(e.1.added[a] < q.len());
            }
        }
    }
    dict
}

} // verus!
