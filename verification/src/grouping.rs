//! Grouping the positions of a sequence by key, in order of first
//! appearance: the per-worker tallies of the hashrate services rest on it.

use vstd::prelude::*;

verus! {

/// The positions of a sequence that carry one key, in increasing order.
pub struct KeyGroup {
    pub key: String,
    pub positions: Vec<usize>,
}

/// A group as a key and its positions.
pub open spec fn group_view(g: KeyGroup) -> (Seq<char>, Seq<usize>) {
    (g.key@, g.positions@)
}

/// The groups as keys and positions.
pub open spec fn groups_view(gs: Seq<KeyGroup>) -> Seq<(Seq<char>, Seq<usize>)> {
    gs.map_values(|g: KeyGroup| group_view(g))
}

/// Some group carries the key.
pub open spec fn has_group(groups: Seq<(Seq<char>, Seq<usize>)>, key: Seq<char>) -> bool {
    exists|k: int| 0 <= k < groups.len() && #[trigger] groups[k].0 == key
}

/// `groups` groups the positions of `keys` by key: one group per distinct key,
/// holding exactly the positions that carry it, in increasing order, and the
/// groups ordered by the first position of their key.
pub open spec fn is_grouping(keys: Seq<Seq<char>>, groups: Seq<(Seq<char>, Seq<usize>)>) -> bool {
    &&& forall|k: int| 0 <= k < groups.len() ==> #[trigger] groups[k].1.len() > 0
    &&& forall|k: int, a: int, b: int|
        0 <= k < groups.len() && 0 <= a < b < groups[k].1.len() ==> #[trigger] groups[k].1[a]
            < #[trigger] groups[k].1[b]
    &&& forall|k: int, a: int|
        0 <= k < groups.len() && 0 <= a < groups[k].1.len() ==> #[trigger] groups[k].1[a]
            < keys.len()
    &&& forall|k: int, j: int|
        0 <= k < groups.len() && 0 <= j < keys.len() ==> (#[trigger] keys[j] == #[trigger] groups[k].0
            <==> groups[k].1.contains(j as usize))
    &&& forall|j: int| 0 <= j < keys.len() ==> has_group(groups, #[trigger] keys[j])
    &&& forall|k: int, l: int|
        0 <= k < l < groups.len() ==> #[trigger] groups[k].1[0] < #[trigger] groups[l].1[0]
    &&& forall|k: int, l: int|
        0 <= k < groups.len() && 0 <= l < groups.len() && k != l ==> #[trigger] groups[k].0
            != #[trigger] groups[l].0
}

/// Groups the positions of `keys` by key, in order of first appearance.
pub fn group_positions(keys: &Vec<String>) -> (groups: Vec<KeyGroup>)
    ensures
        is_grouping(keys@.map_values(|s: String| s@), groups_view(groups@)),
{
    let ghost ks = keys@.map_values(|s: String| s@);
    let mut groups: Vec<KeyGroup> = Vec::new();
    let n = keys.len();
    let mut i: usize = 0;
    while i < n
        invariant
            n == keys@.len(),
            ks == keys@.map_values(|s: String| s@),
            i <= n,
            is_grouping(ks.take(i as int), groups_view(groups@)),
        decreases n - i,
    {
        let ghost before = groups_view(groups@);
        let ghost pre = ks.take(i as int);
        let ghost post = ks.take(i + 1);
        assert(post =~= pre.push(ks[i as int]));
        let mut found: Option<usize> = None;
        let mut p: usize = 0;
        while p < groups.len() && found.is_none()
            invariant
                p <= groups@.len(),
                before == groups_view(groups@),
                i < n,
                n == keys@.len(),
                ks == keys@.map_values(|s: String| s@),
                found matches Some(q) ==> q < groups@.len() && before[q as int].0 == ks[i as int],
                found is None ==> forall|k: int| 0 <= k < p ==> before[k].0 != ks[i as int],
            decreases groups@.len() - p + (if found is None { 1int } else { 0int }),
        {
            if groups[p].key == keys[i] {
                found = Some(p);
            } else {
                p = p + 1;
            }
        }
        match found {
            Some(p) => {
                assert(before[p as int].0 == ks[i as int]);
                let mut g = groups.remove(p);
                g.positions.push(i);
                groups.insert(p, g);
                let ghost after = groups_view(groups@);
                assert(after =~= before.update(p as int, (before[p as int].0, before[p as int].1.push(i))));
                assert(is_grouping(post, after)) by {
                    assert forall|k: int, j: int|
                        0 <= k < after.len() && 0 <= j < post.len() implies (#[trigger] post[j]
                        == #[trigger] after[k].0 <==> after[k].1.contains(j as usize)) by {
                        if k != p {
                            assert(after[k] == before[k]);
                        }
                        if j < i {
                            assert(post[j] == pre[j]);
                            if k == p {
                                if after[k].1.contains(j as usize) {
                                    let a = choose|a: int| 0 <= a < after[k].1.len() && after[k].1[a] == j as usize;
                                    if a < before[k].1.len() {
                                        assert(before[k].1[a] == j as usize);
                                    }
                                }
                                if before[k].1.contains(j as usize) {
                                    let a = choose|a: int| 0 <= a < before[k].1.len() && before[k].1[a] == j as usize;
                                    assert(after[k].1[a] == j as usize);
                                }
                            }
                        } else {
                            assert(j == i);
                            if k == p {
                                assert(after[k].1[before[k].1.len() as int] == i);
                            } else {
                                assert(post[j] == before[p as int].0);
                                assert(before[k].0 != before[p as int].0);
                                if after[k].1.contains(j as usize) {
                                    let a = choose|a: int| 0 <= a < after[k].1.len() && after[k].1[a] == j as usize;
                                    assert(before[k].1[a] < pre.len());
                                }
                            }
                        }
                    }
                    assert forall|k: int| 0 <= k < after.len() implies #[trigger] after[k].1.len() > 0 by {
                        if k != p {
                            assert(after[k] == before[k]);
                        }
                    }
                    assert forall|j: int| 0 <= j < post.len() implies has_group(after, #[trigger] post[j]) by {
                        if j < i {
                            assert(post[j] == pre[j]);
                            assert(has_group(before, pre[j]));
                            let k = choose|k: int| 0 <= k < before.len() && #[trigger] before[k].0 == pre[j];
                            assert(after[k].0 == before[k].0);
                        } else {
                            assert(after[p as int].0 == post[j]);
                        }
                    }
                    assert forall|k: int, a: int, b: int|
                        0 <= k < after.len() && 0 <= a < b < after[k].1.len() implies #[trigger] after[k].1[a]
                        < #[trigger] after[k].1[b] by {
                        if k != p {
                            assert(after[k] == before[k]);
                        }
                        if k == p && b == before[k].1.len() {
                            assert(before[k].1[a] < pre.len());
                        }
                    }
                    assert forall|k: int, l: int| 0 <= k < l < after.len() implies #[trigger] after[k].1[0]
                        < #[trigger] after[l].1[0] by {
                        assert(after[k].1[0] == before[k].1[0]);
                        assert(after[l].1[0] == before[l].1[0]);
                    }
                    assert forall|k: int, a: int|
                        0 <= k < after.len() && 0 <= a < after[k].1.len() implies #[trigger] after[k].1[a]
                        < post.len() by {
                        if k == p && a == before[k].1.len() {
                        } else {
                            assert(after[k].1[a] == before[k].1[a]);
                        }
                    }
                    assert forall|k: int, l: int|
                        0 <= k < after.len() && 0 <= l < after.len() && k != l implies #[trigger] after[k].0
                        != #[trigger] after[l].0 by {
                        assert(after[k].0 == before[k].0);
                        assert(after[l].0 == before[l].0);
                    }
                }
            },
            None => {
                let mut ps: Vec<usize> = Vec::new();
                ps.push(i);
                let g = KeyGroup { key: keys[i].clone(), positions: ps };
                groups.push(g);
                let ghost after = groups_view(groups@);
                assert(after =~= before.push((ks[i as int], seq![i])));
                assert(is_grouping(post, after)) by {
                    let last = before.len() as int;
                    assert forall|k: int, j: int|
                        0 <= k < after.len() && 0 <= j < post.len() implies (#[trigger] post[j]
                        == #[trigger] after[k].0 <==> after[k].1.contains(j as usize)) by {
                        if k < last {
                            assert(after[k] == before[k]);
                        }
                        if j < i {
                            assert(post[j] == pre[j]);
                            if k == last {
                                assert(has_group(before, pre[j]));
                                let kk = choose|kk: int| 0 <= kk < before.len() && #[trigger] before[kk].0 == pre[j];
                                if post[j] == after[k].0 {
                                    assert(before[kk].0 == ks[i as int]);
                                }
                                if after[k].1.contains(j as usize) {
                                    assert(after[k].1[0] == i);
                                }
                            } else {
                                assert(post[j] == pre[j]);
                            }
                        } else {
                            assert(post[j] == ks[i as int]);
                            if k < last {
                                assert(before[k].0 != ks[i as int]);
                                if after[k].1.contains(j as usize) {
                                    let a = choose|a: int| 0 <= a < after[k].1.len() && after[k].1[a] == j as usize;
                                    assert(before[k].1[a] < pre.len());
                                }
                            } else {
                                assert(after[k].1[0] == i);
                            }
                        }
                    }
                    assert forall|j: int| 0 <= j < post.len() implies has_group(after, #[trigger] post[j]) by {
                        if j < i {
                            assert(post[j] == pre[j]);
                            assert(has_group(before, pre[j]));
                            let k = choose|k: int| 0 <= k < before.len() && #[trigger] before[k].0 == pre[j];
                            assert(after[k].0 == before[k].0);
                        } else {
                            assert(after[last].0 == post[j]);
                        }
                    }
                    assert forall|k: int, l: int| 0 <= k < l < after.len() implies #[trigger] after[k].1[0]
                        < #[trigger] after[l].1[0] by {
                        if l == last {
                            assert(before[k].1[0] < pre.len());
                        }
                    }
                    assert forall|k: int| 0 <= k < after.len() implies #[trigger] after[k].1.len() > 0 by {
                        if k < last {
                            assert(after[k] == before[k]);
                        }
                    }
                    assert forall|k: int, a: int, b: int|
                        0 <= k < after.len() && 0 <= a < b < after[k].1.len() implies #[trigger] after[k].1[a]
                        < #[trigger] after[k].1[b] by {
                        if k < last {
                            assert(after[k] == before[k]);
                        }
                    }
                    assert forall|k: int, a: int|
                        0 <= k < after.len() && 0 <= a < after[k].1.len() implies #[trigger] after[k].1[a]
                        < post.len() by {
                        if k < last {
                            assert(after[k] == before[k]);
                        }
                    }
                    assert forall|k: int, l: int|
                        0 <= k < after.len() && 0 <= l < after.len() && k != l implies #[trigger] after[k].0
                        != #[trigger] after[l].0 by {
                        if k < last && l < last {
                            assert(after[k].0 == before[k].0);
                            assert(after[l].0 == before[l].0);
                        } else if k == last {
                            assert(before[l].0 != ks[i as int]);
                        } else {
                            assert(before[k].0 != ks[i as int]);
                        }
                    }
                }
            },
        }
        i = i + 1;
    }
    assert(ks.take(n as int) =~= ks);
    groups
}

} // verus!
