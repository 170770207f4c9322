//! An insertion-ordered association list keyed by strings, standing in for
//! the string-keyed hash maps of the services.

use vstd::prelude::*;

verus! {

/// No key occurs twice.
pub open spec fn unique_keys<T>(s: Seq<(Seq<char>, T)>) -> bool {
    forall|i: int, j: int| 0 <= i < s.len() && 0 <= j < s.len() && i != j ==> s[i].0 != s[j].0
}

/// Whether some entry has the key.
pub open spec fn has_key<T>(s: Seq<(Seq<char>, T)>, k: Seq<char>) -> bool {
    exists|i: int| 0 <= i < s.len() && s[i].0 == k
}

/// The position of the key (meaningful where `has_key` holds).
pub open spec fn key_pos<T>(s: Seq<(Seq<char>, T)>, k: Seq<char>) -> int {
    choose|i: int| 0 <= i < s.len() && s[i].0 == k
}

/// The value stored under a key, if any.
pub open spec fn lookup<T>(s: Seq<(Seq<char>, T)>, k: Seq<char>) -> Option<T> {
    if has_key(s, k) {
        Some(s[key_pos(s, k)].1)
    } else {
        None
    }
}

/// The list after setting `k` to `v`: in place where `k` is present,
/// appended at the end otherwise.
pub open spec fn upsert<T>(s: Seq<(Seq<char>, T)>, k: Seq<char>, v: T) -> Seq<(Seq<char>, T)> {
    if has_key(s, k) {
        s.update(key_pos(s, k), (k, v))
    } else {
        s.push((k, v))
    }
}

/// With unique keys, an entry carrying the key sits at the key's position.
pub proof fn lemma_key_pos_unique<T>(s: Seq<(Seq<char>, T)>, k: Seq<char>, i: int)
    requires
        unique_keys(s),
        0 <= i < s.len(),
        s[i].0 == k,
    ensures
        has_key(s, k),
        key_pos(s, k) == i,
        lookup(s, k) == Some(s[i].1),
{
}

/// Setting a key keeps keys unique, and the key then maps to the new value
/// while every other key keeps its value.
pub proof fn lemma_upsert<T>(s: Seq<(Seq<char>, T)>, k: Seq<char>, v: T)
    requires
        unique_keys(s),
    ensures
        unique_keys(upsert(s, k, v)),
        lookup(upsert(s, k, v), k) == Some(v),
        forall|k2: Seq<char>| k2 != k ==> lookup(#[trigger] upsert(s, k, v), k2) == lookup(s, k2),
{
    let t = upsert(s, k, v);
    if has_key(s, k) {
        let p = key_pos(s, k);
        assert(s[p].0 == k);
        assert(t[p].0 == k);
        lemma_key_pos_unique(t, k, p);
        assert forall|k2: Seq<char>| k2 != k implies lookup(t, k2) == lookup(s, k2) by {
            if has_key(s, k2) {
                let q = key_pos(s, k2);
                assert(q != p);
                lemma_key_pos_unique(t, k2, q);
            } else {
                if has_key(t, k2) {
                    let q = key_pos(t, k2);
                    assert(s[q].0 == k2);
                }
            }
        }
    } else {
        let p = s.len() as int;
        assert(t[p].0 == k);
        lemma_key_pos_unique(t, k, p);
        assert forall|k2: Seq<char>| k2 != k implies lookup(t, k2) == lookup(s, k2) by {
            if has_key(s, k2) {
                let q = key_pos(s, k2);
                lemma_key_pos_unique(t, k2, q);
            } else {
                if has_key(t, k2) {
                    let q = key_pos(t, k2);
                    assert(s[q].0 == k2);
                }
            }
        }
    }
}

/// Removing an entry keeps keys unique.
pub proof fn lemma_remove_unique<T>(s: Seq<(Seq<char>, T)>, i: int)
    requires
        unique_keys(s),
        0 <= i < s.len(),
    ensures
        unique_keys(s.remove(i)),
        !has_key(s.remove(i), s[i].0),
{
    let t = s.remove(i);
    assert forall|a: int, b: int| 0 <= a < t.len() && 0 <= b < t.len() && a != b implies t[a].0 != t[b].0 by {
        let a2 = if a < i { a } else { a + 1 };
        let b2 = if b < i { b } else { b + 1 };
        assert(t[a] == s[a2]);
        assert(t[b] == s[b2]);
    }
    if has_key(t, s[i].0) {
        let q = key_pos(t, s[i].0);
        let q2 = if q < i { q } else { q + 1 };
        assert(t[q] == s[q2]);
    }
}

/// A string-keyed list of entries in insertion order; no key occurs twice.
pub struct KeyedList<T> {
    entries: Vec<(String, T)>,
}

impl<T> View for KeyedList<T> {
    type V = Seq<(Seq<char>, T)>;

    closed spec fn view(&self) -> Seq<(Seq<char>, T)> {
        self.entries@.map_values(|e: (String, T)| (e.0@, e.1))
    }
}

impl<T> KeyedList<T> {
    /// Well-formedness: keys are unique.
    pub open spec fn wf(&self) -> bool {
        unique_keys(self@)
    }

    /// An empty list.
    pub fn new() -> (r: Self)
        ensures
            r@ == Seq::<(Seq<char>, T)>::empty(),
            r.wf(),
    {
        let r = KeyedList { entries: Vec::new() };
        assert(r@ =~= Seq::<(Seq<char>, T)>::empty());
        r
    }

    /// The number of entries.
    pub fn len(&self) -> (n: usize)
        ensures
            n == self@.len(),
    {
        self.entries.len()
    }

    /// The position of the entry with the given key, if there is one.
    pub fn index_of(&self, key: &String) -> (r: Option<usize>)
        requires
            self.wf(),
        ensures
            match r {
                Some(i) => i < self@.len() && self@[i as int].0 == key@ && key_pos(self@, key@)
                    == i,
                None => !has_key(self@, key@),
            },
            r is Some <==> has_key(self@, key@),
    {
        let n = self.entries.len();
        let mut i: usize = 0;
        while i < n
            invariant
                n == self@.len(),
                i <= n,
                self.wf(),
                forall|j: int| 0 <= j < i ==> self@[j].0 != key@,
            decreases n - i,
        {
            if self.entries[i].0 == *key {
                proof {
                    lemma_key_pos_unique(self@, key@, i as int);
                }
                return Some(i);
            }
            i = i + 1;
        }
        None
    }

    /// The key at a position.
    pub fn key_at(&self, i: usize) -> (k: &String)
        requires
            i < self@.len(),
        ensures
            k@ == self@[i as int].0,
    {
        &self.entries[i].0
    }

    /// The value at a position.
    pub fn value_at(&self, i: usize) -> (v: &T)
        requires
            i < self@.len(),
        ensures
            *v == self@[i as int].1,
    {
        &self.entries[i].1
    }

    /// Appends an entry under a key that is not yet present.
    pub fn push_new(&mut self, key: String, value: T)
        requires
            old(self).wf(),
            !has_key(old(self)@, key@),
        ensures
            final(self)@ == old(self)@.push((key@, value)),
            final(self).wf(),
    {
        let ghost k = key@;
        self.entries.push((key, value));
        assert(self@ =~= old(self)@.push((k, value)));
    }

    /// Replaces the value at a position, giving back the old value.
    pub fn replace_at(&mut self, i: usize, value: T) -> (prev: T)
        requires
            old(self).wf(),
            i < old(self)@.len(),
        ensures
            final(self)@ == old(self)@.update(i as int, (old(self)@[i as int].0, value)),
            prev == old(self)@[i as int].1,
            final(self).wf(),
    {
        let (k, prev) = self.entries.remove(i);
        self.entries.insert(i, (k, value));
        assert(self@ =~= old(self)@.update(i as int, (old(self)@[i as int].0, value)));
        assert(self.wf()) by {
            assert forall|a: int, b: int|
                0 <= a < self@.len() && 0 <= b < self@.len() && a != b implies self@[a].0
                != self@[b].0 by {
                assert(self@[a].0 == old(self)@[a].0);
                assert(self@[b].0 == old(self)@[b].0);
            }
        }
        prev
    }

    /// Removes the entry at a position, keeping the order of the rest.
    pub fn remove_at(&mut self, i: usize) -> (e: (String, T))
        requires
            old(self).wf(),
            i < old(self)@.len(),
        ensures
            final(self)@ == old(self)@.remove(i as int),
            e.0@ == old(self)@[i as int].0,
            e.1 == old(self)@[i as int].1,
            final(self).wf(),
    {
        let e = self.entries.remove(i);
        assert(self@ =~= old(self)@.remove(i as int));
        proof {
            lemma_remove_unique(old(self)@, i as int);
        }
        e
    }

    /// Sets a key to a value: replaces the value in place where the key is
    /// present, appends a new entry otherwise.
    pub fn insert(&mut self, key: String, value: T)
        requires
            old(self).wf(),
        ensures
            final(self)@ == upsert(old(self)@, key@, value),
            final(self).wf(),
    {
        match self.index_of(&key) {
            Some(i) => {
                let _ = self.replace_at(i, value);
                assert(self@ =~= upsert(old(self)@, key@, value));
            },
            None => {
                self.push_new(key, value);
            },
        }
    }
}

} // verus!
