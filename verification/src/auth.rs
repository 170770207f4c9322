//! Accounts that are waiting for their first share before they are created.
//!
//! A miner that authorizes with an unknown account is parked here; the
//! account is created once it has sent enough shares, and parked accounts
//! that stay silent expire.

use vstd::prelude::*;
use vstd::string::StringExecFns;
use crate::keyed::{has_key, key_pos, lookup, unique_keys, KeyedList};
use crate::models::{AccountRecord, StratumAuthNatsNIM};

verus! {

/// Shares an account must send before it is created.
pub const SHARE_THRESHOLD: i8 = 1;

/// Seconds after its authorization that a parked account expires.
pub const TRIM_THRESHOLD: i32 = 60;

/// A parked authorization and the shares counted for it so far.
pub struct AuthStruct {
    pub msg: StratumAuthNatsNIM,
    pub share_count: i8,
}

/// An account as the worker bookkeeping needs it.
pub struct GenericAccount {
    pub owner_id: i32,
    pub user_name: String,
    pub owner_type: String,
    pub coin_id: i32,
}

/// Parked authorizations keyed by user name.
pub struct PendingAccounts {
    entries: KeyedList<AuthStruct>,
}

/// Parked entries are unique per user and below the share threshold.
pub open spec fn pending_wf(q: Seq<(Seq<char>, AuthStruct)>) -> bool {
    &&& unique_keys(q)
    &&& forall|i: int| 0 <= i < q.len() ==> 0 <= #[trigger] q[i].1.share_count < SHARE_THRESHOLD
    &&& forall|i: int| 0 <= i < q.len() ==> #[trigger] q[i].0 == q[i].1.msg.user_name@
}

/// The parked entries after an authorization of an unknown account: parked
/// with no shares counted, unless the user is parked already.
pub open spec fn after_unknown_account(q: Seq<(Seq<char>, AuthStruct)>, msg: StratumAuthNatsNIM) -> Seq<(Seq<char>, AuthStruct)> {
    if has_key(q, msg.user_name@) {
        q
    } else {
        q.push((msg.user_name@, AuthStruct { msg, share_count: 0 }))
    }
}

/// The parked entries after a share of `user`, and the entry released for
/// account creation, if any.
pub open spec fn after_share(q: Seq<(Seq<char>, AuthStruct)>, user: Seq<char>) -> (Seq<(Seq<char>, AuthStruct)>, Option<AuthStruct>) {
    if has_key(q, user) {
        let p = key_pos(q, user);
        let e = q[p].1;
        let counted = AuthStruct { msg: e.msg, share_count: (e.share_count + 1) as i8 };
        if e.share_count + 1 >= SHARE_THRESHOLD {
            (q.remove(p), Some(counted))
        } else {
            (q.update(p, (user, counted)), None)
        }
    } else {
        (q, None)
    }
}

/// The time before which parked authorizations have expired.
pub open spec fn expiry_cutoff(time_current: u64) -> int {
    (time_current as i32) as int - TRIM_THRESHOLD as int
}

/// Whether a parked entry is still current at the cutoff.
pub open spec fn is_current(e: (Seq<char>, AuthStruct), cutoff: int) -> bool {
    e.1.msg.time > cutoff
}

/// The parked entries still current at the cutoff.
pub open spec fn current_entries(q: Seq<(Seq<char>, AuthStruct)>, cutoff: int) -> Seq<(Seq<char>, AuthStruct)> {
    q.filter(|e: (Seq<char>, AuthStruct)| is_current(e, cutoff))
}

impl View for PendingAccounts {
    type V = Seq<(Seq<char>, AuthStruct)>;

    closed spec fn view(&self) -> Seq<(Seq<char>, AuthStruct)> {
        self.entries@
    }
}

impl PendingAccounts {
    /// Well-formedness of the parked entries.
    pub closed spec fn wf(&self) -> bool {
        self.entries.wf() && pending_wf(self@)
    }

    /// The parked entries satisfy `pending_wf`.
    pub proof fn lemma_wf(&self)
        requires
            self.wf(),
        ensures
            pending_wf(self@),
    {
    }

    /// No account is parked.
    pub fn new() -> (r: Self)
        ensures
            r.wf(),
            r@ == Seq::<(Seq<char>, AuthStruct)>::empty(),
    {
        PendingAccounts { entries: KeyedList::new() }
    }

    /// The number of parked accounts.
    pub fn len(&self) -> (n: usize)
        ensures
            n == self@.len(),
    {
        self.entries.len()
    }

    /// Whether no account is parked.
    pub fn is_empty(&self) -> (b: bool)
        ensures
            b == (self@.len() == 0),
    {
        self.entries.len() == 0
    }

    /// Parks the authorization of an account that does not exist yet; an
    /// account already parked keeps its first authorization.
    pub fn park(&mut self, msg: &StratumAuthNatsNIM)
        requires
            old(self).wf(),
        ensures
            final(self).wf(),
            final(self)@ == after_unknown_account(old(self)@, *msg),
    {
        match self.entries.index_of(&msg.user_name) {
            Some(_) => {},
            None => {
                let entry = AuthStruct { msg: msg.duplicate(), share_count: 0 };
                self.entries.push_new(msg.user_name.clone(), entry);
                assert(self@ == old(self)@.push((msg.user_name@, AuthStruct { msg: *msg, share_count: 0 })));
                assert(pending_wf(self@)) by {
                    assert forall|i: int| 0 <= i < self@.len() implies 0 <= #[trigger] self@[i].1.share_count
                        < SHARE_THRESHOLD by {
                        if i < old(self)@.len() {
                            assert(self@[i] == old(self)@[i]);
                        }
                    }
                    assert forall|i: int| 0 <= i < self@.len() implies #[trigger] self@[i].0
                        == self@[i].1.msg.user_name@ by {
                        if i < old(self)@.len() {
                            assert(self@[i] == old(self)@[i]);
                        }
                    }
                }
            },
        }
    }

    /// Counts a share of `user`; once the account reaches the share
    /// threshold its entry leaves and is handed back for account creation.
    pub fn count_share(&mut self, user: &String) -> (released: Option<AuthStruct>)
        requires
            old(self).wf(),
        ensures
            final(self).wf(),
            (final(self)@, released) == after_share(old(self)@, user@),
    {
        if self.entries.len() == 0 {
            return None;
        }
        match self.entries.index_of(user) {
            None => None,
            Some(i) => {
                let count: i8 = self.entries.value_at(i).share_count + 1;
                if count >= SHARE_THRESHOLD {
                    let (_, e) = self.entries.remove_at(i);
                    let released = AuthStruct { msg: e.msg, share_count: count };
                    proof {
                        assert forall|a: int| 0 <= a < self@.len() implies 0
                            <= #[trigger] self@[a].1.share_count < SHARE_THRESHOLD by {
                            let b = if a < i { a } else { a + 1 };
                            assert(self@[a] == old(self)@[b]);
                        }
                        assert forall|a: int| 0 <= a < self@.len() implies #[trigger] self@[a].0
                            == self@[a].1.msg.user_name@ by {
                            let b = if a < i { a } else { a + 1 };
                            assert(self@[a] == old(self)@[b]);
                        }
                    }
                    Some(released)
                } else {
                    assert(false);
                    None
                }
            },
        }
    }

    /// Drops the parked authorizations that are older than the threshold at
    /// `time_current` (seconds).
    pub fn expire(&mut self, time_current: u64)
        requires
            old(self).wf(),
            (time_current as i32) as int - TRIM_THRESHOLD as int >= i32::MIN as int,
        ensures
            final(self).wf(),
            final(self)@ == current_entries(old(self)@, expiry_cutoff(time_current)),
    {
        let now32: i32 = #[verifier::truncate] (time_current as i32);
        let cutoff: i32 = now32 - TRIM_THRESHOLD;
        let ghost c = cutoff as int;
        let ghost pred = |en: (Seq<char>, AuthStruct)| is_current(en, c);
        let ghost all = self@;
        let mut kept: KeyedList<AuthStruct> = KeyedList::new();
        let n = self.entries.len();
        let mut i: usize = 0;
        assert(all.take(0).filter(pred) =~= Seq::<(Seq<char>, AuthStruct)>::empty()) by {
            reveal(Seq::filter);
        }
        while i < n
            invariant
                n == all.len(),
                all == self@,
                self.wf(),
                pending_wf(all),
                i <= n,
                kept.wf(),
                kept@ == all.take(i as int).filter(pred),
                forall|j: int| 0 <= j < kept@.len() ==> #[trigger] has_key(all.take(i as int), kept@[j].0),
                forall|j: int| 0 <= j < kept@.len() ==> 0 <= #[trigger] kept@[j].1.share_count < SHARE_THRESHOLD,
                forall|j: int| 0 <= j < kept@.len() ==> #[trigger] kept@[j].0 == kept@[j].1.msg.user_name@,
                pred == (|en: (Seq<char>, AuthStruct)| is_current(en, c)),
                c == cutoff as int,
            decreases n - i,
        {
            let e = self.entries.value_at(i);
            proof {
                assert(all.take(i + 1) =~= all.take(i as int).push(all[i as int]));
                all.take(i as int).lemma_filter_push(all[i as int], pred);
                assert(*e == all[i as int].1);
                assert(pred(all[i as int]) == (all[i as int].1.msg.time > c));
            }
            if e.msg.time > cutoff {
                let k = self.entries.key_at(i).clone();
                proof {
                    if has_key(kept@, k@) {
                        let p = key_pos(kept@, k@);
                        assert(has_key(all.take(i as int), kept@[p].0));
                        let q = key_pos(all.take(i as int), kept@[p].0);
                        assert(all[q].0 == all[i as int].0);
                    }
                }
                let copy = AuthStruct { msg: e.msg.duplicate(), share_count: e.share_count };
                let ghost prev_kept = kept@;
                kept.push_new(k, copy);
                proof {
                    assert(copy == all[i as int].1);
                    assert(k@ == all[i as int].0);
                    assert((k@, copy) == all[i as int]);
                    assert(kept@ == prev_kept.push(all[i as int]));
                    assert forall|j: int| 0 <= j < kept@.len() implies #[trigger] has_key(
                        all.take(i + 1),
                        kept@[j].0,
                    ) by {
                        if j < prev_kept.len() {
                            assert(kept@[j] == prev_kept[j]);
                            assert(has_key(all.take(i as int), prev_kept[j].0));
                            let q = key_pos(all.take(i as int), prev_kept[j].0);
                            assert(all.take(i + 1)[q].0 == kept@[j].0);
                        } else {
                            assert(all.take(i + 1)[i as int].0 == kept@[j].0);
                        }
                    }
                    assert forall|j: int| 0 <= j < kept@.len() implies 0 <= #[trigger] kept@[j].1.share_count
                        < SHARE_THRESHOLD by {
                        if j < prev_kept.len() {
                            assert(kept@[j] == prev_kept[j]);
                        }
                    }
                    assert forall|j: int| 0 <= j < kept@.len() implies #[trigger] kept@[j].0
                        == kept@[j].1.msg.user_name@ by {
                        if j < prev_kept.len() {
                            assert(kept@[j] == prev_kept[j]);
                        }
                    }
                }
            } else {
                proof {
                    assert forall|j: int| 0 <= j < kept@.len() implies #[trigger] has_key(
                        all.take(i + 1),
                        kept@[j].0,
                    ) by {
                        assert(has_key(all.take(i as int), kept@[j].0));
                        let q = key_pos(all.take(i as int), kept@[j].0);
                        assert(all.take(i + 1)[q].0 == kept@[j].0);
                    }
                }
            }
            i = i + 1;
        }
        assert(all.take(n as int) =~= all);
        self.entries = kept;
    }
}

/// Turns the result of looking up the account of an authorization into the
/// account to bind the worker to. A missing account is parked until its
/// first share, and no worker is bound yet.
pub fn account_or_park(
    pending: &mut PendingAccounts,
    msg: &StratumAuthNatsNIM,
    found: Option<AccountRecord>,
) -> (account: Option<GenericAccount>)
    requires
        old(pending).wf(),
    ensures
        final(pending).wf(),
        match found {
            Some(a) => {
                &&& final(pending)@ == old(pending)@
                &&& account matches Some(g)
                &&& g.owner_id == a.id
                &&& g.user_name@ == a.username@
                &&& g.coin_id == a.coinid
                &&& g.owner_type@ == "account"@
            },
            None => final(pending)@ == after_unknown_account(old(pending)@, *msg) && account is None,
        },
{
    match found {
        Some(a) => Some(
            GenericAccount {
                owner_id: a.id,
                user_name: a.username,
                coin_id: a.coinid,
                owner_type: String::from_str("account"),
            },
        ),
        None => {
            pending.park(msg);
            None
        },
    }
}

/// The first share of a parked account releases it, with the authorization
/// it was parked with, and leaves the other parked accounts as they were.
pub proof fn law_first_share_releases(q: Seq<(Seq<char>, AuthStruct)>, msg: StratumAuthNatsNIM)
    requires
        pending_wf(q),
        !has_key(q, msg.user_name@),
    ensures
        after_share(after_unknown_account(q, msg), msg.user_name@) == (
            q,
            Some(AuthStruct { msg, share_count: 1 }),
        ),
{
    let q2 = after_unknown_account(q, msg);
    let p = q.len() as int;
    assert(q2[p].0 == msg.user_name@);
    assert(unique_keys(q2)) by {
        assert forall|a: int, b: int| 0 <= a < q2.len() && 0 <= b < q2.len() && a != b implies q2[a].0
            != q2[b].0 by {
            if a < p && b < p {
            } else if a == p {
                assert(q2[b] == q[b]);
            } else {
                assert(q2[a] == q[a]);
            }
        }
    }
    crate::keyed::lemma_key_pos_unique(q2, msg.user_name@, p);
    assert(q2.remove(p) =~= q);
}

/// A list whose entries are all current is left whole by expiry.
proof fn lemma_all_current_kept(s: Seq<(Seq<char>, AuthStruct)>, cutoff: int)
    requires
        forall|i: int| 0 <= i < s.len() ==> is_current(#[trigger] s[i], cutoff),
    ensures
        current_entries(s, cutoff) == s,
    decreases s.len(),
{
    reveal(Seq::filter);
    if s.len() > 0 {
        lemma_all_current_kept(s.drop_last(), cutoff);
        assert(s.drop_last().push(s.last()) =~= s);
    }
}

/// Expiring twice at the same time drops nothing more than expiring once.
pub proof fn law_expire_idempotent(q: Seq<(Seq<char>, AuthStruct)>, time_current: u64)
    ensures
        current_entries(
            current_entries(q, expiry_cutoff(time_current)),
            expiry_cutoff(time_current),
        ) == current_entries(q, expiry_cutoff(time_current)),
{
    let c = expiry_cutoff(time_current);
    let f = current_entries(q, c);
    assert forall|i: int| 0 <= i < f.len() implies is_current(#[trigger] f[i], c) by {
        q.lemma_filter_pred(|e: (Seq<char>, AuthStruct)| is_current(e, c), i);
    }
    lemma_all_current_kept(f, c);
}

/// A second authorization of an account that is already parked changes
/// nothing: the first authorization stays.
pub proof fn law_park_keeps_first(q: Seq<(Seq<char>, AuthStruct)>, m1: StratumAuthNatsNIM, m2: StratumAuthNatsNIM)
    requires
        m1.user_name@ == m2.user_name@,
    ensures
        after_unknown_account(after_unknown_account(q, m1), m2) == after_unknown_account(q, m1),
{
    let q1 = after_unknown_account(q, m1);
    if !has_key(q, m1.user_name@) {
        assert(q1[q.len() as int].0 == m2.user_name@);
    }
}

} // verus!
