//! Plain records of the pool's database tables and messages.

use vstd::prelude::*;
use crate::keyed::{upsert, KeyedList};

verus! {

/// Configuration a stratum loads at startup (no settings yet).
pub struct StratumConfigurationMYSQL {}

/// A coin row.
pub struct Coin {
    pub id: i32,
    pub symbol: String,
    pub enable: i32,
}

/// An algorithm row.
pub struct AlgorithmMYSQL {
    pub id: i32,
    pub name: String,
    pub multiplier: i32,
}

/// A mode row.
pub struct ModeMYSQL {
    pub id: i32,
    pub name: String,
}

/// A user row.
pub struct UserMYSQL {
    pub id: i32,
    pub display_name: String,
    pub email: String,
    pub password: String,
}

/// The identity part of an account row: its id, user name and coin.
pub struct AccountRecord {
    pub id: i32,
    pub username: String,
    pub coinid: i32,
}

/// A stratum's report that a miner authorized. The starting difficulty is a
/// 64-bit float, carried here by its bit pattern.
#[derive(Clone)]
pub struct StratumAuthNatsNIM {
    pub user_name: String,
    pub coin_id: i16,
    pub ip: String,
    pub difficulty_bits: u64,
    pub version: String,
    pub consensus_mode: String,
    pub worker_name: String,
    pub uuid: String,
    pub algo: String,
    pub time: i32,
    pub stratum_id: String,
    pub mode: String,
    pub password: String,
    pub party_pass: String,
    pub pid: i32,
}

impl StratumAuthNatsNIM {
    /// A field-for-field copy.
    pub fn duplicate(&self) -> (r: Self)
        ensures
            r == *self,
    {
        StratumAuthNatsNIM {
            user_name: self.user_name.clone(),
            coin_id: self.coin_id,
            ip: self.ip.clone(),
            difficulty_bits: self.difficulty_bits,
            version: self.version.clone(),
            consensus_mode: self.consensus_mode.clone(),
            worker_name: self.worker_name.clone(),
            uuid: self.uuid.clone(),
            algo: self.algo.clone(),
            time: self.time,
            stratum_id: self.stratum_id.clone(),
            mode: self.mode.clone(),
            password: self.password.clone(),
            party_pass: self.party_pass.clone(),
            pid: self.pid,
        }
    }
}

/// The rows keyed by name, a later row replacing an earlier one of the same name.
pub open spec fn index_by_name<T>(names: Seq<Seq<char>>, rows: Seq<T>) -> Seq<(Seq<char>, T)>
    recommends
        names.len() == rows.len(),
    decreases rows.len(),
{
    if rows.len() == 0 || names.len() == 0 {
        Seq::empty()
    } else {
        upsert(
            index_by_name(names.drop_last(), rows.drop_last()),
            names.last(),
            rows.last(),
        )
    }
}

/// The names of algorithm rows.
pub open spec fn algorithm_names(rows: Seq<AlgorithmMYSQL>) -> Seq<Seq<char>> {
    rows.map_values(|r: AlgorithmMYSQL| r.name@)
}

/// The names of mode rows.
pub open spec fn mode_names(rows: Seq<ModeMYSQL>) -> Seq<Seq<char>> {
    rows.map_values(|r: ModeMYSQL| r.name@)
}

/// Indexes algorithm rows by name.
pub fn algorithms_by_name(rows: Vec<AlgorithmMYSQL>) -> (index: KeyedList<AlgorithmMYSQL>)
    ensures
        index.wf(),
        index@ == index_by_name(algorithm_names(rows@), rows@),
{
    let ghost all = rows@;
    let mut rows = rows;
    let mut rev: Vec<AlgorithmMYSQL> = Vec::new();
    while rows.len() > 0
        invariant
            rows@ + rev@.reverse() == all,
        decreases rows@.len(),
    {
        let r = rows.pop().unwrap();
        proof {
            assert(rows@.push(r) + rev@.reverse() =~= rows@ + rev@.push(r).reverse());
        }
        rev.push(r);
    }
    assert(rev@.reverse() =~= all);
    let mut index: KeyedList<AlgorithmMYSQL> = KeyedList::new();
    let ghost mut done: int = 0;
    while rev.len() > 0
        invariant
            index.wf(),
            0 <= done <= all.len(),
            rev@.len() == all.len() - done,
            forall|j: int| 0 <= j < rev@.len() ==> #[trigger] rev@[j] == all[all.len() - 1 - j],
            index@ == index_by_name(algorithm_names(all.take(done)), all.take(done)),
        decreases rev@.len(),
    {
        let r = rev.pop().unwrap();
        proof {
            assert(r == all[done]);
            let names = algorithm_names(all.take(done + 1));
            assert(names.drop_last() =~= algorithm_names(all.take(done)));
            assert(all.take(done + 1).drop_last() =~= all.take(done));
            assert(names.last() == r.name@);
            done = done + 1;
        }
        let name = r.name.clone();
        index.insert(name, r);
    }
    assert(all.take(done) =~= all);
    index
}

/// Indexes mode rows by name.
pub fn modes_by_name(rows: Vec<ModeMYSQL>) -> (index: KeyedList<ModeMYSQL>)
    ensures
        index.wf(),
        index@ == index_by_name(mode_names(rows@), rows@),
{
    let ghost all = rows@;
    let mut rows = rows;
    let mut rev: Vec<ModeMYSQL> = Vec::new();
    while rows.len() > 0
        invariant
            rows@ + rev@.reverse() == all,
        decreases rows@.len(),
    {
        let r = rows.pop().unwrap();
        proof {
            assert(rows@.push(r) + rev@.reverse() =~= rows@ + rev@.push(r).reverse());
        }
        rev.push(r);
    }
    assert(rev@.reverse() =~= all);
    let mut index: KeyedList<ModeMYSQL> = KeyedList::new();
    let ghost mut done: int = 0;
    while rev.len() > 0
        invariant
            index.wf(),
            0 <= done <= all.len(),
            rev@.len() == all.len() - done,
            forall|j: int| 0 <= j < rev@.len() ==> #[trigger] rev@[j] == all[all.len() - 1 - j],
            index@ == index_by_name(mode_names(all.take(done)), all.take(done)),
        decreases rev@.len(),
    {
        let r = rev.pop().unwrap();
        proof {
            assert(r == all[done]);
            let names = mode_names(all.take(done + 1));
            assert(names.drop_last() =~= mode_names(all.take(done)));
            assert(all.take(done + 1).drop_last() =~= all.take(done));
            assert(names.last() == r.name@);
            done = done + 1;
        }
        let name = r.name.clone();
        index.insert(name, r);
    }
    assert(all.take(done) =~= all);
    index
}

} // verus!
