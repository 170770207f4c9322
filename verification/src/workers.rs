//! Worker rows across a miner's connection life: authorization, developer-fee
//! mining, disconnection, and stratum restarts.

use vstd::prelude::*;
use vstd::string::StringExecFns;
use crate::auth::GenericAccount;
use crate::models::{AccountRecord, StratumAuthNatsNIM};
use crate::text::str_eq;

verus! {

/// The bookkeeping part of a worker row. Hashrate and difficulty are kept
/// alongside by the database layer.
pub struct WorkerRecord {
    pub id: i32,
    pub worker: String,
    pub state: String,
    pub uuid: String,
    pub time: Option<i32>,
    pub pid: Option<i32>,
    pub stratum_id: String,
    pub party_pass: Option<String>,
}

/// A worker row to insert. It starts with zero hashrate and difficulty and
/// without share statistics.
pub struct NewWorker {
    pub coinid: i16,
    pub userid: i32,
    pub worker: String,
    pub owner_id: i32,
    pub owner_type: String,
    pub uuid: String,
    pub state: String,
    pub ip: String,
    pub version: String,
    pub password: String,
    pub algo: String,
    pub mode: String,
    pub stratum_id: String,
    pub time: i32,
    pub pid: i32,
    pub name: String,
    pub party_pass: String,
}

/// What an authorization does to the workers table.
pub enum WorkerAuthPlan {
    /// Reconnect this existing row.
    Update(WorkerRecord),
    /// Insert this new row.
    Insert(NewWorker),
}

/// Whether a row is taken by a live connection.
pub open spec fn is_live_state(state: Seq<char>) -> bool {
    state == "connected"@ || state == "active"@
}

/// `n` is `w` with only its state changed, to `state`.
pub open spec fn with_state(w: WorkerRecord, n: WorkerRecord, state: Seq<char>) -> bool {
    &&& n.id == w.id
    &&& n.worker@ == w.worker@
    &&& n.state@ == state
    &&& n.uuid@ == w.uuid@
    &&& n.time == w.time
    &&& n.pid == w.pid
    &&& n.stratum_id@ == w.stratum_id@
    &&& n.party_pass == w.party_pass
}

/// `n` is `w` reconnected by the authorization `msg`: active under the new
/// uuid, time, process and stratum; the party password is refreshed where
/// `with_party_pass` holds and kept otherwise.
pub open spec fn is_reconnected(w: WorkerRecord, msg: StratumAuthNatsNIM, with_party_pass: bool, n: WorkerRecord) -> bool {
    &&& n.id == w.id
    &&& n.worker@ == w.worker@
    &&& n.state@ == "active"@
    &&& n.uuid@ == msg.uuid@
    &&& n.time == Some(msg.time)
    &&& n.pid == Some(msg.pid)
    &&& n.stratum_id@ == msg.stratum_id@
    &&& if with_party_pass {
        n.party_pass matches Some(p) && p@ == msg.party_pass@
    } else {
        n.party_pass == w.party_pass
    }
}

/// `n` is the new row for the authorization `msg` under `account`.
pub open spec fn is_new_worker(account: GenericAccount, msg: StratumAuthNatsNIM, n: NewWorker) -> bool {
    &&& n.coinid == msg.coin_id
    &&& n.userid == account.owner_id
    &&& n.worker@ == msg.worker_name@
    &&& n.owner_id == account.owner_id
    &&& n.owner_type@ == account.owner_type@
    &&& n.uuid@ == msg.uuid@
    &&& n.state@ == "active"@
    &&& n.ip@ == msg.ip@
    &&& n.version@ == msg.version@
    &&& n.password@ == msg.consensus_mode@
    &&& n.algo@ == msg.algo@
    &&& n.mode@ == msg.mode@
    &&& n.stratum_id@ == msg.stratum_id@
    &&& n.time == msg.time
    &&& n.pid == msg.pid
    &&& n.name@ == msg.user_name@
    &&& n.party_pass@ == msg.party_pass@
}

/// Whether an authorization looks for a row to reconnect: only named workers do.
pub fn needs_named_lookup(msg: &StratumAuthNatsNIM) -> (r: bool)
    ensures
        r == (msg.worker_name@.len() > 0),
{
    !msg.worker_name.as_str().is_empty()
}

/// Reconnects an existing row for an authorization.
pub fn reconnect(w: WorkerRecord, msg: &StratumAuthNatsNIM, with_party_pass: bool) -> (n: WorkerRecord)
    ensures
        is_reconnected(w, *msg, with_party_pass, n),
{
    let party_pass = if with_party_pass {
        Some(msg.party_pass.clone())
    } else {
        w.party_pass
    };
    WorkerRecord {
        id: w.id,
        worker: w.worker,
        state: String::from_str("active"),
        uuid: msg.uuid.clone(),
        time: Some(msg.time),
        pid: Some(msg.pid),
        stratum_id: msg.stratum_id.clone(),
        party_pass,
    }
}

/// The row to insert for an authorization.
pub fn new_worker(account: &GenericAccount, msg: &StratumAuthNatsNIM) -> (n: NewWorker)
    ensures
        is_new_worker(*account, *msg, n),
{
    NewWorker {
        coinid: msg.coin_id,
        userid: account.owner_id,
        worker: msg.worker_name.clone(),
        owner_id: account.owner_id,
        owner_type: account.owner_type.clone(),
        uuid: msg.uuid.clone(),
        state: String::from_str("active"),
        ip: msg.ip.clone(),
        version: msg.version.clone(),
        password: msg.consensus_mode.clone(),
        algo: msg.algo.clone(),
        mode: msg.mode.clone(),
        stratum_id: msg.stratum_id.clone(),
        time: msg.time,
        pid: msg.pid,
        name: msg.user_name.clone(),
        party_pass: msg.party_pass.clone(),
    }
}

/// Whether an authorization reconnects the row found for its worker name:
/// the worker is named and the row is not taken by a live connection.
pub open spec fn reconnects(msg: StratumAuthNatsNIM, found: Option<WorkerRecord>) -> bool {
    &&& msg.worker_name@.len() > 0
    &&& found matches Some(w)
    &&& !is_live_state(w.state@)
}

/// Decides what an authorization does to the workers table, given the row
/// found under the account for the worker's name (looked up for named
/// workers only): reconnect that row unless a live connection holds it,
/// insert a new row otherwise.
pub fn plan_worker_auth(
    account: &GenericAccount,
    msg: &StratumAuthNatsNIM,
    found: Option<WorkerRecord>,
    with_party_pass: bool,
) -> (plan: WorkerAuthPlan)
    ensures
        reconnects(*msg, found) ==> (plan matches WorkerAuthPlan::Update(n) && is_reconnected(
            found->Some_0,
            *msg,
            with_party_pass,
            n,
        )),
        found matches Some(w) && (w.state@ == "connected"@ || w.state@ == "active"@) ==> plan is Insert,
        msg.worker_name@.len() == 0 ==> plan is Insert,
        !reconnects(*msg, found) ==> (plan matches WorkerAuthPlan::Insert(n) && is_new_worker(
            *account,
            *msg,
            n,
        )),
{
    if needs_named_lookup(msg) {
        if let Some(w) = found {
            if !str_eq(w.state.as_str(), "connected") && !str_eq(w.state.as_str(), "active") {
                return WorkerAuthPlan::Update(reconnect(w, msg, with_party_pass));
            }
        }
    }
    WorkerAuthPlan::Insert(new_worker(account, msg))
}

/// Whether a dropped connection changes the row: not for a worker mining the
/// developer fee.
pub open spec fn disconnect_updates(w: WorkerRecord) -> bool {
    w.state@ != "devfee"@
}

/// The row after its connection drops: disconnected, except that a worker
/// mining the developer fee is left alone (`None`: no update).
pub fn plan_disconnect(w: WorkerRecord) -> (r: Option<WorkerRecord>)
    ensures
        !disconnect_updates(w) ==> r is None,
        disconnect_updates(w) ==> (r matches Some(n) && with_state(w, n, "disconnected"@)),
{
    if str_eq(w.state.as_str(), "devfee") {
        None
    } else {
        Some(
            WorkerRecord {
                id: w.id,
                worker: w.worker,
                state: String::from_str("disconnected"),
                uuid: w.uuid,
                time: w.time,
                pid: w.pid,
                stratum_id: w.stratum_id,
                party_pass: w.party_pass,
            },
        )
    }
}

/// The row after the worker switched to mining the developer fee.
pub fn plan_devfee(w: WorkerRecord) -> (n: WorkerRecord)
    ensures
        with_state(w, n, "devfee"@),
{
    WorkerRecord {
        id: w.id,
        worker: w.worker,
        state: String::from_str("devfee"),
        uuid: w.uuid,
        time: w.time,
        pid: w.pid,
        stratum_id: w.stratum_id,
        party_pass: w.party_pass,
    }
}

/// The account a worker is bound to, from its account row.
pub fn generic_account(a: &AccountRecord) -> (g: GenericAccount)
    ensures
        g.owner_id == a.id,
        g.user_name@ == a.username@,
        g.coin_id == a.coinid,
        g.owner_type@ == "account"@,
{
    GenericAccount {
        owner_id: a.id,
        user_name: a.username.clone(),
        owner_type: String::from_str("account"),
        coin_id: a.coinid,
    }
}

/// A stratum's announcement that it started.
pub struct StratumStartNats {
    pub pid: i32,
    pub time: i32,
    pub started: i32,
    pub algo: String,
    pub workers: i32,
    pub port: i32,
    pub symbol: String,
    pub stratum_id: String,
    pub coin_id: i16,
}

/// A stratums-table row.
pub struct StratumMYSQLInsertable {
    pub pid: i32,
    pub time: i32,
    pub started: i32,
    pub algo: String,
    pub workers: i32,
    pub port: i32,
    pub symbol: String,
    pub stratum_id: String,
}

/// The stratums-table row for a started stratum: its announcement, with no
/// workers yet.
pub fn stratum_row(msg: &StratumStartNats) -> (row: StratumMYSQLInsertable)
    ensures
        row.pid == msg.pid,
        row.time == msg.time,
        row.started == msg.started,
        row.algo@ == msg.algo@,
        row.workers == 0,
        row.port == msg.port,
        row.symbol@ == msg.symbol@,
        row.stratum_id@ == msg.stratum_id@,
{
    StratumMYSQLInsertable {
        pid: msg.pid,
        time: msg.time,
        started: msg.started,
        algo: msg.algo.clone(),
        workers: 0,
        port: msg.port,
        symbol: msg.symbol.clone(),
        stratum_id: msg.stratum_id.clone(),
    }
}

/// A worker switched to the developer fee keeps its row untouched when its
/// connection drops.
pub proof fn law_devfee_survives_disconnect(w: WorkerRecord, d: WorkerRecord)
    requires
        with_state(w, d, "devfee"@),
    ensures
        !disconnect_updates(d),
{
}

/// A row held by a live connection, in state "connected" or "active", is
/// never taken over by an authorization, and an unnamed worker never
/// reconnects a row; a named worker reconnects a row found in any other
/// state.
pub proof fn law_live_rows_are_never_taken(msg: StratumAuthNatsNIM, w: WorkerRecord)
    ensures
        w.state@ == "connected"@ ==> !reconnects(msg, Some(w)),
        w.state@ == "active"@ ==> !reconnects(msg, Some(w)),
        msg.worker_name@.len() == 0 ==> !reconnects(msg, Some(w)),
        !reconnects(msg, None),
        msg.worker_name@.len() > 0 && w.state@ != "connected"@ && w.state@ != "active"@ ==> reconnects(
            msg,
            Some(w),
        ),
{
}

/// A worker whose connection dropped is reconnected, in the same row, by the
/// next authorization of its name; the row then carries the new connection.
pub proof fn law_disconnected_worker_reconnects(
    w: WorkerRecord,
    d: WorkerRecord,
    msg: StratumAuthNatsNIM,
)
    requires
        with_state(w, d, "disconnected"@),
        msg.worker_name@.len() > 0,
    ensures
        reconnects(msg, Some(d)),
{
    reveal_strlit("disconnected");
    reveal_strlit("connected");
    reveal_strlit("active");
    assert(d.state@[0] != "connected"@[0]);
    assert(d.state@[0] != "active"@[0]);
}

} // verus!
