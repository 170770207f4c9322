use icemining::auth::{account_or_park, PendingAccounts, SHARE_THRESHOLD, TRIM_THRESHOLD};
use icemining::models::{algorithms_by_name, modes_by_name, AccountRecord, AlgorithmMYSQL, ModeMYSQL, StratumAuthNatsNIM};
use icemining::workers::{
    needs_named_lookup, new_worker, plan_devfee, plan_disconnect, plan_worker_auth, reconnect, WorkerAuthPlan,
    WorkerRecord,
};

fn auth(user: &str, worker: &str, time: i32) -> StratumAuthNatsNIM {
    StratumAuthNatsNIM {
        user_name: user.to_string(),
        coin_id: 2408,
        ip: "10.0.0.1".to_string(),
        difficulty_bits: 64.0f64.to_bits(),
        version: "v1".to_string(),
        consensus_mode: "dumb".to_string(),
        worker_name: worker.to_string(),
        uuid: format!("uuid-{}-{}", user, time),
        algo: "argon2d".to_string(),
        time,
        stratum_id: "s1".to_string(),
        mode: "normal".to_string(),
        password: "pw".to_string(),
        party_pass: "pp".to_string(),
        pid: 7,
    }
}

fn row(state: &str) -> WorkerRecord {
    WorkerRecord {
        id: 5,
        worker: "rig".to_string(),
        state: state.to_string(),
        uuid: "old".to_string(),
        time: Some(1),
        pid: Some(2),
        stratum_id: "s0".to_string(),
        party_pass: None,
    }
}

#[test]
fn unknown_account_is_parked_until_its_first_share() {
    assert_eq!(SHARE_THRESHOLD, 1);
    let mut pending = PendingAccounts::new();
    let msg = auth("alice", "rig", 100);
    assert!(account_or_park(&mut pending, &msg, None).is_none());
    assert_eq!(pending.len(), 1);
    // A second authorization keeps the first one parked.
    let again = auth("alice", "rig2", 150);
    assert!(account_or_park(&mut pending, &again, None).is_none());
    assert_eq!(pending.len(), 1);
    // A share of another user releases nothing.
    assert!(pending.count_share(&"bob".to_string()).is_none());
    // The first share of alice releases her first authorization.
    let released = pending.count_share(&"alice".to_string()).unwrap();
    assert_eq!(released.share_count, 1);
    assert_eq!(released.msg.worker_name, "rig");
    assert_eq!(released.msg.time, 100);
    assert!(pending.is_empty());
}

#[test]
fn known_account_is_bound_at_once() {
    let mut pending = PendingAccounts::new();
    let msg = auth("alice", "rig", 100);
    let found = AccountRecord { id: 9, username: "alice".to_string(), coinid: 2408 };
    let g = account_or_park(&mut pending, &msg, Some(found)).unwrap();
    assert_eq!(g.owner_id, 9);
    assert_eq!(g.owner_type, "account");
    assert_eq!(g.user_name, "alice");
    assert!(pending.is_empty());
}

#[test]
fn parked_accounts_expire() {
    assert_eq!(TRIM_THRESHOLD, 60);
    let mut pending = PendingAccounts::new();
    pending.park(&auth("old", "", 100));
    pending.park(&auth("new", "", 150));
    // cutoff 200 - 60 = 140: the authorization at 100 has expired.
    pending.expire(200);
    assert_eq!(pending.len(), 1);
    assert!(pending.count_share(&"old".to_string()).is_none());
    assert!(pending.count_share(&"new".to_string()).is_some());
}

#[test]
fn authorization_reconnects_a_free_named_row() {
    let msg = auth("alice", "rig", 100);
    let found = AccountRecord { id: 9, username: "alice".to_string(), coinid: 2408 };
    let mut pending = PendingAccounts::new();
    let account = account_or_park(&mut pending, &msg, Some(found)).unwrap();
    assert!(needs_named_lookup(&msg));
    match plan_worker_auth(&account, &msg, Some(row("disconnected")), true) {
        WorkerAuthPlan::Update(w) => {
            assert_eq!(w.id, 5);
            assert_eq!(w.state, "active");
            assert_eq!(w.uuid, msg.uuid);
            assert_eq!(w.time, Some(100));
            assert_eq!(w.pid, Some(7));
            assert_eq!(w.stratum_id, "s1");
            assert_eq!(w.party_pass, Some("pp".to_string()));
        },
        WorkerAuthPlan::Insert(_) => panic!("expected a reconnection"),
    }
    // A live row is not taken over: a new row is inserted.
    match plan_worker_auth(&account, &msg, Some(row("active")), true) {
        WorkerAuthPlan::Insert(n) => {
            assert_eq!(n.state, "active");
            assert_eq!(n.owner_id, 9);
            assert_eq!(n.worker, "rig");
            assert_eq!(n.password, "dumb");
        },
        WorkerAuthPlan::Update(_) => panic!("expected an insertion"),
    }
}

#[test]
fn unnamed_worker_always_gets_a_new_row() {
    let msg = auth("alice", "", 100);
    assert!(!needs_named_lookup(&msg));
    let mut pending = PendingAccounts::new();
    let found = AccountRecord { id: 9, username: "alice".to_string(), coinid: 2408 };
    let account = account_or_park(&mut pending, &msg, Some(found)).unwrap();
    assert!(matches!(plan_worker_auth(&account, &msg, Some(row("disconnected")), false), WorkerAuthPlan::Insert(_)));
    let n = new_worker(&account, &msg);
    assert_eq!(n.coinid, 2408);
    assert_eq!(n.name, "alice");
}

#[test]
fn reconnect_keeps_party_pass_when_asked() {
    let msg = auth("alice", "rig", 100);
    let mut r = row("disconnected");
    r.party_pass = Some("keep".to_string());
    let w = reconnect(r, &msg, false);
    assert_eq!(w.party_pass, Some("keep".to_string()));
}

#[test]
fn devfee_worker_survives_disconnect() {
    let d = plan_devfee(row("connected"));
    assert_eq!(d.state, "devfee");
    assert!(plan_disconnect(d).is_none());
    let gone = plan_disconnect(row("connected")).unwrap();
    assert_eq!(gone.state, "disconnected");
    // ... and the disconnected row is reconnected by the next authorization of its name.
    let msg = auth("alice", "rig", 300);
    let mut pending = PendingAccounts::new();
    let found = AccountRecord { id: 9, username: "alice".to_string(), coinid: 2408 };
    let account = account_or_park(&mut pending, &msg, Some(found)).unwrap();
    assert!(matches!(plan_worker_auth(&account, &msg, Some(gone), true), WorkerAuthPlan::Update(_)));
}

#[test]
fn rows_indexed_by_name() {
    let algos = vec![
        AlgorithmMYSQL { id: 1, name: "argon2d".to_string(), multiplier: 1 },
        AlgorithmMYSQL { id: 2, name: "blake2s".to_string(), multiplier: 2 },
        AlgorithmMYSQL { id: 3, name: "argon2d".to_string(), multiplier: 3 },
    ];
    let index = algorithms_by_name(algos);
    assert_eq!(index.len(), 2);
    let i = index.index_of(&"argon2d".to_string()).unwrap();
    assert_eq!(index.value_at(i).id, 3);
    let modes = vec![ModeMYSQL { id: 1, name: "normal".to_string() }, ModeMYSQL { id: 2, name: "party".to_string() }];
    let index = modes_by_name(modes);
    assert_eq!(index.len(), 2);
    assert_eq!(index.key_at(1), "party");
}

#[test]
fn expiring_twice_drops_nothing_more() {
    let mut pending = PendingAccounts::new();
    pending.park(&auth("a", "", 100));
    pending.park(&auth("b", "", 150));
    pending.park(&auth("c", "", 170));
    pending.expire(200);
    let once = pending.len();
    pending.expire(200);
    assert_eq!(pending.len(), once);
    assert_eq!(once, 2);
}
