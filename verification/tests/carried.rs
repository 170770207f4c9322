use icemining::models::{AccountRecord, StratumAuthNatsNIM};
use icemining::workers::{generic_account, plan_disconnect, stratum_row, StratumStartNats, WorkerRecord};

#[test]
fn test0() {
    assert_eq!(2 + 2, 4);
}

#[test]
fn test1() {
    assert_eq!(3 + 1, 4);
}

#[test]
fn main_test_handle_msg_auth() {}

#[test]
fn stratum_nats_to_sql_test_handle_msg_auth() {}

#[test]
fn test_get_or_insert_account_nim() {
    let stratum_auth_nim = StratumAuthNatsNIM {
        user_name: "NQ11DGPGDBTX8H4J23QDL4A2D5DF7PDF9MAL".to_string(),
        coin_id: 2408,
        ip: "209.226.65.130".to_string(),
        difficulty_bits: 64.0f64.to_bits(),
        version: "noncerpro-cuda-3.3.0".to_string(),
        consensus_mode: "dumb".to_string(),
        worker_name: "tesla".to_string(),
        uuid: "f6b5089d-75ee-4635-a5f2-74401c1d517e".to_string(),
        algo: "argon2d".to_string(),
        time: 1595121619,
        stratum_id: "2".to_string(),
        mode: "normal".to_string(),
        password: "".to_string(),
        party_pass: "".to_string(),
        pid: 20796,
    };
    // The account row found (or inserted) under the authorization's user name.
    let row = AccountRecord {
        id: 1,
        username: stratum_auth_nim.user_name.clone(),
        coinid: stratum_auth_nim.coin_id as i32,
    };
    let account = generic_account(&row);
    assert_eq!(account.user_name, "NQ11DGPGDBTX8H4J23QDL4A2D5DF7PDF9MAL");
    assert_eq!(account.owner_type, "account");
    assert_eq!(account.coin_id, 2408);
}

#[test]
fn test_disconnect_worker() {
    let worker = WorkerRecord {
        id: 1234,
        worker: "test_worker".to_string(),
        state: "new".to_string(),
        uuid: "test_uuid".to_string(),
        time: None,
        pid: None,
        stratum_id: "test".to_string(),
        party_pass: None,
    };
    let worker = plan_disconnect(worker).unwrap();
    assert_eq!(worker.state, "disconnected".to_string());
    assert_eq!(worker.uuid, "test_uuid");
}

#[test]
fn test_stratum_start() {
    let stratum_start_nats = StratumStartNats {
        pid: 12,
        time: 12,
        started: 12,
        algo: "test".to_string(),
        workers: 0,
        port: 12,
        symbol: "test".to_string(),
        stratum_id: "test".to_string(),
        coin_id: 0,
    };
    let row = stratum_row(&stratum_start_nats);
    assert_eq!(row.workers, 0);
    assert_eq!(row.pid, 12);
    assert_eq!(row.stratum_id, "test");
    assert_eq!(1, 1);
}
