use icemining::blocks::block_mode;
use icemining::clock;
use icemining::database;
use icemining::earnings::{first_earning_step, next_earning_step, EarningStep, StepOutcome, PROCESS_INTERVAL};
use icemining::logwatch::{
    check_clock, check_log_activity, check_share_activity, classify_log_line, line_contains, Elapsed, RESTART_TIME,
};
use icemining::maintenance::{workers_sweep, Sweep, SweepKind, CLEANUP_LOOKBACK};
use icemining::models::AccountRecord;
use icemining::payout::{
    block_fee_permille, check_score_table, earning_records, handles_block, plan_block_payout, resolve_account_ids,
    PayoutBlock, PayoutPlan,
};
use icemining::routes::{add, cow, dog, donkey, hello};

fn block(mode: &str, coin: i32, user: Option<&str>) -> PayoutBlock {
    PayoutBlock {
        id: 77,
        coin_id: coin,
        mode: mode.to_string(),
        algo: "blake2s".to_string(),
        party_pass: Some("pw".to_string()),
        user_name: user.map(|u| u.to_string()),
    }
}

#[test]
fn pool_fees_by_coin_and_mode() {
    assert_eq!(block_fee_permille(2418, &"normal".to_string()), 40);
    assert_eq!(block_fee_permille(2426, &"normal".to_string()), 120);
    assert_eq!(block_fee_permille(2408, &"normal".to_string()), 15);
    assert_eq!(block_fee_permille(2422, &"normal".to_string()), 15);
    assert_eq!(block_fee_permille(2423, &"normal".to_string()), 20);
    assert_eq!(block_fee_permille(2416, &"normal".to_string()), 22);
    assert_eq!(block_fee_permille(2410, &"normal".to_string()), 20);
    assert_eq!(block_fee_permille(1, &"normal".to_string()), 10);
    assert_eq!(block_fee_permille(2426, &"party".to_string()), 30);
    assert_eq!(block_fee_permille(2426, &"solo".to_string()), 30);
    assert!(handles_block(2423));
    assert!(!handles_block(2408));
}

#[test]
fn who_a_block_pays() {
    match plan_block_payout(&block("solo", 2423, Some("alice"))) {
        PayoutPlan::Solo { earning_key } => assert_eq!(earning_key, "2423-alice"),
        _ => panic!("solo block pays its finder"),
    }
    assert!(matches!(plan_block_payout(&block("solo", 2423, None)), PayoutPlan::MissingSoloUser));
    match plan_block_payout(&block("party", 2423, None)) {
        PayoutPlan::Shared { table_key } => assert_eq!(table_key, "P:2423-blake2s-pw"),
        _ => panic!("party block is shared"),
    }
    match plan_block_payout(&block("normal", 2423, Some("x"))) {
        PayoutPlan::Shared { table_key } => assert_eq!(table_key, "N:2423-blake2s"),
        _ => panic!("pool block is shared"),
    }
}

#[test]
fn earnings_are_booked_to_accounts() {
    let accounts = vec![
        AccountRecord { id: 1, username: "alice".to_string(), coinid: 2423 },
        AccountRecord { id: 2, username: "bob".to_string(), coinid: 2423 },
        AccountRecord { id: 3, username: "alice".to_string(), coinid: 2423 },
    ];
    let keys = vec!["2423-alice".to_string(), "2423-carol".to_string(), "2423-bob".to_string()];
    assert_eq!(resolve_account_ids(&accounts, &keys), vec![3, -1, 2]);
}

#[test]
fn log_lines_are_classified() {
    let e = classify_log_line("20200101 INFO Got share at height 5");
    assert!(e.got_share && !e.reorg && !e.zero_difficulty_job && !e.invalid_root && !e.stratum_started);
    let e = classify_log_line("WARN REORG detected; Invalid Root");
    assert!(!e.got_share && e.reorg && e.invalid_root);
    let e = classify_log_line("job DIFFICULTY 0 Job sent");
    assert!(e.zero_difficulty_job);
    let e = classify_log_line("Stratum server started on 3416");
    assert!(e.stratum_started);
    let e = classify_log_line("DIFFICULTY 0 Job without the leading space");
    assert!(!e.zero_difficulty_job);
    assert!(line_contains("abc", ""));
    assert!(!line_contains("", "a"));
    assert!(line_contains("ééx", "éx"));
}

#[test]
fn watchdog_limits() {
    assert_eq!(RESTART_TIME, 120);
    let c = check_log_activity(Some(Elapsed { secs: 5, nanos: 0 }));
    assert!(!c.warn && !c.restart);
    let c = check_log_activity(Some(Elapsed { secs: 5, nanos: 1 }));
    assert!(!c.warn && c.restart);
    let c = check_log_activity(Some(Elapsed { secs: 11, nanos: 0 }));
    assert!(c.warn && c.restart);
    let c = check_log_activity(None);
    assert!(!c.warn && !c.restart);
    let c = check_share_activity(Some(Elapsed { secs: 31, nanos: 0 }));
    assert!(c.warn && !c.restart);
    let c = check_share_activity(Some(Elapsed { secs: 240, nanos: 5 }));
    assert!(c.warn && c.restart);
    let c = check_clock(Some(Elapsed { secs: 3, nanos: 0 }), 2, 4);
    assert!(c.warn && !c.restart);
}

#[test]
fn earning_settlement_steps() {
    assert_eq!(PROCESS_INTERVAL, 30);
    let s = first_earning_step();
    assert_eq!(s, EarningStep::MarkProcessed);
    assert_eq!(next_earning_step(s, StepOutcome::Failed), EarningStep::Done);
    let s = next_earning_step(s, StepOutcome::Succeeded);
    assert_eq!(s, EarningStep::FindAccount);
    assert_eq!(next_earning_step(s, StepOutcome::Failed), EarningStep::DeleteEarning);
    let s = next_earning_step(s, StepOutcome::Succeeded);
    assert_eq!(s, EarningStep::CreditBalance);
    assert_eq!(next_earning_step(s, StepOutcome::Failed), EarningStep::Done);
    assert_eq!(next_earning_step(EarningStep::DeleteEarning, StepOutcome::Succeeded), EarningStep::Done);
    assert_eq!(next_earning_step(EarningStep::Done, StepOutcome::Succeeded), EarningStep::Done);
}

#[test]
fn workers_sweep_plan() {
    assert_eq!(CLEANUP_LOOKBACK, 1800);
    let plan = workers_sweep(100_000);
    assert_eq!(
        plan,
        vec![
            Sweep { kind: SweepKind::Stale, coin_id: 2423, before: 98200 },
            Sweep { kind: SweepKind::Stale, coin_id: 2408, before: 98200 },
            Sweep { kind: SweepKind::Disconnected, coin_id: 2408, before: 98200 },
            Sweep { kind: SweepKind::Disconnected, coin_id: 2423, before: 98200 },
        ]
    );
}

#[test]
fn blocks_without_mode_are_normal() {
    assert_eq!(block_mode("".to_string()), "normal");
    assert_eq!(block_mode("party".to_string()), "party");
    assert_eq!(block_mode("solo".to_string()), "solo");
}

#[test]
fn route_replies() {
    assert_eq!(hello(), "Hello, world!");
    assert_eq!(donkey(), "Hello, Donkey!");
    assert_eq!(dog(), "Hello, dog!");
    assert_eq!(cow(), "Hello, cow!");
    assert_eq!(add(2, 2), 4);
    assert_eq!(add(-3, 1), -2);
}

#[test]
fn clock_reads_after_the_epoch() {
    let a = clock::unix_timestamp().unwrap();
    let b = database::unix_timestamp().unwrap();
    assert!(a > 1_500_000_000);
    assert!(b as i64 >= a);
    assert!(clock::secs_since_epoch().is_some());
}

#[test]
fn missing_score_table_fails_the_block() {
    assert_eq!(check_score_table(77, None), Err("Block Failed in dpplns, blockid: 77".to_string()));
    assert_eq!(check_score_table(-3, None), Err("Block Failed in dpplns, blockid: -3".to_string()));
    assert_eq!(check_score_table(77, Some(4)), Ok(4));
}

#[test]
fn earning_rows_of_a_block() {
    let rows = earning_records(77, 2423, &"party".to_string(), &Some("pw".to_string()), 1000, &vec![3, -1]);
    assert_eq!(rows.len(), 2);
    assert_eq!(rows[0].userid, 3);
    assert_eq!(rows[1].userid, -1);
    for r in rows.iter() {
        assert_eq!(r.coinid, 2423);
        assert_eq!(r.blockid, 77);
        assert_eq!(r.create_time, 1000);
        assert_eq!(r.status, 0);
        assert_eq!(r.mode, "party");
        assert_eq!(r.algo, 0);
        assert_eq!(r.stratum_id, 0);
        assert_eq!(r.party_pass, Some("pw".to_string()));
    }
}

#[test]
fn shares_are_kept_a_day() {
    assert_eq!(icemining::maintenance::SHARE_RETENTION, 86400);
    assert_eq!(icemining::maintenance::share_retention_cutoff(100_000), 13_600);
}

#[test]
fn timestamps_read_seconds_as_signed() {
    assert_eq!(clock::timestamp_from_secs(1_600_000_000), 1_600_000_000);
    assert_eq!(clock::timestamp_from_secs(u64::MAX), -1);
}
