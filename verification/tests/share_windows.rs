use icemining::grouping::group_positions;
use icemining::hashrate::{
    config_algo_target, config_window_length, default_share_processor_config, queue_share, tally_workers,
    trim_queues,
};
use icemining::keyed::KeyedList;
use icemining::window::{
    add_share_to_queue, compress_key, compress_shares_queue, compressed_share, compression_lookback, is_scored, take_recent_shares,
    trim_shares_queue, trim_worker_queue, ShareMinified, ShareQueueMinifiedObj, WINDOW_LENGTH,
};
use std::collections::VecDeque;

fn share(user: &str, time: i32, mode: &str) -> ShareMinified {
    ShareMinified {
        user_name: user.to_string(),
        coin_id: 2423,
        algo: "blake2s".to_string(),
        time,
        share_payout_bits: 1.0f32.to_bits(),
        mode: mode.to_string(),
        party_pass: "".to_string(),
        compressed: false,
    }
}

fn times(q: &VecDeque<ShareMinified>) -> Vec<i32> {
    q.iter().map(|s| s.time).collect()
}

#[test]
fn trim_pops_only_expired_shares() {
    let now: u64 = 10_000;
    let start = (now - WINDOW_LENGTH) as i32; // 2800
    let mut q = VecDeque::new();
    for t in [2700, 2750, 2900, 3000, 3100] {
        add_share_to_queue(&mut q, share("a", t, "normal"));
    }
    trim_shares_queue(&mut q, now);
    // 2700 and 2750 are expired; every share from 2900 on stays.
    assert_eq!(times(&q), vec![2900, 3000, 3100]);
    assert!(start < 2900);
}

#[test]
fn trim_keeps_a_queue_whose_front_is_current() {
    let mut q = VecDeque::new();
    for t in [3000, 3100] {
        add_share_to_queue(&mut q, share("a", t, "normal"));
    }
    trim_shares_queue(&mut q, 10_000);
    assert_eq!(times(&q), vec![3000, 3100]);
    let mut empty: VecDeque<ShareMinified> = VecDeque::new();
    trim_shares_queue(&mut empty, 10_000);
    assert!(empty.is_empty());
}

#[test]
fn trimming_twice_changes_nothing_more_on_a_window_aligned_queue() {
    let mut q = VecDeque::new();
    for t in [100, 200, 2900, 3000] {
        add_share_to_queue(&mut q, share("a", t, "normal"));
    }
    trim_shares_queue(&mut q, 10_000);
    let once = times(&q);
    trim_shares_queue(&mut q, 10_000);
    assert_eq!(times(&q), once);
    assert_eq!(once, vec![2900, 3000]);
}

#[test]
fn trim_keeps_a_share_at_the_window_start() {
    let mut q = VecDeque::new();
    for t in [2799, 2800, 2801] {
        add_share_to_queue(&mut q, share("a", t, "normal"));
    }
    trim_shares_queue(&mut q, 10_000);
    assert_eq!(times(&q), vec![2800, 2801]);
}

#[test]
fn solo_shares_are_not_scored() {
    assert!(is_scored(&share("a", 1, "normal")));
    assert!(is_scored(&share("a", 1, "party")));
    assert!(!is_scored(&share("a", 1, "solo")));
}

#[test]
fn compression_takes_recent_shares_off_the_back() {
    let mut q = VecDeque::new();
    for t in [100, 200, 300, 400] {
        add_share_to_queue(&mut q, share("a", t, "normal"));
    }
    let taken = take_recent_shares(&mut q, 250);
    // 400 and 300 are newer than 250; 200 is popped as the one after them.
    assert_eq!(taken.iter().map(|s| s.time).collect::<Vec<_>>(), vec![400, 300, 200]);
    assert_eq!(times(&q), vec![100]);
}

#[test]
fn compression_takes_the_first_older_share_too() {
    let mut q = VecDeque::new();
    for t in [5, 10, 20] {
        add_share_to_queue(&mut q, share("a", t, "normal"));
    }
    let taken = take_recent_shares(&mut q, 8);
    assert_eq!(taken.iter().map(|s| s.time).collect::<Vec<_>>(), vec![20, 10, 5]);
    assert!(q.is_empty());
    let mut q = VecDeque::new();
    add_share_to_queue(&mut q, share("a", 5, "normal"));
    let taken = take_recent_shares(&mut q, 8);
    assert!(taken.is_empty());
    assert_eq!(times(&q), vec![5]);
}

#[test]
fn merged_share_carries_its_first_share() {
    let mut first = share("alice", 40, "party");
    first.party_pass = "pw".to_string();
    let m = compressed_share(&first, 3.5f32.to_bits());
    assert_eq!(m.user_name, "alice");
    assert_eq!(m.coin_id, 2423);
    assert_eq!(m.algo, "blake2s");
    assert_eq!(m.time, 40);
    assert_eq!(f32::from_bits(m.share_payout_bits), 3.5);
    assert_eq!(m.mode, "party");
    assert_eq!(m.party_pass, "pw");
    assert!(m.compressed);
}

#[test]
fn compression_groups_by_key_in_first_appearance_order() {
    let mut q = VecDeque::new();
    add_share_to_queue(&mut q, share("a", 100, "normal"));
    add_share_to_queue(&mut q, share("b", 300, "normal"));
    add_share_to_queue(&mut q, share("a", 400, "normal"));
    add_share_to_queue(&mut q, share("b", 500, "party"));
    let (taken, groups) = compress_shares_queue(&mut q, 0);
    assert!(q.is_empty());
    assert_eq!(taken.len(), 4);
    let keys: Vec<String> = groups.iter().map(|g| g.key.clone()).collect();
    assert_eq!(keys, vec!["b-2423-blake2s-party-", "a-2423-blake2s-normal-", "b-2423-blake2s-normal-"]);
    assert_eq!(groups[1].positions, vec![1, 3]);
}

#[test]
fn compression_key_and_lookback() {
    let mut s = share("alice", 1, "party");
    s.party_pass = "pw".to_string();
    assert_eq!(compress_key(&s), "alice-2423-blake2s-party-pw");
    assert_eq!(compression_lookback(1_600_000_000), 1_600_000_000 - 360_000_000);
}

#[test]
fn grouping_positions() {
    let keys: Vec<String> = ["x", "y", "x", "z", "y"].iter().map(|k| k.to_string()).collect();
    let groups = group_positions(&keys);
    assert_eq!(groups.len(), 3);
    assert_eq!(groups[0].key, "x");
    assert_eq!(groups[0].positions, vec![0, 2]);
    assert_eq!(groups[1].positions, vec![1, 4]);
    assert_eq!(groups[2].positions, vec![3]);
}

fn worker_share(uuid: &str, ts: i64, coin: i16, algo: &str) -> ShareQueueMinifiedObj {
    ShareQueueMinifiedObj {
        user_name: "u".to_string(),
        timestamp: ts,
        algo: algo.to_string(),
        uuid: uuid.to_string(),
        coin_id: coin,
        worker_name: format!("w-{}", uuid),
        difficulty_bits: 2.0f64.to_bits(),
    }
}

#[test]
fn hashrate_configuration() {
    let config = default_share_processor_config();
    assert_eq!(config.len(), 2);
    assert_eq!(config_window_length(&config, &"2408-argon2d".to_string()), 300);
    assert_eq!(config_algo_target(&config, &"2408-argon2d".to_string()), 65536000);
    assert_eq!(config_algo_target(&config, &"2423-blake2s".to_string()), 1000);
    assert_eq!(config_window_length(&config, &"1-x".to_string()), 300);
    assert_eq!(config_algo_target(&config, &"1-x".to_string()), 1000);
}

#[test]
fn queues_by_coin_and_algorithm() {
    let mut queues: KeyedList<VecDeque<ShareQueueMinifiedObj>> = KeyedList::new();
    queue_share(&mut queues, worker_share("a", 10, 2408, "argon2d"));
    queue_share(&mut queues, worker_share("b", 20, 2423, "blake2s"));
    queue_share(&mut queues, worker_share("c", 30, 2408, "argon2d"));
    assert_eq!(queues.len(), 2);
    let i = queues.index_of(&"2408-argon2d".to_string()).unwrap();
    assert_eq!(queues.value_at(i).len(), 2);
    let config = default_share_processor_config();
    trim_queues(&mut queues, &config, 1000);
    // window start 700: everything is older, all shares go.
    let i = queues.index_of(&"2408-argon2d".to_string()).unwrap();
    assert_eq!(queues.value_at(i).len(), 0);
}

#[test]
fn worker_queue_trim() {
    let mut q = VecDeque::new();
    for t in [5, 6, 20, 30] {
        q.push_back(worker_share("a", t, 1, "x"));
    }
    trim_worker_queue(&mut q, 10);
    assert_eq!(q.iter().map(|s| s.timestamp).collect::<Vec<_>>(), vec![20, 30]);
}

#[test]
fn tallies_per_worker() {
    let mut q = VecDeque::new();
    q.push_back(worker_share("a", 10, 1, "x"));
    q.push_back(worker_share("b", 11, 1, "x"));
    q.push_back(worker_share("a", 15, 1, "x"));
    q.push_back(worker_share("a", 18, 1, "x"));
    let t = tally_workers(&q);
    assert_eq!(t.len(), 2);
    assert_eq!(t[0].uuid, "a");
    assert_eq!(t[0].count, 3);
    assert_eq!(t[0].start_time, 10);
    assert_eq!(t[0].last_share_time, 18);
    assert_eq!(t[0].share_indices, vec![0, 2, 3]);
    assert_eq!(t[1].uuid, "b");
    assert_eq!(t[1].count, 1);
    assert_eq!(t[1].worker_name, "w-b");
}
