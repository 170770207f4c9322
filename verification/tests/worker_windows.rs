use icemining::enums::Algos;
use icemining::worker_dict::{worker_windows, HashrateShare};
use std::collections::VecDeque;

fn share(user: i32, worker: &str, ts: i64) -> HashrateShare {
    HashrateShare {
        user_id: user,
        timestamp: ts,
        algo: Algos::CUCKATOO,
        worker_id: 1,
        coin_id: 2422,
        worker_name: worker.to_string(),
        difficulty_bits: 2.3f64.to_bits(),
    }
}

#[test]
fn windows_count_every_share() {
    let mut q = VecDeque::new();
    q.push_back(share(11111, "rig", 100));
    q.push_back(share(22222, "rig", 105));
    q.push_back(share(11111, "rig", 110));
    q.push_back(share(11111, "rig", 130));
    let d = worker_windows(&q);
    assert_eq!(d.len(), 2);
    assert_eq!(d.key_at(0), "2422-CUCKATOO-11111-rig");
    let w = d.value_at(0);
    assert_eq!(w.start_time, 100);
    assert_eq!(w.end_time, 130);
    assert_eq!(w.count, 3);
    assert_eq!(w.added, vec![0, 2, 3]);
    let w = d.value_at(1);
    assert_eq!(w.count, 1);
    assert_eq!(w.start_time, 105);
    assert_eq!(w.end_time, 105);
    assert_eq!(w.added, vec![1]);
}

#[test]
fn empty_queue_has_no_windows() {
    let q: VecDeque<HashrateShare> = VecDeque::new();
    assert_eq!(worker_windows(&q).len(), 0);
}
