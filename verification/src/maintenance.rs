//! Sweeping the workers table: which workers go, on which coins, and from
//! what time back.

use vstd::prelude::*;

verus! {

/// Seconds a worker may stay disconnected, or silent, before it is swept:
/// thirty minutes.
pub const CLEANUP_LOOKBACK: u64 = 1800;

/// Which workers a sweep deletes.
#[derive(Clone, Copy, Debug, PartialEq, Eq, Structural)]
pub enum SweepKind {
    /// Workers not heard from since the cutoff.
    Stale,
    /// Workers disconnected since before the cutoff.
    Disconnected,
}

/// One delete of the workers sweep: the kind of worker, the coin, and the
/// time (seconds since the epoch) before which a worker goes.
#[derive(Clone, Copy, Debug, PartialEq, Eq, Structural)]
pub struct Sweep {
    pub kind: SweepKind,
    pub coin_id: i32,
    pub before: i32,
}

/// The cutoff of a sweep run at `now_secs`, as the database column holds it.
pub open spec fn sweep_cutoff(now_secs: u64) -> i32 {
    (now_secs - CLEANUP_LOOKBACK) as i32
}

/// The deletes of one sweep run at `now_secs`, in order: stale workers of
/// coins 2423 and 2408, then disconnected workers of coins 2408 and 2423.
pub open spec fn sweeps_at(now_secs: u64) -> Seq<Sweep> {
    let t = sweep_cutoff(now_secs);
    seq![
        Sweep { kind: SweepKind::Stale, coin_id: 2423, before: t },
        Sweep { kind: SweepKind::Stale, coin_id: 2408, before: t },
        Sweep { kind: SweepKind::Disconnected, coin_id: 2408, before: t },
        Sweep { kind: SweepKind::Disconnected, coin_id: 2423, before: t },
    ]
}

/// Plans the workers sweep run at `now_secs` (seconds since the epoch).
pub fn workers_sweep(now_secs: u64) -> (plan: Vec<Sweep>)
    requires
        now_secs >= CLEANUP_LOOKBACK,
    ensures
        plan@ == sweeps_at(now_secs),
{
    let before = (now_secs - CLEANUP_LOOKBACK) as i32;
    let mut plan: Vec<Sweep> = Vec::new();
    plan.push(Sweep { kind: SweepKind::Stale, coin_id: 2423, before });
    plan.push(Sweep { kind: SweepKind::Stale, coin_id: 2408, before });
    plan.push(Sweep { kind: SweepKind::Disconnected, coin_id: 2408, before });
    plan.push(Sweep { kind: SweepKind::Disconnected, coin_id: 2423, before });
    assert(plan@ =~= sweeps_at(now_secs));
    plan
}

/// Seconds the shares table keeps a share: one day.
pub const SHARE_RETENTION: u64 = 86400;

/// The time (seconds since the epoch) before which shares are deleted from
/// the shares table, at `now_secs`.
pub fn share_retention_cutoff(now_secs: u64) -> (cutoff: i64)
    requires
        now_secs >= SHARE_RETENTION,
    ensures
        cutoff == (now_secs - SHARE_RETENTION) as i64,
{
    (now_secs - SHARE_RETENTION) as i64
}

} // verus!
