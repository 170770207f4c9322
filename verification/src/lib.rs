//! Verified core of a mining-pool backend: share bookkeeping, payout
//! planning, worker and account state transitions, and the keys and
//! subjects that tie the services together.

pub mod auth;
pub mod blocks;
pub mod clock;
pub mod database;
pub mod earnings;
pub mod enums;
pub mod grouping;
pub mod hashrate;
pub mod keyed;
pub mod keys;
pub mod logwatch;
pub mod maintenance;
pub mod models;
pub mod payout;
pub mod routes;
pub mod text;
pub mod window;
pub mod worker_dict;
pub mod workers;
