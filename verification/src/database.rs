//! Helpers of the shared database crate.

use vstd::prelude::*;
use crate::clock::secs_since_epoch;

verus! {

/// The current time in whole seconds since the epoch; `None` where the
/// clock reads earlier than the epoch.
pub fn unix_timestamp() -> (t: Option<u64>) {
    secs_since_epoch()
}

} // verus!
