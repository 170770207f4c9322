//! Blocks as the block services store them.

use vstd::prelude::*;
use vstd::string::StringExecFns;
use crate::text::str_eq;

verus! {

/// The mode a block is stored under: a block that names no mode was found
/// by the pool and is stored as "normal".
pub open spec fn stored_mode(mode: Seq<char>) -> Seq<char> {
    if mode.len() == 0 {
        "normal"@
    } else {
        mode
    }
}

/// The mode a block is stored under.
pub fn block_mode(mode: String) -> (stored: String)
    ensures
        stored@ == stored_mode(mode@),
{
    proof {
        reveal_strlit("");
        reveal_strlit("normal");
    }
    if str_eq(mode.as_str(), "") {
        String::from_str("normal")
    } else {
        assert(mode@.len() != 0) by {
            if mode@.len() == 0 {
                assert(mode@ =~= ""@);
            }
        }
        mode
    }
}

} // verus!
