//! Mining algorithms and share modes, with their numeric and textual codes.

use vstd::prelude::*;
use crate::text::str_eq;

verus! {

/// The mining algorithms the pool distinguishes.
#[derive(Debug, Copy, Clone, PartialEq, Eq, Structural)]
pub enum Algos {
    DEFAULT,
    PRIMARY,
    SECONDARY,
    CUCKOO,
    CUCKOO29,
    EQUIHASH144,
    BEAMHASHII,
    ARGON2D,
    RANDOMX,
    PROGPOW,
    CUCKAROO,
    CUCKATOO,
    BLAKE2S,
}

/// The algorithm named by a textual code; unknown codes give `DEFAULT`.
pub open spec fn algo_from_text(s: Seq<char>) -> Algos {
    if s == "primary"@ {
        Algos::PRIMARY
    } else if s == "secondary"@ {
        Algos::SECONDARY
    } else {
        Algos::DEFAULT
    }
}

/// The algorithm named by a numeric code; unknown codes give `DEFAULT`.
pub open spec fn algo_from_code(v: int) -> Algos {
    if v == 23 {
        Algos::PRIMARY
    } else if v == 35 {
        Algos::SECONDARY
    } else if v == 28 {
        Algos::BLAKE2S
    } else {
        Algos::DEFAULT
    }
}

/// The share-difficulty target of an algorithm.
pub open spec fn algo_target(a: Algos) -> int {
    match a {
        Algos::PRIMARY => 41000,
        Algos::SECONDARY => 20000,
        Algos::CUCKOO => 2100,
        Algos::CUCKOO29 => 200,
        Algos::EQUIHASH144 => 8600000,
        Algos::BEAMHASHII => 8600000,
        Algos::ARGON2D => 65536000,
        Algos::RANDOMX => 1000,
        Algos::PROGPOW => 1000,
        Algos::CUCKAROO => 1024,
        Algos::CUCKATOO => 1024,
        Algos::BLAKE2S => 1000,
        Algos::DEFAULT => 4398046511104,
    }
}

/// The difficulty target of every algorithm: the Cuckaroo and Cuckatoo
/// families (MWC) share 1024, Cuckoo 2100 and Cuckoo29 200, the Equihash
/// and BeamHash variants 8600000, Argon2d (Nimiq) 65536000, RandomX,
/// ProgPoW and Blake2s (Kadena) 1000, the primary and secondary algorithms
/// 41000 and 20000, and the fallback 2^42.
pub proof fn law_algorithm_targets()
    ensures
        algo_target(Algos::PRIMARY) == 41000,
        algo_target(Algos::SECONDARY) == 20000,
        algo_target(Algos::CUCKOO) == 2100,
        algo_target(Algos::CUCKOO29) == 200,
        algo_target(Algos::EQUIHASH144) == 8600000,
        algo_target(Algos::BEAMHASHII) == 8600000,
        algo_target(Algos::ARGON2D) == 65536000,
        algo_target(Algos::RANDOMX) == 1000,
        algo_target(Algos::PROGPOW) == 1000,
        algo_target(Algos::CUCKAROO) == 1024,
        algo_target(Algos::CUCKATOO) == 1024,
        algo_target(Algos::BLAKE2S) == 1000,
        algo_target(Algos::DEFAULT) == 4398046511104,
        algo_target(Algos::CUCKAROO) == algo_target(Algos::CUCKATOO),
        algo_target(Algos::CUCKOO) != algo_target(Algos::CUCKATOO),
{
}

/// The display name of an algorithm (its variant name).
pub open spec fn algo_name(a: Algos) -> Seq<char> {
    match a {
        Algos::DEFAULT => "DEFAULT"@,
        Algos::PRIMARY => "PRIMARY"@,
        Algos::SECONDARY => "SECONDARY"@,
        Algos::CUCKOO => "CUCKOO"@,
        Algos::CUCKOO29 => "CUCKOO29"@,
        Algos::EQUIHASH144 => "EQUIHASH144"@,
        Algos::BEAMHASHII => "BEAMHASHII"@,
        Algos::ARGON2D => "ARGON2D"@,
        Algos::RANDOMX => "RANDOMX"@,
        Algos::PROGPOW => "PROGPOW"@,
        Algos::CUCKAROO => "CUCKAROO"@,
        Algos::CUCKATOO => "CUCKATOO"@,
        Algos::BLAKE2S => "BLAKE2S"@,
    }
}

impl Algos {
    /// Parses the textual algorithm code used in configuration.
    pub fn from_string(value: &str) -> (r: Algos)
        ensures
            r == algo_from_text(value@),
    {
        if str_eq(value, "primary") {
            Algos::PRIMARY
        } else if str_eq(value, "secondary") {
            Algos::SECONDARY
        } else {
            Algos::DEFAULT
        }
    }

    /// Decodes the numeric algorithm code carried by shares.
    pub fn from_i16(value: i16) -> (r: Algos)
        ensures
            r == algo_from_code(value as int),
    {
        if value == 23 {
            Algos::PRIMARY
        } else if value == 35 {
            Algos::SECONDARY
        } else if value == 28 {
            Algos::BLAKE2S
        } else {
            Algos::DEFAULT
        }
    }

    /// The difficulty target of an algorithm. The fallback target of
    /// `DEFAULT`, 2^42, does not fit an `i32`, so `DEFAULT` is excluded.
    pub fn get_target(algo: &Algos) -> (r: i32)
        requires
            *algo != Algos::DEFAULT,
        ensures
            r as int == algo_target(*algo),
            *algo == Algos::PRIMARY ==> r == 41000,
            *algo == Algos::SECONDARY ==> r == 20000,
            *algo == Algos::CUCKOO ==> r == 2100,
            *algo == Algos::CUCKOO29 ==> r == 200,
            *algo == Algos::EQUIHASH144 ==> r == 8600000,
            *algo == Algos::BEAMHASHII ==> r == 8600000,
            *algo == Algos::ARGON2D ==> r == 65536000,
            *algo == Algos::RANDOMX ==> r == 1000,
            *algo == Algos::PROGPOW ==> r == 1000,
            *algo == Algos::CUCKAROO ==> r == 1024,
            *algo == Algos::CUCKATOO ==> r == 1024,
            *algo == Algos::BLAKE2S ==> r == 1000,
    {
        match algo {
            Algos::PRIMARY => 41000,
            Algos::SECONDARY => 20000,
            Algos::CUCKOO => 2100,
            Algos::CUCKOO29 => 200,
            Algos::EQUIHASH144 => 8600000,
            Algos::BEAMHASHII => 8600000,
            Algos::ARGON2D => 65536000,
            Algos::RANDOMX => 1000,
            Algos::PROGPOW => 1000,
            Algos::CUCKAROO => 1024,
            Algos::CUCKATOO => 1024,
            Algos::BLAKE2S => 1000,
            Algos::DEFAULT => 0,
        }
    }

    /// The display name of the algorithm.
    pub fn name(&self) -> (r: &'static str)
        ensures
            r@ == algo_name(*self),
    {
        match self {
            Algos::DEFAULT => "DEFAULT",
            Algos::PRIMARY => "PRIMARY",
            Algos::SECONDARY => "SECONDARY",
            Algos::CUCKOO => "CUCKOO",
            Algos::CUCKOO29 => "CUCKOO29",
            Algos::EQUIHASH144 => "EQUIHASH144",
            Algos::BEAMHASHII => "BEAMHASHII",
            Algos::ARGON2D => "ARGON2D",
            Algos::RANDOMX => "RANDOMX",
            Algos::PROGPOW => "PROGPOW",
            Algos::CUCKAROO => "CUCKAROO",
            Algos::CUCKATOO => "CUCKATOO",
            Algos::BLAKE2S => "BLAKE2S",
        }
    }
}

/// How a share or block is paid: the shared pool, a password party, or solo.
#[derive(Debug, Copy, Clone, PartialEq, Eq, Structural)]
pub enum ShareModes {
    NORMAL,
    PARTY,
    SOLO,
}

/// The textual mode codes that are understood.
pub open spec fn is_mode_text(s: Seq<char>) -> bool {
    s == ""@ || s == "party"@ || s == "solo"@
}

/// The mode named by a textual code (meaningful where `is_mode_text` holds).
pub open spec fn mode_from_text(s: Seq<char>) -> ShareModes {
    if s == "party"@ {
        ShareModes::PARTY
    } else if s == "solo"@ {
        ShareModes::SOLO
    } else {
        ShareModes::NORMAL
    }
}

/// The mode named by a numeric code (meaningful for codes 0, 1 and 2).
pub open spec fn mode_from_code(v: int) -> ShareModes {
    if v == 1 {
        ShareModes::PARTY
    } else if v == 2 {
        ShareModes::SOLO
    } else {
        ShareModes::NORMAL
    }
}

/// The display name of a mode (its variant name).
pub open spec fn mode_name(m: ShareModes) -> Seq<char> {
    match m {
        ShareModes::NORMAL => "NORMAL"@,
        ShareModes::PARTY => "PARTY"@,
        ShareModes::SOLO => "SOLO"@,
    }
}

impl ShareModes {
    /// Parses a textual mode code; only "", "party" and "solo" are codes.
    pub fn from_string(value: &str) -> (r: ShareModes)
        requires
            is_mode_text(value@),
        ensures
            r == mode_from_text(value@),
    {
        if str_eq(value, "party") {
            ShareModes::PARTY
        } else if str_eq(value, "solo") {
            ShareModes::SOLO
        } else {
            ShareModes::NORMAL
        }
    }

    /// Decodes a numeric mode code; only 0, 1 and 2 are codes.
    pub fn from_i16(value: i16) -> (r: ShareModes)
        requires
            0 <= value <= 2,
        ensures
            r == mode_from_code(value as int),
    {
        if value == 1 {
            ShareModes::PARTY
        } else if value == 2 {
            ShareModes::SOLO
        } else {
            ShareModes::NORMAL
        }
    }

    /// The display name of the mode.
    pub fn name(&self) -> (r: &'static str)
        ensures
            r@ == mode_name(*self),
    {
        match self {
            ShareModes::NORMAL => "NORMAL",
            ShareModes::PARTY => "PARTY",
            ShareModes::SOLO => "SOLO",
        }
    }
}

} // verus!
