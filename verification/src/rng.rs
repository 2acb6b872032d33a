//! Randomness at the edge of the engine: one trusted draw of a bounded
//! integer, and the verified mappings that turn such draws into values.

use vstd::prelude::*;
use rand::Rng;
use crate::defs::{AttributeLevel, Random, Role};

verus! {

/// Relies on rand::thread_rng and rand::Rng::gen_range: `gen_range(0..n)`
/// returns a value in `[0, n)` and panics only when the range is empty.
/// Nothing more is assumed of the draw.
#[verifier::external_body]
pub fn random_below(n: u32) -> (r: u32)
    requires
        1 <= n,
    ensures
        r < n,
{
    rand::thread_rng().gen_range(0..n)
}

/// The capability tag standing at the given position of the fixed draw
/// order. The degenerate Nitwit tag has no position: a random draw never
/// produces a useless worker.
pub open spec fn role_of_index(i: int) -> Role {
    if i == 0 {
        Role::Elder
    } else if i == 1 {
        Role::Leader
    } else if i == 2 {
        Role::StrongholdMaster
    } else if i == 3 {
        Role::Warrior
    } else if i == 4 {
        Role::Farmer
    } else if i == 5 {
        Role::Hunter
    } else if i == 6 {
        Role::Gatherer
    } else if i == 7 {
        Role::Carpenter
    } else if i == 8 {
        Role::Stonemason
    } else if i == 9 {
        Role::Blacksmith
    } else if i == 10 {
        Role::Tailor
    } else if i == 11 {
        Role::Cook
    } else if i == 12 {
        Role::Healer
    } else if i == 13 {
        Role::Herbalist
    } else if i == 14 {
        Role::Alchemist
    } else if i == 15 {
        Role::Miner
    } else if i == 16 {
        Role::Builder
    } else if i == 17 {
        Role::Scientist
    } else {
        Role::Trader
    }
}

/// Executable form of `role_of_index`.
pub fn role_from_index(i: u32) -> (r: Role)
    requires
        i < 19,
    ensures
        r == role_of_index(i as int),
        r != Role::Nitwit,
{
    match i {
        0 => Role::Elder,
        1 => Role::Leader,
        2 => Role::StrongholdMaster,
        3 => Role::Warrior,
        4 => Role::Farmer,
        5 => Role::Hunter,
        6 => Role::Gatherer,
        7 => Role::Carpenter,
        8 => Role::Stonemason,
        9 => Role::Blacksmith,
        10 => Role::Tailor,
        11 => Role::Cook,
        12 => Role::Healer,
        13 => Role::Herbalist,
        14 => Role::Alchemist,
        15 => Role::Miner,
        16 => Role::Builder,
        17 => Role::Scientist,
        _ => Role::Trader,
    }
}

/// The attribute level standing at the given position of the fixed draw
/// order.
pub open spec fn level_of_index(i: int) -> AttributeLevel {
    if i == 0 {
        AttributeLevel::Excellent
    } else if i == 1 {
        AttributeLevel::Good
    } else if i == 2 {
        AttributeLevel::Average
    } else if i == 3 {
        AttributeLevel::Poor
    } else {
        AttributeLevel::Terrible
    }
}

/// Executable form of `level_of_index`.
pub fn level_from_index(i: u32) -> (r: AttributeLevel)
    ensures
        r == level_of_index(i as int),
{
    match i {
        0 => AttributeLevel::Excellent,
        1 => AttributeLevel::Good,
        2 => AttributeLevel::Average,
        3 => AttributeLevel::Poor,
        _ => AttributeLevel::Terrible,
    }
}

impl Random for Role {
    /// A uniformly drawn tag; never the degenerate Nitwit tag.
    fn random() -> (r: Role)
        ensures
            r != Role::Nitwit,
    {
        let i = random_below(19);
        role_from_index(i)
    }
}

impl Random for AttributeLevel {
    /// A uniformly drawn level; any of the five may come back.
    fn random() -> AttributeLevel {
        let i = random_below(5);
        level_from_index(i)
    }
}

} // verus!
