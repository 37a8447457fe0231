//! Plain models of the fixed enumerations the host exposes: outcome codes
//! of order execution, movement directions, and worker body-part tokens.
//! The host reports one outcome code per order, synchronously; the library
//! never inspects codes beyond `Ok` vs. not-`Ok` except where a branch is
//! explicit.

use vstd::prelude::*;

verus! {

/// Outcome code the host reports for one issued order.
#[derive(Clone, Copy, PartialEq, Eq, Structural, Debug)]
pub enum ReturnCode {
    Okay,
    NotOwner,
    NoPath,
    NameExists,
    Busy,
    NotFound,
    NotEnough,
    InvalidTarget,
    Full,
    NotInRange,
    InvalidArgs,
    Tired,
    NoBodypart,
    RclNotEnough,
}

/// One of the eight directions a worker can be ordered to move in.
#[derive(Clone, Copy, PartialEq, Eq, Structural, Debug)]
pub enum Direction {
    Top,
    TopRight,
    Right,
    BottomRight,
    Bottom,
    BottomLeft,
    Left,
    TopLeft,
}

/// Body-part token of a worker composition, as handed to a production order.
#[derive(Clone, Copy, PartialEq, Eq, Structural, Debug)]
pub enum Part {
    Move,
    Work,
    Carry,
    Attack,
    RangedAttack,
    Tough,
    Heal,
    Claim,
}

/// Resource cost of one body part, as the host prices them.
pub open spec fn spec_part_cost(p: Part) -> u32 {
    match p {
        Part::Move => 50,
        Part::Work => 100,
        Part::Carry => 50,
        Part::Attack => 80,
        Part::RangedAttack => 150,
        Part::Tough => 10,
        Part::Heal => 250,
        Part::Claim => 600,
    }
}

impl Part {
    /// Resource cost of this body part.
    pub fn cost(&self) -> (c: u32)
        ensures
            c == spec_part_cost(*self),
    {
        match self {
            Part::Move => 50,
            Part::Work => 100,
            Part::Carry => 50,
            Part::Attack => 80,
            Part::RangedAttack => 150,
            Part::Tough => 10,
            Part::Heal => 250,
            Part::Claim => 600,
        }
    }
}

/// A full resource node regenerates this much resource per regeneration cycle.
pub const SOURCE_ENERGY_CAPACITY: u32 = 3000;

/// Length, in ticks, of a resource node's regeneration cycle.
pub const ENERGY_REGEN_TIME: u32 = 300;

} // verus!
