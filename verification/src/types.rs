use vstd::prelude::*;

use crate::json::{json_str, Jv, JsonValue};
use crate::serialization::{Serializable, SerializationCtx};

verus! {

/// Directions on the creature grid, plus the axes and rotations used by movement.
#[derive(Copy, Clone, Debug, PartialEq, Eq, Structural)]
pub enum Direction {
    UP,
    DOWN,
    LEFT,
    RIGHT,
    CLOCKWISE,
    COUNTERCLOCKWISE,
    ROTATION,
    VERTICAL,
    HORIZONTAL,
}

impl Direction {
    /// The four grid directions in which a cell may have a neighbour.
    pub open spec fn is_cardinal(self) -> bool {
        self is UP || self is DOWN || self is LEFT || self is RIGHT
    }
}

/// The name a direction is written out with.
pub open spec fn direction_name(d: Direction) -> Seq<char> {
    match d {
        Direction::UP => "UP"@,
        Direction::DOWN => "DOWN"@,
        Direction::LEFT => "LEFT"@,
        Direction::RIGHT => "RIGHT"@,
        Direction::CLOCKWISE => "CLOCKWISE"@,
        Direction::COUNTERCLOCKWISE => "COUNTERCLOCKWISE"@,
        Direction::ROTATION => "ROTATION"@,
        Direction::VERTICAL => "VERTICAL"@,
        Direction::HORIZONTAL => "HORIZONTAL"@,
    }
}

impl Direction {
    pub fn name(&self) -> (r: &'static str)
        ensures
            r@ == direction_name(*self),
    {
        match self {
            Direction::UP => "UP",
            Direction::DOWN => "DOWN",
            Direction::LEFT => "LEFT",
            Direction::RIGHT => "RIGHT",
            Direction::CLOCKWISE => "CLOCKWISE",
            Direction::COUNTERCLOCKWISE => "COUNTERCLOCKWISE",
            Direction::ROTATION => "ROTATION",
            Direction::VERTICAL => "VERTICAL",
            Direction::HORIZONTAL => "HORIZONTAL",
        }
    }
}

impl Serializable for Direction {
    /// A direction is written out as its name.
    fn serialize(&self, ctx: &mut SerializationCtx) -> (r: JsonValue)
        ensures
            r@ == Jv::Str(direction_name(*self)),
            *final(ctx) == *old(ctx),
    {
        json_str(self.name())
    }
}

/// A grid coordinate: (x, y).
pub type Coord = (i8, i8);

/// Why and when an individual died.
pub struct DeathContext {
    pub step: usize,
    pub reason: DeathReason,
}

impl DeathContext {
    pub fn new(reason: DeathReason, step: usize) -> (r: DeathContext)
        ensures
            r.reason == reason,
            r.step == step,
    {
        DeathContext { reason: reason, step: step }
    }
}

/// The causes of death.
#[derive(Copy, Clone, Debug, PartialEq, Eq, Structural)]
pub enum DeathReason {
    Placement,
}

} // verus!
