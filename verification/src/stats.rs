//! Player resources (energy, water) and the facing-relative position math
//! that every card's movement and targeting is expressed in.

use vstd::prelude::*;

use crate::cards::Rotation;

verus! {

/// The player's energy pool, spent by movement cards.
#[derive(Clone, Copy, Debug, PartialEq, Eq, Structural)]
pub struct Energy {
    pub current: i32,
    pub maximum: i32,
}

/// The player's water pool, spent by extinguishing cards.
#[derive(Clone, Copy, Debug, PartialEq, Eq, Structural)]
pub struct Water {
    pub current: i32,
    pub maximum: i32,
}

/// The four facings a positioned entity can have.
#[derive(Clone, Copy, Debug, PartialEq, Eq, Structural)]
pub enum GameDirection {
    Up,
    Down,
    Left,
    Right,
}

impl Default for GameDirection {
    fn default() -> (r: Self)
        ensures
            r == GameDirection::Up,
    {
        GameDirection::Up
    }
}

/// A grid coordinate together with a facing. The facing decides how
/// forward/tangent offsets and rotations are interpreted.
#[derive(Clone, Copy, Debug, PartialEq, Eq, Structural)]
pub struct GamePosition {
    pub x: i32,
    pub y: i32,
    pub d: GameDirection,
}

impl GamePosition {
    /// The x coordinate reached by moving `f` steps along the facing and `t`
    /// steps along its tangent, in unbounded integer arithmetic.
    pub open spec fn offset_x(self, f: int, t: int) -> int {
        match self.d {
            GameDirection::Up => self.x + t,
            GameDirection::Down => self.x - t,
            GameDirection::Left => self.x - f,
            GameDirection::Right => self.x + f,
        }
    }

    /// The y coordinate reached by moving `f` steps along the facing and `t`
    /// steps along its tangent, in unbounded integer arithmetic.
    pub open spec fn offset_y(self, f: int, t: int) -> int {
        match self.d {
            GameDirection::Up => self.y + f,
            GameDirection::Down => self.y - f,
            GameDirection::Left => self.y + t,
            GameDirection::Right => self.y - t,
        }
    }

    /// Whether the position reached by `(f, t)` still fits in the coordinate type.
    pub open spec fn offset_fits(self, f: int, t: int) -> bool {
        &&& i32::MIN <= self.offset_x(f, t) <= i32::MAX
        &&& i32::MIN <= self.offset_y(f, t) <= i32::MAX
    }

    /// The position reached by `(f, t)`, as a value (meaningful when it fits).
    pub open spec fn offset_spec(self, f: int, t: int) -> GamePosition {
        GamePosition { x: self.offset_x(f, t) as i32, y: self.offset_y(f, t) as i32, d: self.d }
    }

    /// Translate relative to the current facing: `by.0` steps forward and
    /// `by.1` steps along the tangent. The facing itself is unchanged.
    pub fn offset(&self, by: (i32, i32)) -> (r: Self)
        requires
            self.offset_fits(by.0 as int, by.1 as int),
        ensures
            r == self.offset_spec(by.0 as int, by.1 as int),
    {
        match self.d {
            GameDirection::Up => Self { y: self.y + by.0, x: self.x + by.1, ..*self },
            GameDirection::Down => Self { y: self.y - by.0, x: self.x - by.1, ..*self },
            GameDirection::Left => Self { x: self.x - by.0, y: self.y + by.1, ..*self },
            GameDirection::Right => Self { x: self.x + by.0, y: self.y - by.1, ..*self },
        }
    }

    /// The facing after applying a rotation, as a fixed four-state table.
    pub open spec fn rotated_dir(self, rotation: Rotation) -> GameDirection {
        match rotation {
            Rotation::Identity => self.d,
            Rotation::Right => match self.d {
                GameDirection::Up => GameDirection::Right,
                GameDirection::Right => GameDirection::Down,
                GameDirection::Down => GameDirection::Left,
                GameDirection::Left => GameDirection::Up,
            },
            Rotation::Left => match self.d {
                GameDirection::Up => GameDirection::Left,
                GameDirection::Left => GameDirection::Down,
                GameDirection::Down => GameDirection::Right,
                GameDirection::Right => GameDirection::Up,
            },
            Rotation::Reverse => match self.d {
                GameDirection::Up => GameDirection::Down,
                GameDirection::Down => GameDirection::Up,
                GameDirection::Left => GameDirection::Right,
                GameDirection::Right => GameDirection::Left,
            },
        }
    }

    /// The same coordinates with the facing mapped through the rotation table.
    pub open spec fn rotated_spec(self, rotation: Rotation) -> GamePosition {
        GamePosition { d: self.rotated_dir(rotation), ..self }
    }

    /// Map the facing through the rotation table; coordinates are unchanged.
    pub fn rotated(&self, rotation: &Rotation) -> (r: Self)
        ensures
            r == self.rotated_spec(*rotation),
    {
        match (&self.d, rotation) {
            (GameDirection::Up, Rotation::Right) => Self { d: GameDirection::Right, ..*self },
            (GameDirection::Down, Rotation::Right) => Self { d: GameDirection::Left, ..*self },
            (GameDirection::Left, Rotation::Right) => Self { d: GameDirection::Up, ..*self },
            (GameDirection::Right, Rotation::Right) => Self { d: GameDirection::Down, ..*self },
            (GameDirection::Up, Rotation::Left) => Self { d: GameDirection::Left, ..*self },
            (GameDirection::Down, Rotation::Left) => Self { d: GameDirection::Right, ..*self },
            (GameDirection::Left, Rotation::Left) => Self { d: GameDirection::Down, ..*self },
            (GameDirection::Right, Rotation::Left) => Self { d: GameDirection::Up, ..*self },
            (GameDirection::Up, Rotation::Reverse) => Self { d: GameDirection::Down, ..*self },
            (GameDirection::Down, Rotation::Reverse) => Self { d: GameDirection::Up, ..*self },
            (GameDirection::Left, Rotation::Reverse) => Self { d: GameDirection::Right, ..*self },
            (GameDirection::Right, Rotation::Reverse) => Self { d: GameDirection::Left, ..*self },
            (_, Rotation::Identity) => *self,
        }
    }
}

/// Law: reversing the facing twice returns it to the original value.
pub proof fn lemma_reverse_twice(p: GamePosition)
    ensures
        p.rotated_spec(Rotation::Reverse).rotated_spec(Rotation::Reverse) == p,
{
}

/// Law: rotating right four times returns the facing to the original value.
pub proof fn lemma_right_four_times(p: GamePosition)
    ensures
        p.rotated_spec(Rotation::Right).rotated_spec(Rotation::Right).rotated_spec(
            Rotation::Right,
        ).rotated_spec(Rotation::Right) == p,
{
}

/// Law: moving `d` steps forward and then `d` steps backward returns to the
/// original position, for any facing, whenever the intermediate coordinates
/// fit in the coordinate type.
pub proof fn lemma_offset_round_trip(p: GamePosition, d: int)
    requires
        p.offset_fits(d, 0),
    ensures
        p.offset_spec(d, 0).offset_spec(-d, 0) == p,
{
}

} // verus!
