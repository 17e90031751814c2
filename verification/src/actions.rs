//! Deferred records: the action intents the input layer spawns, the pending
//! value changes that effect resolution emits, and the animation requests the
//! rendering layer consumes. None of these carry logic; the simulation's
//! pipeline resolves them in a fixed order.

use vstd::prelude::*;

use crate::stats::{GameDirection, GamePosition};

verus! {

/// Intent to draw the top card of the deck into the hand.
#[derive(Clone, Copy, Debug, PartialEq, Eq, Structural)]
pub struct Draw;

/// Intent to move `card` from the hand back into the recycled pile.
#[derive(Clone, Copy, Debug, PartialEq, Eq, Structural)]
pub struct Recycle {
    pub card: usize,
}

/// Intent to remove `card` from the drawing pool for good.
#[derive(Clone, Copy, Debug, PartialEq, Eq, Structural)]
pub struct Discard {
    pub card: usize,
}

/// Intent to play `card` from the hand.
#[derive(Clone, Copy, Debug, PartialEq, Eq, Structural)]
pub struct Play {
    pub card: usize,
}

/// A pending card-flow action, resolved by one pipeline pass.
#[derive(Clone, Copy, Debug, PartialEq, Eq, Structural)]
pub enum CardActionType {
    Draw(Draw),
    Recycle(Recycle),
    Discard(Discard),
    Play(Play),
}

/// A deferred assignment: set the addressed entity's component to the carried
/// value. Computed by one system, committed uniformly by the change applier,
/// so every reader within a tick sees pre-mutation state.
#[derive(Clone, Copy, Debug)]
pub struct Change<T> {
    pub entity: usize,
    pub updated_value: T,
}

/// Marker spawned when a card was played and awaits effect resolution.
#[derive(Clone, Copy, Debug, PartialEq, Eq, Structural)]
pub struct WasPlayed(pub usize);

/// A visual effect scheduled for the rendering layer: tint a tile blue, let
/// it smoke, or move/rotate an entity to its new position or facing.
#[derive(Clone, Copy, Debug, PartialEq, Eq, Structural)]
pub enum AnimationType {
    Blue(usize),
    Smoke(usize),
    Rotate(usize, GameDirection),
    Move(usize, GamePosition),
}

/// Tag carried by an entity while an animation plays on it.
#[derive(Clone, Copy, Debug, PartialEq, Eq, Structural)]
pub struct Animating(pub usize);

} // verus!
