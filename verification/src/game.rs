//! The two global state machines: the game's loading/playing lifecycle and
//! the turn cycle. Both are double-buffered: a transition is requested into a
//! "next" slot and committed at a fixed point of the tick.

use vstd::prelude::*;

verus! {

/// The game lifecycle. `Idle` is the unloaded rest state.
#[derive(Clone, Copy, Debug, PartialEq, Eq, Hash, Structural)]
pub enum GameState {
    Idle,
    Loading,
    Loaded,
    Playing,
}

impl Default for GameState {
    fn default() -> (r: Self)
        ensures
            r == GameState::Idle,
    {
        GameState::Idle
    }
}

/// The turn cycle. `Idle` is the rest state outside a level; `Animating` is
/// the transient sub-state entered after a card is played.
#[derive(Clone, Copy, Debug, PartialEq, Eq, Hash, Structural)]
pub enum TurnState {
    Idle,
    Starting,
    Started,
    WaitingForInput,
    Animating,
    Ended,
}

impl Default for TurnState {
    fn default() -> (r: Self)
        ensures
            r == TurnState::Idle,
    {
        TurnState::Idle
    }
}

/// Marker scheduling one buffered advance of the game state machine.
#[derive(Clone, Copy, Debug, PartialEq, Eq, Structural)]
pub struct NextGameState;

/// Marker scheduling one buffered advance of the turn state machine.
#[derive(Clone, Copy, Debug, PartialEq, Eq, Structural)]
pub struct NextTurnState;

/// A state machine whose every state has one successor.
pub trait StateTransition: Sized {
    /// The successor state, as a value.
    spec fn next_spec(&self) -> Self;

    /// Step to the successor state.
    fn next(&self) -> (r: Self)
        ensures
            r == self.next_spec(),
    ;
}

impl StateTransition for GameState {
    open spec fn next_spec(&self) -> Self {
        match *self {
            GameState::Idle => GameState::Loading,
            GameState::Loading => GameState::Loaded,
            GameState::Loaded => GameState::Playing,
            GameState::Playing => GameState::Loaded,
        }
    }

    fn next(&self) -> (r: Self) {
        match self {
            GameState::Idle => GameState::Loading,
            GameState::Loading => GameState::Loaded,
            GameState::Loaded => GameState::Playing,
            GameState::Playing => GameState::Loaded,
        }
    }
}

impl StateTransition for TurnState {
    open spec fn next_spec(&self) -> Self {
        match *self {
            TurnState::Idle => TurnState::Starting,
            TurnState::Starting => TurnState::Started,
            TurnState::Started => TurnState::WaitingForInput,
            TurnState::WaitingForInput => TurnState::Ended,
            TurnState::Animating => TurnState::Started,
            TurnState::Ended => TurnState::Starting,
        }
    }

    fn next(&self) -> (r: Self) {
        match self {
            TurnState::Idle => TurnState::Starting,
            TurnState::Starting => TurnState::Started,
            TurnState::Started => TurnState::WaitingForInput,
            TurnState::WaitingForInput => TurnState::Ended,
            TurnState::Animating => TurnState::Started,
            TurnState::Ended => TurnState::Starting,
        }
    }
}

} // verus!
