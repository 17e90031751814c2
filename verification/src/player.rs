//! The player: a single entity owning its position, resources, deck and hand.

use vstd::prelude::*;

use crate::cards::{Deck, Hand};
use crate::stats::{Energy, GameDirection, GamePosition, Water};

verus! {

/// Marker for the player entity.
#[derive(Clone, Copy, Debug, PartialEq, Eq, Structural)]
pub struct Player;

/// The player's full runtime state. The simulation holds exactly one, so no
/// runtime cardinality check is ever needed.
#[derive(Debug)]
pub struct PlayerBundle {
    pub player: Player,
    pub game_position: GamePosition,
    pub energy: Energy,
    pub water: Water,
    pub deck: Deck,
    pub hand: Hand,
}

impl PlayerBundle {
    /// A fresh player: at (1, 1) facing up, with empty pools of ten, an empty
    /// deck and an empty hand.
    pub fn new() -> (r: Self)
        ensures
            r.game_position == (GamePosition { x: 1, y: 1, d: GameDirection::Up }),
            r.energy == (Energy { current: 0, maximum: 10 }),
            r.water == (Water { current: 0, maximum: 10 }),
            r.deck.cards@.len() == 0,
            r.deck.recycled@.len() == 0,
            r.deck.discarded@.len() == 0,
            r.hand.wf(),
            r.hand.slots() == seq![None::<usize>, None, None, None, None],
    {
        PlayerBundle {
            player: Player,
            game_position: GamePosition { x: 1, y: 1, d: GameDirection::Up },
            energy: Energy { current: 0, maximum: 10 },
            water: Water { current: 0, maximum: 10 },
            deck: Deck::new(),
            hand: Hand::new(),
        }
    }
}

} // verus!
