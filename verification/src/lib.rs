//! Core engine of a turn-based tile puzzle game: a player moves on a grid and
//! extinguishes spreading fire using a deck of action cards with energy/water
//! costs, while the fire grows and propagates at the end of every turn.
//!
//! The crate models the whole turn/action resolution pipeline: deck and hand
//! card flow, facing-relative targeting geometry, deferred action and change
//! records, per-card playability, the turn/game state machines, and the fire
//! simulation with win/loss detection. Rendering, input polling and asset
//! loading are outside collaborators: they drive the simulation by handing it
//! plain events and reading its state back.

pub mod actions;
pub mod cards;
pub mod game;
pub mod items;
pub mod player;
pub mod puzzles;
pub(crate) mod rng;
pub mod sim;
pub mod stats;
pub mod tiles;
