//! A trick-taking card game engine for four players: decks, hands, folds
//! (tricks) and the rules that decide which plays are legal under a given
//! trump regime.

pub mod card;
pub mod deck;
pub mod fold;
pub mod game;
pub mod hand;
pub mod player;
pub mod rules;

use vstd::prelude::*;

verus! {

} // verus!
