//! Players: a seat asked for the index of the card it wants to play.

use crate::card::Card;
use crate::hand::Hand;
use vstd::prelude::*;

verus! {

/// A player policy: asked for the position, in their hand, of the card
/// they want to play. `chosen_card_id` is the choice itself, as a pure
/// function of the hand the player sees; `play_card_id` computes it.
pub trait Player {
    spec fn chosen_card_id(&self, hand: Seq<Card>) -> usize;

    fn play_card_id(&self, hand: &Hand) -> (id: usize)
        ensures
            id == self.chosen_card_id(hand@),
    ;
}

/// The simplest player: always plays the first card of their hand.
pub struct BasicPlayer {}

impl BasicPlayer {
    pub fn new() -> (player: BasicPlayer) {
        BasicPlayer {  }
    }
}

impl Player for BasicPlayer {
    open spec fn chosen_card_id(&self, hand: Seq<Card>) -> usize {
        0
    }

    fn play_card_id(&self, _hand: &Hand) -> usize {
        0
    }
}

} // verus!
