//! The fold (trick) in progress: an append-only sequence of at most four
//! cards in seating order, drainable at trick end.

use crate::card::{Card, Suit};
use std::mem;
use vstd::prelude::*;

verus! {

/// The most cards a fold can hold: one per seated player.
pub const MAX_CARDS_FOLD: usize = 4;

/// The cards played so far in the current trick, in seating order.
pub struct Fold {
    pub cards: Vec<Card>,
}

impl View for Fold {
    type V = Seq<Card>;

    open spec fn view(&self) -> Seq<Card> {
        self.cards@
    }
}

impl Fold {
    pub fn new_empty() -> (fold: Fold)
        ensures
            fold@ == Seq::<Card>::empty(),
    {
        let cards = Vec::with_capacity(MAX_CARDS_FOLD);
        Fold::new(cards)
    }

    pub fn new(cards: Vec<Card>) -> (fold: Fold)
        requires
            cards@.len() <= MAX_CARDS_FOLD,
        ensures
            fold@ == cards@,
    {
        Fold { cards }
    }

    pub fn len(&self) -> (n: usize)
        ensures
            n == self@.len(),
    {
        self.cards.len()
    }

    /// True exactly once all four seats have played.
    pub fn is_over(&self) -> (r: bool)
        ensures
            r == (self@.len() >= MAX_CARDS_FOLD),
    {
        self.cards.len() >= MAX_CARDS_FOLD
    }

    /// Empties the fold and returns its contents, so that a finished
    /// trick's cards can be recycled into a fresh deck.
    pub fn get_cards(&mut self) -> (cards: Vec<Card>)
        ensures
            cards@ == old(self)@,
            final(self)@ == Seq::<Card>::empty(),
    {
        let mut taken: Vec<Card> = Vec::with_capacity(MAX_CARDS_FOLD);
        mem::swap(&mut self.cards, &mut taken);
        taken
    }

    /// Appends a card when the fold still has room; a push on a full fold
    /// is rejected and leaves the fold unchanged.
    pub fn push(&mut self, card: Card)
        ensures
            old(self)@.len() < MAX_CARDS_FOLD ==> final(self)@ == old(self)@.push(card),
            old(self)@.len() >= MAX_CARDS_FOLD ==> final(self)@ == old(self)@,
    {
        if self.cards.len() < MAX_CARDS_FOLD {
            self.cards.push(card);
        }
    }

    /// The suit led in this trick: the suit of the first card played.
    /// Fails exactly when no card has been played yet.
    pub fn get_main_suit(&self) -> (r: Result<Suit, &'static str>)
        ensures
            r is Err <==> self@.len() == 0,
            self@.len() > 0 ==> r == Ok::<Suit, &'static str>(self@[0].suit),
    {
        if self.cards.len() == 0 {
            Err("fold is empty no main color")
        } else {
            Ok(self.cards[0].suit)
        }
    }
}

} // verus!
