//! A player's hand: the cards one seat owns for the duration of a deal,
//! with membership and suit-presence queries used by the rule engine.

use crate::card::{Card, Suit};
use vstd::prelude::*;
use vstd::seq_lib::group_to_multiset_ensures;

verus! {

/// True when some card of `cards` is of suit `suit`.
pub open spec fn seq_has_suit(cards: Seq<Card>, suit: Suit) -> bool {
    exists|i: int| 0 <= i < cards.len() && cards[i].suit == suit
}

/// The cards one player holds. Playing a card removes it with swap-remove
/// semantics: hand order carries no meaning, only membership does.
#[derive(Debug)]
pub struct Hand {
    cards: Vec<Card>,
}

impl View for Hand {
    type V = Seq<Card>;

    closed spec fn view(&self) -> Seq<Card> {
        self.cards@
    }
}

impl Hand {
    pub fn new(cards: Vec<Card>) -> (hand: Hand)
        ensures
            hand@ == cards@,
    {
        Hand { cards }
    }

    pub fn new_empty() -> (hand: Hand)
        ensures
            hand@ == Seq::<Card>::empty(),
    {
        let cards = Vec::with_capacity(8);
        Hand::new(cards)
    }

    pub fn push(&mut self, card: Card)
        ensures
            final(self)@ == old(self)@.push(card),
    {
        self.cards.push(card);
    }

    pub fn len(&self) -> (n: usize)
        ensures
            n == self@.len(),
    {
        self.cards.len()
    }

    /// Removes and returns the card at position `id`; the last card takes
    /// its place. Fails, without touching the hand, when `id` is out of
    /// `[0, len)`.
    pub fn play_a_card(&mut self, id: usize) -> (r: Result<Card, &'static str>)
        ensures
            r is Ok <==> id < old(self)@.len(),
            id < old(self)@.len() ==> {
                &&& r == Ok::<Card, &'static str>(old(self)@[id as int])
                &&& final(self)@ == old(self)@.update(id as int, old(self)@.last()).drop_last()
                &&& final(self)@.to_multiset() == old(self)@.to_multiset().remove(
                    old(self)@[id as int],
                )
            },
            r is Err ==> final(self)@ == old(self)@,
    {
        if id >= self.cards.len() {
            Err("id out of scope")
        } else {
            let card = self.cards.swap_remove(id);
            proof {
                lemma_swap_remove_to_multiset(old(self)@, id as int);
            }
            Ok(card)
        }
    }

    /// Read-only variant of [`Hand::play_a_card`]: returns the card at
    /// position `id` without removing it.
    pub fn get_a_card(&self, id: usize) -> (r: Result<Card, &'static str>)
        ensures
            r is Ok <==> id < self@.len(),
            id < self@.len() ==> r == Ok::<Card, &'static str>(self@[id as int]),
    {
        if id >= self.cards.len() {
            Err("id out of scope")
        } else {
            Ok(self.cards[id])
        }
    }

    pub fn contains(&self, card: &Card) -> (r: bool)
        ensures
            r == self@.contains(*card),
    {
        let mut i: usize = 0;
        while i < self.cards.len()
            invariant
                i <= self@.len(),
                forall|j: int| 0 <= j < i ==> self@[j] != *card,
            decreases self@.len() - i,
        {
            if self.cards[i] == *card {
                return true;
            }
            i += 1;
        }
        false
    }

    pub fn contains_suit(&self, suit: &Suit) -> (r: bool)
        ensures
            r == seq_has_suit(self@, *suit),
    {
        let mut contains_suit = false;
        let mut i: usize = 0;
        while i < self.cards.len()
            invariant
                i <= self@.len(),
                contains_suit == seq_has_suit(self@.take(i as int), *suit),
            decreases self@.len() - i,
        {
            if self.cards[i].suit == *suit {
                contains_suit = true;
            }
            proof {
                assert(self@.take(i + 1).drop_last() =~= self@.take(i as int));
                assert(self@.take(i + 1).last() == self@[i as int]);
                assert(seq_has_suit(self@.take(i + 1), *suit) == (contains_suit));
            }
            i += 1;
        }
        proof {
            assert(self@.take(self@.len() as int) =~= self@);
        }
        contains_suit
    }
}

/// Removing position `i` by swap-remove (move the last card into `i`, then
/// drop the last slot) removes exactly the card `s[i]` from the multiset.
pub proof fn lemma_swap_remove_to_multiset(s: Seq<Card>, i: int)
    requires
        0 <= i < s.len(),
    ensures
        s.update(i, s.last()).drop_last().to_multiset() == s.to_multiset().remove(s[i]),
{
    broadcast use group_to_multiset_ensures;

    let n = s.len() as int;
    if i == n - 1 {
        assert(s.update(i, s.last()) =~= s);
        assert(s.drop_last() =~= s.remove(i));
    } else {
        let a = s.take(i);
        let b = s.subrange(i + 1, n - 1);
        let t = s.update(i, s.last()).drop_last();
        assert(t =~= a + (seq![s.last()] + b));
        assert(s.remove(i) =~= a + (b + seq![s.last()]));
        vstd::seq_lib::lemma_multiset_commutative(a, seq![s.last()] + b);
        vstd::seq_lib::lemma_multiset_commutative(a, b + seq![s.last()]);
        vstd::seq_lib::lemma_multiset_commutative(seq![s.last()], b);
        vstd::seq_lib::lemma_multiset_commutative(b, seq![s.last()]);
        assert(t.to_multiset() == s.remove(i).to_multiset());
    }
}

} // verus!
