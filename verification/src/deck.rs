//! The 32-card deck: ordered construction covering the full suit-by-symbol
//! space, shuffling and cutting through the `rand` crate, and dealing into
//! four hands of eight.

use crate::card::{suit_index, suit_of_nth, symbol_of_nth, symbol_rank, Card};
use crate::hand::Hand;
use rand::prelude::SliceRandom;
use rand::Rng;
use vstd::prelude::*;
use vstd::seq_lib::lemma_multiset_commutative;

verus! {

pub const MAX_CARDS_DECK: usize = 32;

pub const CARD_PER_HAND: usize = 8;

/// The card at position `n` of the ordered deck: suits in declaration
/// order, the eight symbols of each suit consecutive and in rank order.
pub open spec fn ordered_card(n: int) -> Card {
    Card { suit: suit_of_nth(n / 8), symbol: symbol_of_nth(n % 8) }
}

/// The full ordered deck of 32 cards.
pub open spec fn full_deck() -> Seq<Card> {
    Seq::new(32, |n: int| ordered_card(n))
}

/// The ordered deck holds exactly 32 pairwise distinct cards and covers
/// every combination of the four suits with the eight symbols.
pub proof fn lemma_full_deck_properties()
    ensures
        full_deck().len() == 32,
        forall|i: int, j: int| 0 <= i < j < 32 ==> full_deck()[i] != full_deck()[j],
        forall|card: Card| #[trigger] full_deck().contains(card),
{
    assert forall|i: int, j: int| 0 <= i < j < 32 implies full_deck()[i] != full_deck()[j] by {
        assert(i == 8 * (i / 8) + i % 8);
        assert(j == 8 * (j / 8) + j % 8);
        assert(suit_index(suit_of_nth(i / 8)) == i / 8);
        assert(suit_index(suit_of_nth(j / 8)) == j / 8);
        assert(symbol_rank(symbol_of_nth(i % 8)) == i % 8);
        assert(symbol_rank(symbol_of_nth(j % 8)) == j % 8);
    }
    assert forall|card: Card| #[trigger] full_deck().contains(card) by {
        let n = suit_index(card.suit) * 8 + symbol_rank(card.symbol);
        assert(n / 8 == suit_index(card.suit) && n % 8 == symbol_rank(card.symbol));
        assert(full_deck()[n] == card);
    }
}

/// A deck of cards, ready to be shuffled, cut and dealt.
#[derive(Debug)]
pub struct Deck {
    cards: Vec<Card>,
}

impl View for Deck {
    type V = Seq<Card>;

    closed spec fn view(&self) -> Seq<Card> {
        self.cards@
    }
}

/// Relies on rand's `SliceRandom::shuffle` (fed by `rand::thread_rng`):
/// it permutes the slice in place, so only the order of the cards can
/// change.
#[verifier::external_body]
fn shuffle_cards(cards: &mut Vec<Card>)
    ensures
        final(cards)@.len() == old(cards)@.len(),
        final(cards)@.to_multiset() == old(cards)@.to_multiset(),
{
    cards.shuffle(&mut rand::thread_rng());
}

/// Relies on rand's `Rng::gen_range` (fed by `rand::thread_rng`): on the
/// non-empty range `low..high` it returns a value of that range, and it
/// panics only on an empty range, which the precondition rules out.
#[verifier::external_body]
fn random_in_range(low: usize, high: usize) -> (r: usize)
    requires
        low < high,
    ensures
        low <= r < high,
{
    rand::thread_rng().gen_range(low..high)
}

impl Deck {
    pub fn new(cards: Vec<Card>) -> (deck: Deck)
        ensures
            deck@ == cards@,
    {
        Deck { cards }
    }

    pub fn new_empty() -> (deck: Deck)
        ensures
            deck@ == Seq::<Card>::empty(),
    {
        Deck::new(Deck::new_empty_vec_card())
    }

    fn new_empty_vec_card() -> (cards: Vec<Card>)
        ensures
            cards@ == Seq::<Card>::empty(),
    {
        Vec::<Card>::with_capacity(MAX_CARDS_DECK)
    }

    pub fn len(&self) -> (n: usize)
        ensures
            n == self@.len(),
    {
        self.cards.len()
    }

    pub fn card_at(&self, id: usize) -> (card: Card)
        requires
            id < self@.len(),
        ensures
            card == self@[id as int],
    {
        self.cards[id]
    }

    /// Builds the ordered deck: all 32 distinct cards, suit by suit.
    pub fn new_ordered() -> (deck: Deck)
        ensures
            deck@ == full_deck(),
    {
        let mut deck = Deck::new_empty();
        let mut n: usize = 0;
        while n < MAX_CARDS_DECK
            invariant
                n <= 32,
                deck@.len() == n,
                forall|k: int| 0 <= k < n ==> deck@[k] == ordered_card(k),
            decreases 32 - n,
        {
            let suit = crate::card::nth_suit(n / 8);
            let symbol = crate::card::nth_symbol(n % 8);
            deck.cards.push(Card::new(suit, symbol));
            n += 1;
        }
        proof {
            assert(deck@ =~= full_deck());
        }
        deck
    }

    /// An ordered deck put into a uniformly random order.
    pub fn new_shuffled() -> (deck: Deck)
        ensures
            deck@.len() == 32,
            deck@.to_multiset() == full_deck().to_multiset(),
    {
        let mut deck = Deck::new_ordered();
        deck.shuffle();
        deck
    }

    /// Shuffles in place: a permutation, so the multiset of cards is kept.
    pub fn shuffle(&mut self)
        ensures
            final(self)@.len() == old(self)@.len(),
            final(self)@.to_multiset() == old(self)@.to_multiset(),
    {
        shuffle_cards(&mut self.cards);
    }

    /// Cuts the deck at a random position that is neither the first nor
    /// the last: a rotation, the cards before the cut point becoming the
    /// suffix, so the multiset of cards is kept.
    pub fn shuffle_cut(&mut self)
        requires
            old(self)@.len() >= 4,
        ensures
            final(self)@.len() == old(self)@.len(),
            final(self)@.to_multiset() == old(self)@.to_multiset(),
            exists|cut: int|
                1 <= cut < old(self)@.len() - 2 && final(self)@ == old(self)@.subrange(
                    cut,
                    old(self)@.len() as int,
                ) + old(self)@.subrange(0, cut),
    {
        let n = self.cards.len();
        let max_indice = n - 1;
        let cut_indice = random_in_range(1, max_indice - 1);

        let mut top_deck: Vec<Card> = Vec::with_capacity(n);
        let mut j = cut_indice;
        while j < n
            invariant
                cut_indice <= j <= n,
                n == self@.len(),
                top_deck@ == self@.subrange(cut_indice as int, j as int),
            decreases n - j,
        {
            top_deck.push(self.cards[j]);
            proof {
                assert(self@.subrange(cut_indice as int, j + 1) =~= self@.subrange(
                    cut_indice as int,
                    j as int,
                ).push(self@[j as int]));
            }
            j += 1;
        }
        let mut j: usize = 0;
        while j < cut_indice
            invariant
                j <= cut_indice < n,
                n == self@.len(),
                top_deck@ == self@.subrange(cut_indice as int, n as int) + self@.subrange(
                    0,
                    j as int,
                ),
            decreases cut_indice - j,
        {
            top_deck.push(self.cards[j]);
            proof {
                assert(self@.subrange(0, j + 1) =~= self@.subrange(0, j as int).push(
                    self@[j as int],
                ));
                assert(self@.subrange(cut_indice as int, n as int) + self@.subrange(0, j + 1) =~= (
                self@.subrange(cut_indice as int, n as int) + self@.subrange(0, j as int)).push(
                    self@[j as int],
                ));
            }
            j += 1;
        }
        proof {
            let prefix = self@.subrange(0, cut_indice as int);
            let suffix = self@.subrange(cut_indice as int, n as int);
            assert(self@ =~= prefix + suffix);
            lemma_multiset_commutative(prefix, suffix);
            lemma_multiset_commutative(suffix, prefix);
            assert(prefix.to_multiset().add(suffix.to_multiset()) =~= suffix.to_multiset().add(
                prefix.to_multiset(),
            ));
        }
        self.cards = top_deck;
    }

    /// Deals the deck into four hands of eight consecutive cards each.
    pub fn into_hands(&self) -> (hands: Vec<Hand>)
        requires
            self@.len() == 32,
        ensures
            hands@.len() == 4,
            forall|i: int| 0 <= i < 4 ==> #[trigger] hands@[i]@ == self@.subrange(8 * i, 8 * i + 8),
    {
        let mut hands: Vec<Hand> = Vec::with_capacity(4);
        let mut p: usize = 0;
        while p < 4
            invariant
                p <= 4,
                self@.len() == 32,
                hands@.len() == p,
                forall|i: int| 0 <= i < p ==> #[trigger] hands@[i]@ == self@.subrange(
                    8 * i,
                    8 * i + 8,
                ),
            decreases 4 - p,
        {
            let base = p * CARD_PER_HAND;
            let mut hand = Hand::new_empty();
            let mut j: usize = 0;
            while j < CARD_PER_HAND
                invariant
                    j <= 8,
                    base == p * 8,
                    p < 4,
                    self@.len() == 32,
                    hand@.len() == j,
                    forall|k: int| 0 <= k < j ==> hand@[k] == self@[base + k],
                decreases 8 - j,
            {
                hand.push(self.card_at(base + j));
                j += 1;
            }
            proof {
                assert(hand@ =~= self@.subrange(8 * p as int, 8 * p + 8));
            }
            hands.push(hand);
            p += 1;
        }
        hands
    }
}

/// Four hands of eight consecutive cards each cover a 32-card deck exactly
/// once: their concatenation is the deck, and their multisets add up to
/// the deck's multiset with no card lost or duplicated.
pub proof fn lemma_hands_partition_deck(
    h0: Seq<Card>,
    h1: Seq<Card>,
    h2: Seq<Card>,
    h3: Seq<Card>,
    deck: Seq<Card>,
)
    requires
        deck.len() == 32,
        h0 == deck.subrange(0, 8),
        h1 == deck.subrange(8, 16),
        h2 == deck.subrange(16, 24),
        h3 == deck.subrange(24, 32),
    ensures
        h0 + h1 + h2 + h3 == deck,
        h0.to_multiset().add(h1.to_multiset()).add(h2.to_multiset()).add(h3.to_multiset())
            == deck.to_multiset(),
{
    assert(h0 + h1 + h2 + h3 =~= deck);
    lemma_multiset_commutative(h0, h1);
    lemma_multiset_commutative(h0 + h1, h2);
    lemma_multiset_commutative(h0 + h1 + h2, h3);
}

} // verus!
