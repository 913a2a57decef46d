//! The trick validation engine: the trump regime in force (`GameContext`),
//! the `Rule` contract, and its two policies — permissive `NoRule` and the
//! trump-following `DefaultRule`.

use crate::card::{symbol_rank, Card, Suit, Symbol};
use crate::fold::Fold;
use crate::hand::{seq_has_suit, Hand};
use vstd::prelude::*;

verus! {

/// The trump regime of a deal: every suit is trump, no suit is trump, or
/// one designated trump suit. Chosen once per deal and immutable after.
#[derive(Debug, Copy, Clone, PartialEq, Eq, Structural)]
pub enum GameContext {
    ToutAtout,
    SansAtout,
    Atout(Suit),
}

/// The trump-raise condition: a trump play must rank at least as high as
/// the lowest trump already played in the fold. Holds vacuously when the
/// fold has no trump yet.
pub open spec fn raises_over_played_atouts(fold: Seq<Card>, suit_atout: Suit, symbol: Symbol) -> bool {
    !seq_has_suit(fold, suit_atout) || exists|i: int|
        0 <= i < fold.len() && fold[i].suit == suit_atout && symbol_rank(fold[i].symbol)
            <= symbol_rank(symbol)
}

/// Strength of a card within a fold: any trump beats any card of the led
/// suit, which beats any discard; cards of the same class compare by rank.
/// Discards can never win, so they all get the lowest strength.
pub open spec fn card_power(card: Card, suit_atout: Suit, main_suit: Suit) -> int {
    if card.suit == suit_atout {
        16 + symbol_rank(card.symbol)
    } else if card.suit == main_suit {
        8 + symbol_rank(card.symbol)
    } else {
        0
    }
}

/// Position of the card currently winning the fold: the first card of the
/// greatest [`card_power`], measured against the trump suit and the suit
/// led by the fold's first card.
pub open spec fn winning_position(fold: Seq<Card>, suit_atout: Suit) -> int
    decreases fold.len(),
{
    if fold.len() <= 1 {
        0
    } else {
        let prev = winning_position(fold.drop_last(), suit_atout);
        if card_power(fold.last(), suit_atout, fold[0].suit) > card_power(
            fold[prev],
            suit_atout,
            fold[0].suit,
        ) {
            fold.len() - 1
        } else {
            prev
        }
    }
}

/// Whether the acting player's partner holds the winning card of the fold
/// so far. The acting player sits at position `fold.len()`, their partner
/// two seats before them; with fewer than two cards played the partner has
/// not played yet.
pub open spec fn partner_is_master(fold: Seq<Card>, suit_atout: Suit) -> bool {
    fold.len() >= 2 && winning_position(fold, suit_atout) == fold.len() - 2
}

/// The trump-following policy under `Atout(suit_atout)`, as a function of
/// the candidate card, the fold so far and the acting player's hand:
/// a held card must follow the led suit when possible (raising when trump
/// was led), otherwise trump — raising — unless the partner is master,
/// and only a hand with neither led suit nor trump may discard freely.
pub open spec fn atout_play_valid(suit_atout: Suit, card: Card, fold: Seq<Card>, hand: Seq<Card>) -> bool {
    if !hand.contains(card) {
        false
    } else if fold.len() == 0 {
        true
    } else {
        let fold_suit = fold[0].suit;
        if seq_has_suit(hand, fold_suit) {
            if card.suit == fold_suit {
                if fold_suit == suit_atout {
                    raises_over_played_atouts(fold, suit_atout, card.symbol)
                } else {
                    true
                }
            } else {
                false
            }
        } else if seq_has_suit(hand, suit_atout) {
            if card.suit != suit_atout {
                partner_is_master(fold, suit_atout)
            } else {
                raises_over_played_atouts(fold, suit_atout, card.symbol)
            }
        } else {
            true
        }
    }
}

/// What [`DefaultRule`] accepts: everything under the no-trump regimes,
/// the trump-following policy under `Atout`.
pub open spec fn default_rule_valid(
    context: GameContext,
    card: Card,
    fold: Seq<Card>,
    hand: Seq<Card>,
) -> bool {
    match context {
        GameContext::Atout(suit) => atout_play_valid(suit, card, fold, hand),
        GameContext::SansAtout => true,
        GameContext::ToutAtout => true,
    }
}

/// A play-validation policy. `valid_spec` is the policy itself, as a pure
/// function of the four inputs; `is_play_valid` computes it.
pub trait Rule {
    spec fn valid_spec(&self, context: GameContext, card: Card, fold: Seq<Card>, hand: Seq<Card>) -> bool;

    /// Pure check of one candidate play against the trump context, the
    /// fold so far and the acting player's hand; mutates nothing, so the
    /// driver may call it repeatedly on retry.
    fn is_play_valid(
        &self,
        context: GameContext,
        card_to_be_played: &Card,
        fold: &Fold,
        hand: &Hand,
    ) -> (r: bool)
        ensures
            r == self.valid_spec(context, *card_to_be_played, fold@, hand@),
    ;
}

/// The permissive policy: accepts any play, used for unconstrained
/// simulation runs.
pub struct NoRule {}

impl Rule for NoRule {
    open spec fn valid_spec(&self, context: GameContext, card: Card, fold: Seq<Card>, hand: Seq<Card>) -> bool {
        true
    }

    fn is_play_valid(
        &self,
        context: GameContext,
        card_to_be_played: &Card,
        fold: &Fold,
        hand: &Hand,
    ) -> (r: bool) {
        true
    }
}

/// The real trick-taking policy; see [`default_rule_valid`].
pub struct DefaultRule {}

impl Rule for DefaultRule {
    open spec fn valid_spec(&self, context: GameContext, card: Card, fold: Seq<Card>, hand: Seq<Card>) -> bool {
        default_rule_valid(context, card, fold, hand)
    }

    fn is_play_valid(
        &self,
        context: GameContext,
        card_to_be_played: &Card,
        fold: &Fold,
        hand: &Hand,
    ) -> (r: bool) {
        match context {
            GameContext::Atout(suit) => self.is_play_valid_atout(suit, card_to_be_played, fold, hand),
            GameContext::SansAtout => true,
            GameContext::ToutAtout => true,
        }
    }
}

/// Executable counterpart of [`card_power`].
fn power_in_fold(card: &Card, suit_atout: Suit, main_suit: Suit) -> (p: u8)
    ensures
        p as int == card_power(*card, suit_atout, main_suit),
{
    if card.suit == suit_atout {
        16 + crate::card::rank_of_symbol(card.symbol)
    } else if card.suit == main_suit {
        8 + crate::card::rank_of_symbol(card.symbol)
    } else {
        0
    }
}

impl DefaultRule {
    /// The trump-raise check: the candidate trump symbol must rank at
    /// least as high as the lowest trump played so far in the fold.
    pub fn is_play_valid_suit_atout(
        suit_atout: &Suit,
        card_symbol: &Symbol,
        fold: &Fold,
        _hand: &Hand,
    ) -> (r: bool)
        ensures
            r == raises_over_played_atouts(fold@, *suit_atout, *card_symbol),
    {
        let mut has_atout = false;
        let mut min_rank: u8 = 0;
        let mut i: usize = 0;
        while i < fold.cards.len()
            invariant
                i <= fold@.len(),
                has_atout == seq_has_suit(fold@.take(i as int), *suit_atout),
                has_atout ==> exists|j: int|
                    0 <= j < i && fold@[j].suit == *suit_atout && symbol_rank(fold@[j].symbol)
                        == min_rank as int,
                forall|j: int|
                    0 <= j < i && fold@[j].suit == *suit_atout ==> symbol_rank(fold@[j].symbol)
                        >= min_rank as int,
            decreases fold@.len() - i,
        {
            let ghost old_min = min_rank as int;
            let ghost old_has = has_atout;
            let card = fold.cards[i];
            if card.suit == *suit_atout {
                let r = crate::card::rank_of_symbol(card.symbol);
                if !has_atout || r < min_rank {
                    min_rank = r;
                }
                has_atout = true;
            }
            proof {
                assert(fold@.take(i + 1).drop_last() =~= fold@.take(i as int));
                assert(fold@.take(i + 1).last() == fold@[i as int]);
                assert(seq_has_suit(fold@.take(i + 1), *suit_atout) == has_atout);
                assert forall|j: int|
                    0 <= j < i + 1 && fold@[j].suit == *suit_atout implies symbol_rank(
                    fold@[j].symbol,
                ) >= min_rank as int by {
                    if j < i {
                        assert(fold@.take(i as int)[j] == fold@[j]);
                        assert(old_has);
                        assert(symbol_rank(fold@[j].symbol) >= old_min);
                        assert(min_rank as int <= old_min);
                    }
                }
            }
            i += 1;
        }
        proof {
            assert(fold@.take(fold@.len() as int) =~= fold@);
        }
        if !has_atout {
            true
        } else {
            crate::card::rank_of_symbol(*card_symbol) >= min_rank
        }
    }

    /// Whether the winning card of the fold so far was played by the
    /// acting player's partner, the acting player being the one about to
    /// play at position `fold.len()`.
    pub fn is_partner_master_of_the_fold(suit_atout: Suit, fold: &Fold) -> (r: bool)
        ensures
            r == partner_is_master(fold@, suit_atout),
    {
        if fold.cards.len() < 2 {
            return false;
        }
        let main_suit = fold.cards[0].suit;
        let mut win: usize = 0;
        let mut win_power: u8 = power_in_fold(&fold.cards[0], suit_atout, main_suit);
        let mut i: usize = 1;
        proof {
            assert(fold@.take(1) =~= seq![fold@[0]]);
        }
        while i < fold.cards.len()
            invariant
                1 <= i <= fold@.len(),
                fold@.len() >= 2,
                main_suit == fold@[0].suit,
                win < i,
                win == winning_position(fold@.take(i as int), suit_atout),
                win_power as int == card_power(fold@[win as int], suit_atout, main_suit),
            decreases fold@.len() - i,
        {
            let p = power_in_fold(&fold.cards[i], suit_atout, main_suit);
            proof {
                assert(fold@.take(i + 1).drop_last() =~= fold@.take(i as int));
                assert(fold@.take(i + 1).last() == fold@[i as int]);
                assert(fold@.take(i + 1)[0] == fold@[0]);
                assert(fold@.take(i as int)[win as int] == fold@[win as int]);
            }
            if p > win_power {
                win = i;
                win_power = p;
            }
            i += 1;
        }
        proof {
            assert(fold@.take(fold@.len() as int) =~= fold@);
        }
        win == fold.cards.len() - 2
    }

    /// The full `Atout` policy; see [`atout_play_valid`].
    pub fn is_play_valid_atout(&self, suit_atout: Suit, card: &Card, fold: &Fold, hand: &Hand) -> (r:
        bool)
        ensures
            r == atout_play_valid(suit_atout, *card, fold@, hand@),
    {
        if hand.contains(card) {
            match fold.get_main_suit() {
                Err(_) => true,
                Ok(fold_suit) => {
                    if hand.contains_suit(&fold_suit) {
                        if card.suit == fold_suit {
                            if fold_suit == suit_atout {
                                DefaultRule::is_play_valid_suit_atout(
                                    &suit_atout,
                                    &card.symbol,
                                    fold,
                                    hand,
                                )
                            } else {
                                true
                            }
                        } else {
                            false
                        }
                    } else {
                        if hand.contains_suit(&suit_atout) {
                            if card.suit != suit_atout {
                                DefaultRule::is_partner_master_of_the_fold(suit_atout, fold)
                            } else {
                                DefaultRule::is_play_valid_suit_atout(
                                    &suit_atout,
                                    &card.symbol,
                                    fold,
                                    hand,
                                )
                            }
                        } else {
                            true
                        }
                    }
                },
            }
        } else {
            false
        }
    }
}

/// Under the no-trump regimes (`SansAtout` and `ToutAtout`) the default
/// rule accepts every candidate card, whatever the fold and hand hold.
pub proof fn lemma_default_rule_no_trump_accepts(
    rule: DefaultRule,
    card: Card,
    fold: Seq<Card>,
    hand: Seq<Card>,
)
    ensures
        rule.valid_spec(GameContext::SansAtout, card, fold, hand),
        rule.valid_spec(GameContext::ToutAtout, card, fold, hand),
{
}

/// On an empty fold the leading player may play any card from their hand,
/// whatever the context.
pub proof fn lemma_default_rule_leader_plays_anything(
    rule: DefaultRule,
    context: GameContext,
    card: Card,
    fold: Seq<Card>,
    hand: Seq<Card>,
)
    requires
        fold.len() == 0,
        hand.contains(card),
    ensures
        rule.valid_spec(context, card, fold, hand),
{
}

/// `NoRule` accepts every play, even of a card the hand does not hold.
pub proof fn lemma_no_rule_accepts_everything(
    rule: NoRule,
    context: GameContext,
    card: Card,
    fold: Seq<Card>,
    hand: Seq<Card>,
)
    ensures
        rule.valid_spec(context, card, fold, hand),
{
}

} // verus!
