//! The deal driver: deals a deck into four hands, then runs trick after
//! trick, asking each seat for a card, validating it against the rule in
//! force and committing it to the fold.

use crate::card::Card;
use crate::deck::{lemma_hands_partition_deck, Deck};
use crate::fold::Fold;
use crate::hand::Hand;
use crate::player::{BasicPlayer, Player};
use crate::rules::{GameContext, NoRule, Rule};
use vstd::multiset::Multiset;
use vstd::prelude::*;

verus! {

broadcast use vstd::seq_lib::group_to_multiset_ensures, vstd::multiset::group_multiset_axioms;

/// How often a seat may offer an invalid card before the deal is given up.
pub const MAX_PLAYER_ATTEMPT: usize = 10;

/// The multiset of all cards lying in a sequence of folds.
pub open spec fn folds_card_multiset(folds: Seq<Fold>) -> Multiset<Card>
    decreases folds.len(),
{
    if folds.len() == 0 {
        Multiset::<Card>::empty()
    } else {
        folds_card_multiset(folds.drop_last()).add(folds.last()@.to_multiset())
    }
}

/// Asks one player for a card until the rule accepts it or the bounded
/// retry budget runs out. An accepted card is removed from the hand and
/// committed to the fold; a refused deal leaves both untouched. The
/// player's choice depends only on the hand, which does not change
/// between attempts, so the request succeeds exactly when the first
/// chosen card is a valid play.
fn request_play<P: Player, R: Rule>(
    player: &P,
    rule: &R,
    context: GameContext,
    fold: &mut Fold,
    hand: &mut Hand,
) -> (res: Result<(), &'static str>)
    requires
        old(fold)@.len() < 4,
    ensures
        res is Ok <==> (player.chosen_card_id(old(hand)@) < old(hand)@.len()
            && rule.valid_spec(
            context,
            old(hand)@[player.chosen_card_id(old(hand)@) as int],
            old(fold)@,
            old(hand)@,
        )),
        res is Ok ==> {
            let id = player.chosen_card_id(old(hand)@) as int;
            &&& final(fold)@ == old(fold)@.push(old(hand)@[id])
            &&& final(hand)@.to_multiset() == old(hand)@.to_multiset().remove(old(hand)@[id])
            &&& final(hand)@.len() + 1 == old(hand)@.len()
        },
        res is Err ==> final(fold)@ == old(fold)@ && final(hand)@ == old(hand)@,
{
    let mut attempt: usize = 0;
    while attempt < MAX_PLAYER_ATTEMPT
        invariant
            old(fold)@.len() < 4,
            fold@ == old(fold)@,
            hand@ == old(hand)@,
            attempt > 0 ==> !(player.chosen_card_id(old(hand)@) < old(hand)@.len()
                && rule.valid_spec(
                context,
                old(hand)@[player.chosen_card_id(old(hand)@) as int],
                old(fold)@,
                old(hand)@,
            )),
        decreases MAX_PLAYER_ATTEMPT - attempt,
    {
        let id = player.play_card_id(hand);
        match hand.get_a_card(id) {
            Ok(card) => {
                if rule.is_play_valid(context, &card, fold, hand) {
                    let played = hand.play_a_card(id).unwrap();
                    fold.push(played);
                    return Ok(());
                }
            },
            Err(_) => {},
        }
        attempt += 1;
    }
    Err("a player offered an invalid card on every attempt")
}

/// Plays a full deal over an already prepared deck: deals it into four
/// hands, then runs eight folds in which every seat plays one card that
/// the rule accepts. A deal only fails, leaving the one fatal error of
/// the driver, when a seat runs out of attempts; under a rule that
/// accepts every play — the context of a deal is `ToutAtout` — the deal
/// always completes. A completed deal returns the eight folds of four
/// cards, which together hold exactly the cards of the deck: no card is
/// lost and none is duplicated.
pub fn game_wo_deck_init<R: Rule>(deck: &Deck, rule: &R) -> (res: Result<Vec<Fold>, &'static str>)
    requires
        deck@.len() == 32,
    ensures
        res matches Ok(folds) ==> folds@.len() == 8 && (forall|i: int|
            0 <= i < 8 ==> #[trigger] folds@[i]@.len() == 4) && folds_card_multiset(folds@)
            == deck@.to_multiset(),
        (forall|card: Card, fold: Seq<Card>, hand: Seq<Card>|
            rule.valid_spec(GameContext::ToutAtout, card, fold, hand)) ==> res is Ok,
{
    let mut hands = deck.into_hands();
    let ghost dealt = hands@;
    let mut hand3 = hands.pop().unwrap();
    let mut hand2 = hands.pop().unwrap();
    let mut hand1 = hands.pop().unwrap();
    let mut hand0 = hands.pop().unwrap();
    proof {
        assert(hand0@ == dealt[0]@ && hand1@ == dealt[1]@ && hand2@ == dealt[2]@ && hand3@
            == dealt[3]@);
        assert(dealt[0]@ == deck@.subrange(0, 8));
        assert(dealt[1]@ == deck@.subrange(8, 16));
        assert(dealt[2]@ == deck@.subrange(16, 24));
        assert(dealt[3]@ == deck@.subrange(24, 32));
        lemma_hands_partition_deck(hand0@, hand1@, hand2@, hand3@, deck@);
    }

    let player = BasicPlayer::new();
    let max_folds = hand0.len();
    let mut folds: Vec<Fold> = Vec::with_capacity(max_folds);
    let game_context = GameContext::ToutAtout;

    let mut fold_idx: usize = 0;
    while fold_idx < 8
        invariant
            game_context == GameContext::ToutAtout,
            fold_idx <= 8,
            folds@.len() == fold_idx,
            forall|i: int| 0 <= i < fold_idx ==> #[trigger] folds@[i]@.len() == 4,
            hand0@.len() == 8 - fold_idx,
            hand1@.len() == 8 - fold_idx,
            hand2@.len() == 8 - fold_idx,
            hand3@.len() == 8 - fold_idx,
            folds_card_multiset(folds@).add(hand0@.to_multiset()).add(hand1@.to_multiset()).add(
                hand2@.to_multiset(),
            ).add(hand3@.to_multiset()) == deck@.to_multiset(),
        decreases 8 - fold_idx,
    {
        let mut current_fold = Fold::new_empty();

        let ghost pre_fold = current_fold@;
        let ghost pre_hand = hand0@;
        if let Err(e) = request_play(&player, rule, game_context, &mut current_fold, &mut hand0) {
            proof {
                assert(!rule.valid_spec(GameContext::ToutAtout, pre_hand[0], pre_fold, pre_hand));
            }
            return Err(e);
        }
        proof {
            lemma_play_moves_card(
                pre_fold,
                pre_hand,
                current_fold@,
                hand0@,
                player.chosen_card_id(pre_hand) as int,
            );
        }

        let ghost pre_fold = current_fold@;
        let ghost pre_hand = hand1@;
        if let Err(e) = request_play(&player, rule, game_context, &mut current_fold, &mut hand1) {
            proof {
                assert(!rule.valid_spec(GameContext::ToutAtout, pre_hand[0], pre_fold, pre_hand));
            }
            return Err(e);
        }
        proof {
            lemma_play_moves_card(
                pre_fold,
                pre_hand,
                current_fold@,
                hand1@,
                player.chosen_card_id(pre_hand) as int,
            );
        }

        let ghost pre_fold = current_fold@;
        let ghost pre_hand = hand2@;
        if let Err(e) = request_play(&player, rule, game_context, &mut current_fold, &mut hand2) {
            proof {
                assert(!rule.valid_spec(GameContext::ToutAtout, pre_hand[0], pre_fold, pre_hand));
            }
            return Err(e);
        }
        proof {
            lemma_play_moves_card(
                pre_fold,
                pre_hand,
                current_fold@,
                hand2@,
                player.chosen_card_id(pre_hand) as int,
            );
        }

        let ghost pre_fold = current_fold@;
        let ghost pre_hand = hand3@;
        if let Err(e) = request_play(&player, rule, game_context, &mut current_fold, &mut hand3) {
            proof {
                assert(!rule.valid_spec(GameContext::ToutAtout, pre_hand[0], pre_fold, pre_hand));
            }
            return Err(e);
        }
        proof {
            lemma_play_moves_card(
                pre_fold,
                pre_hand,
                current_fold@,
                hand3@,
                player.chosen_card_id(pre_hand) as int,
            );
        }

        proof {
            assert(folds@.push(current_fold).drop_last() =~= folds@);
            assert(folds_card_multiset(folds@.push(current_fold)) == folds_card_multiset(
                folds@,
            ).add(current_fold@.to_multiset()));
        }
        folds.push(current_fold);
        fold_idx += 1;
    }
    proof {
        assert(hand0@.to_multiset().len() == 0);
        assert(hand1@.to_multiset().len() == 0);
        assert(hand2@.to_multiset().len() == 0);
        assert(hand3@.to_multiset().len() == 0);
        assert(folds_card_multiset(folds@).add(hand0@.to_multiset()).add(hand1@.to_multiset()).add(
            hand2@.to_multiset(),
        ).add(hand3@.to_multiset()) =~= folds_card_multiset(folds@));
    }
    Ok(folds)
}

/// Moving one card from a hand to the fold keeps the combined multiset:
/// what the fold gained is exactly what the hand lost.
proof fn lemma_play_moves_card(
    pre_fold: Seq<Card>,
    pre_hand: Seq<Card>,
    post_fold: Seq<Card>,
    post_hand: Seq<Card>,
    id: int,
)
    requires
        0 <= id < pre_hand.len(),
        post_fold == pre_fold.push(pre_hand[id]),
        post_hand.to_multiset() == pre_hand.to_multiset().remove(pre_hand[id]),
    ensures
        post_fold.to_multiset().add(post_hand.to_multiset()) == pre_fold.to_multiset().add(
            pre_hand.to_multiset(),
        ),
{
    broadcast use vstd::seq_lib::group_to_multiset_ensures;

    let card = pre_hand[id];
    assert(pre_hand.to_multiset().count(card) > 0) by {
        assert(pre_hand.contains(card));
    }
    assert(post_fold.to_multiset() == pre_fold.to_multiset().insert(card));
    assert(pre_fold.to_multiset().insert(card).add(pre_hand.to_multiset().remove(card))
        =~= pre_fold.to_multiset().add(pre_hand.to_multiset()));
}

/// Plays a full deal from a freshly shuffled deck under the permissive
/// rule: eight folds of four cards each, holding between them exactly the
/// 32 cards of the full deck.
pub fn game() -> (folds: Vec<Fold>)
    ensures
        folds@.len() == 8,
        forall|i: int| 0 <= i < 8 ==> #[trigger] folds@[i]@.len() == 4,
        folds_card_multiset(folds@) == crate::deck::full_deck().to_multiset(),
{
    let deck = Deck::new_shuffled();
    let rule = NoRule {  };
    let res = game_wo_deck_init(&deck, &rule);
    proof {
        assert forall|card: Card, fold: Seq<Card>, hand: Seq<Card>|
            rule.valid_spec(GameContext::ToutAtout, card, fold, hand) by {}
    }
    res.unwrap()
}

} // verus!
