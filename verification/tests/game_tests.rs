use belote_libre_backend::card::{nth_suit, nth_symbol, Card};
use belote_libre_backend::deck::Deck;
use belote_libre_backend::game::{game, game_wo_deck_init};
use belote_libre_backend::rules::NoRule;

#[test]
fn try_game() {
    let folds = game();
    assert_eq!(folds.len(), 8); // there should be 32/4 = 8 folds at the end

    for fold_ in folds {
        assert_eq!(fold_.len(), 4) // there should be only 4 cards per fold
    }
}

#[test]
fn chain_games() {
    let deck = Deck::new_shuffled();
    let mut folds = game_wo_deck_init(&deck, &NoRule {}).unwrap();
    let card_playeds_iter = folds.iter_mut().map(|fold| fold.get_cards());
    let mut new_deck = Deck::new(itertools::concat(card_playeds_iter));
    new_deck.shuffle_cut();
    game_wo_deck_init(&new_deck, &NoRule {}).unwrap();
}

#[test]
fn a_deal_neither_loses_nor_duplicates_cards() {
    let deck = Deck::new_shuffled();
    let mut folds = game_wo_deck_init(&deck, &NoRule {}).unwrap();
    assert_eq!(folds.len(), 8);

    let mut played: Vec<Card> = Vec::new();
    for fold in folds.iter_mut() {
        let cards = fold.get_cards();
        assert_eq!(cards.len(), 4);
        played.extend(cards);
    }
    assert_eq!(played.len(), 32);
    // the folds hold the whole 32-card population exactly once
    for s in 0..4 {
        for y in 0..8 {
            let card = Card::new(nth_suit(s), nth_symbol(y));
            assert_eq!(played.iter().filter(|c| **c == card).count(), 1);
        }
    }
}
