use belote_libre_backend::card::{Card, Suit, Symbol};
use belote_libre_backend::hand::Hand;

#[test]
fn init_hand_empty() {
    let _hand = Hand::new_empty();
    println!("{:?}", _hand);
}

#[test]
fn push_card() {
    let mut hand = Hand::new_empty();
    hand.push(Card::new(Suit::Diamond, Symbol::Ten));
    assert_eq!(hand.len(), 1);
}

#[test]
fn play_a_card() {
    let mut hand = Hand::new_empty();
    let card = Card::new(Suit::Diamond, Symbol::Ten);
    hand.push(card);
    assert_eq!(hand.len(), 1);
    let card2 = hand.play_a_card(0).unwrap();
    assert_eq!(hand.len(), 0);
    assert_eq!(card, card2);
}

#[test]
fn get_card() {
    let mut hand = Hand::new_empty();
    let init_card = Card::new(Suit::Diamond, Symbol::Ten);
    hand.push(init_card);
    assert_eq!(hand.len(), 1);
    let card = hand.get_a_card(0).unwrap();
    assert_eq!(card, init_card);
}

#[test]
fn contains_card() {
    let mut hand = Hand::new_empty();
    hand.push(Card::new(Suit::Diamond, Symbol::Seven));
    hand.push(Card::new(Suit::Diamond, Symbol::Height));
    hand.push(Card::new(Suit::Heart, Symbol::Seven));

    assert!(hand.contains_suit(&Suit::Diamond));
    assert!(hand.contains_suit(&Suit::Heart));
    assert!(!hand.contains_suit(&Suit::Spade));
    assert!(!hand.contains_suit(&Suit::Club));
}

#[test]
fn playing_an_out_of_range_id_is_an_error() {
    let mut hand = Hand::new_empty();
    hand.push(Card::new(Suit::Club, Symbol::Nine));
    assert!(hand.play_a_card(1).is_err());
    assert_eq!(hand.len(), 1); // a failed play leaves the hand untouched
    let mut empty = Hand::new_empty();
    assert!(empty.play_a_card(0).is_err());
}

#[test]
fn peeking_an_out_of_range_id_is_an_error() {
    let mut hand = Hand::new_empty();
    hand.push(Card::new(Suit::Club, Symbol::Nine));
    assert!(hand.get_a_card(1).is_err());
    assert!(hand.get_a_card(0).is_ok());
}

#[test]
fn contains_checks_both_suit_and_symbol() {
    let mut hand = Hand::new_empty();
    hand.push(Card::new(Suit::Diamond, Symbol::Seven));
    assert!(hand.contains(&Card::new(Suit::Diamond, Symbol::Seven)));
    assert!(!hand.contains(&Card::new(Suit::Diamond, Symbol::Height)));
    assert!(!hand.contains(&Card::new(Suit::Heart, Symbol::Seven)));
}

#[test]
fn play_uses_swap_remove_semantics() {
    let mut hand = Hand::new_empty();
    let first = Card::new(Suit::Heart, Symbol::Seven);
    let middle = Card::new(Suit::Heart, Symbol::Height);
    let last = Card::new(Suit::Heart, Symbol::Nine);
    hand.push(first);
    hand.push(middle);
    hand.push(last);
    let played = hand.play_a_card(0).unwrap();
    assert_eq!(played, first);
    assert_eq!(hand.len(), 2);
    // the last card moved into the freed position
    assert_eq!(hand.get_a_card(0).unwrap(), last);
    assert_eq!(hand.get_a_card(1).unwrap(), middle);
}
