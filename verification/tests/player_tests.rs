use belote_libre_backend::card::{Card, Suit, Symbol};
use belote_libre_backend::hand::Hand;
use belote_libre_backend::player::{BasicPlayer, Player};

#[test]
fn init_player() {
    let mut hand = Hand::new_empty();
    let init_card = Card::new(Suit::Diamond, Symbol::Ten);

    hand.push(init_card);

    let player = BasicPlayer::new();
    player.play_card_id(&hand);
}

#[test]
fn basic_player_always_plays_the_first_card() {
    let mut hand = Hand::new_empty();
    hand.push(Card::new(Suit::Club, Symbol::Nine));
    hand.push(Card::new(Suit::Spade, Symbol::Queen));

    let player = BasicPlayer::new();
    assert_eq!(player.play_card_id(&hand), 0);
}
