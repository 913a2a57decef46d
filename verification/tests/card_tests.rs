use belote_libre_backend::card::{get_suit_shortcut, get_symbol_shortcut, rank_of_symbol, Card, Suit, Symbol};

#[test]
fn init_card() {
    let _card = Card::new(Suit::Diamond, Symbol::Ten);
    println!("{:?}", _card);
}

#[test]
fn init_card_macro() {
    let card = Card::new(Suit::Heart, Symbol::Seven);
    let suits = get_suit_shortcut();
    let symbols = get_symbol_shortcut();
    let card2 = Card::new(suits["H"], symbols["7"]);

    assert!(card == card2);
}

#[test]
fn suit_shortcuts_cover_all_suits() {
    let suits = get_suit_shortcut();
    assert_eq!(suits.len(), 4);
    assert_eq!(suits["H"], Suit::Heart);
    assert_eq!(suits["D"], Suit::Diamond);
    assert_eq!(suits["C"], Suit::Club);
    assert_eq!(suits["S"], Suit::Spade);
}

#[test]
fn symbol_shortcuts_cover_all_symbols() {
    let symbols = get_symbol_shortcut();
    assert_eq!(symbols.len(), 8);
    assert_eq!(symbols["7"], Symbol::Seven);
    assert_eq!(symbols["8"], Symbol::Height);
    assert_eq!(symbols["9"], Symbol::Nine);
    assert_eq!(symbols["10"], Symbol::Ten);
    assert_eq!(symbols["J"], Symbol::Jack);
    assert_eq!(symbols["Q"], Symbol::Queen);
    assert_eq!(symbols["K"], Symbol::King);
    assert_eq!(symbols["A"], Symbol::Ace);
}

#[test]
fn symbol_order_follows_declaration() {
    let ordered = [
        Symbol::Seven,
        Symbol::Height,
        Symbol::Nine,
        Symbol::Ten,
        Symbol::Jack,
        Symbol::Queen,
        Symbol::King,
        Symbol::Ace,
    ];
    for (i, symbol) in ordered.iter().enumerate() {
        assert_eq!(rank_of_symbol(*symbol) as usize, i);
    }
}
