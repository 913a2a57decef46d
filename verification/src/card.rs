//! Card value types: the four suits, the eight symbols (ranks) with their
//! fixed total order, and the `Card` pair of both.

use std::collections::HashMap;
use vstd::prelude::*;

verus! {

/// One of the four French suits.
#[derive(Debug, Copy, Clone, PartialEq, Eq, Structural)]
pub enum Suit {
    Heart,
    Diamond,
    Club,
    Spade,
}

/// The rank of a card. The declaration order `Seven < Height < ... < Ace`
/// is the total order used by the trump-raise comparisons; see
/// [`symbol_rank`].
#[derive(Debug, Copy, Clone, PartialEq, Eq, Structural)]
pub enum Symbol {
    Seven,
    Height,
    Nine,
    Ten,
    Jack,
    Queen,
    King,
    Ace,
}

/// A playing card, equal to another exactly when both suit and symbol agree.
#[derive(Debug, Copy, Clone, PartialEq, Eq, Structural)]
pub struct Card {
    pub suit: Suit,
    pub symbol: Symbol,
}

impl Card {
    pub fn new(suit: Suit, symbol: Symbol) -> (card: Card)
        ensures
            card == (Card { suit, symbol }),
    {
        Card { suit, symbol }
    }
}

/// Position of a symbol in the fixed order `Seven < Height < ... < Ace`.
pub open spec fn symbol_rank(symbol: Symbol) -> int {
    match symbol {
        Symbol::Seven => 0,
        Symbol::Height => 1,
        Symbol::Nine => 2,
        Symbol::Ten => 3,
        Symbol::Jack => 4,
        Symbol::Queen => 5,
        Symbol::King => 6,
        Symbol::Ace => 7,
    }
}

/// Executable counterpart of [`symbol_rank`].
pub fn rank_of_symbol(symbol: Symbol) -> (r: u8)
    ensures
        r as int == symbol_rank(symbol),
{
    match symbol {
        Symbol::Seven => 0,
        Symbol::Height => 1,
        Symbol::Nine => 2,
        Symbol::Ten => 3,
        Symbol::Jack => 4,
        Symbol::Queen => 5,
        Symbol::King => 6,
        Symbol::Ace => 7,
    }
}

/// The suit at a given position of the declaration order
/// `Heart, Diamond, Club, Spade`.
pub open spec fn suit_of_nth(n: int) -> Suit {
    if n == 0 {
        Suit::Heart
    } else if n == 1 {
        Suit::Diamond
    } else if n == 2 {
        Suit::Club
    } else {
        Suit::Spade
    }
}

/// Position of a suit in the declaration order; inverse of [`suit_of_nth`].
pub open spec fn suit_index(suit: Suit) -> int {
    match suit {
        Suit::Heart => 0,
        Suit::Diamond => 1,
        Suit::Club => 2,
        Suit::Spade => 3,
    }
}

/// The symbol at a given position of the order `Seven < ... < Ace`;
/// inverse of [`symbol_rank`].
pub open spec fn symbol_of_nth(n: int) -> Symbol {
    if n == 0 {
        Symbol::Seven
    } else if n == 1 {
        Symbol::Height
    } else if n == 2 {
        Symbol::Nine
    } else if n == 3 {
        Symbol::Ten
    } else if n == 4 {
        Symbol::Jack
    } else if n == 5 {
        Symbol::Queen
    } else if n == 6 {
        Symbol::King
    } else {
        Symbol::Ace
    }
}

/// Executable counterpart of [`suit_of_nth`].
pub fn nth_suit(n: usize) -> (suit: Suit)
    requires
        n < 4,
    ensures
        suit == suit_of_nth(n as int),
{
    if n == 0 {
        Suit::Heart
    } else if n == 1 {
        Suit::Diamond
    } else if n == 2 {
        Suit::Club
    } else {
        Suit::Spade
    }
}

/// Executable counterpart of [`symbol_of_nth`].
pub fn nth_symbol(n: usize) -> (symbol: Symbol)
    requires
        n < 8,
    ensures
        symbol == symbol_of_nth(n as int),
{
    if n == 0 {
        Symbol::Seven
    } else if n == 1 {
        Symbol::Height
    } else if n == 2 {
        Symbol::Nine
    } else if n == 3 {
        Symbol::Ten
    } else if n == 4 {
        Symbol::Jack
    } else if n == 5 {
        Symbol::Queen
    } else if n == 6 {
        Symbol::King
    } else {
        Symbol::Ace
    }
}

/// Map from the one-letter shortcut of each suit to the suit itself.
///
/// The standard library gives no usable model for `String`-keyed hash
/// maps, so nothing is stated about the returned map's contents.
pub fn get_suit_shortcut() -> HashMap<String, Suit> {
    let mut shortcuts: HashMap<String, Suit> = HashMap::new();
    shortcuts.insert("H".to_string(), Suit::Heart);
    shortcuts.insert("D".to_string(), Suit::Diamond);
    shortcuts.insert("C".to_string(), Suit::Club);
    shortcuts.insert("S".to_string(), Suit::Spade);
    shortcuts
}

/// Map from the shortcut of each symbol ("7" to "A") to the symbol itself.
///
/// The standard library gives no usable model for `String`-keyed hash
/// maps, so nothing is stated about the returned map's contents.
pub fn get_symbol_shortcut() -> HashMap<String, Symbol> {
    let mut shortcuts: HashMap<String, Symbol> = HashMap::new();
    shortcuts.insert("7".to_string(), Symbol::Seven);
    shortcuts.insert("8".to_string(), Symbol::Height);
    shortcuts.insert("9".to_string(), Symbol::Nine);
    shortcuts.insert("10".to_string(), Symbol::Ten);
    shortcuts.insert("J".to_string(), Symbol::Jack);
    shortcuts.insert("Q".to_string(), Symbol::Queen);
    shortcuts.insert("K".to_string(), Symbol::King);
    shortcuts.insert("A".to_string(), Symbol::Ace);
    shortcuts
}

} // verus!
