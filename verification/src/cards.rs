//! Card notation: rank and suit characters, two-character card names and
//! four-character hand names, and parsing a card name.

use vstd::prelude::*;
use vstd::string::*;
use crate::Card;
use crate::text::push_char;

verus! {

/// The character of rank `r` (`'2'` for 0 up to `'A'` for 12), `'?'` otherwise.
pub open spec fn rank_char(r: int) -> char {
    if r == 0 { '2' }
    else if r == 1 { '3' }
    else if r == 2 { '4' }
    else if r == 3 { '5' }
    else if r == 4 { '6' }
    else if r == 5 { '7' }
    else if r == 6 { '8' }
    else if r == 7 { '9' }
    else if r == 8 { 'T' }
    else if r == 9 { 'J' }
    else if r == 10 { 'Q' }
    else if r == 11 { 'K' }
    else if r == 12 { 'A' }
    else { '?' }
}

/// The character of suit `s` (clubs, diamonds, hearts, spades), `'?'` otherwise.
pub open spec fn suit_char(s: int) -> char {
    if s == 0 { 'c' }
    else if s == 1 { 'd' }
    else if s == 2 { 'h' }
    else if s == 3 { 's' }
    else { '?' }
}

/// The rank that a rank character names, if it names one.
pub open spec fn parse_rank_char(c: char) -> Option<int> {
    if c == '2' { Some(0) }
    else if c == '3' { Some(1) }
    else if c == '4' { Some(2) }
    else if c == '5' { Some(3) }
    else if c == '6' { Some(4) }
    else if c == '7' { Some(5) }
    else if c == '8' { Some(6) }
    else if c == '9' { Some(7) }
    else if c == 'T' { Some(8) }
    else if c == 'J' { Some(9) }
    else if c == 'Q' { Some(10) }
    else if c == 'K' { Some(11) }
    else if c == 'A' { Some(12) }
    else { None }
}

/// The suit index that `card_from_string` gives a suit letter: spades 0,
/// hearts 1, clubs 2, diamonds 3.
pub open spec fn parse_suit_char(c: char) -> Option<int> {
    if c == 's' { Some(0) }
    else if c == 'h' { Some(1) }
    else if c == 'c' { Some(2) }
    else if c == 'd' { Some(3) }
    else { None }
}

/// The name `card_to_string_simple` gives a card: rank `card / 4`, suit
/// `card % 4`, or `"??"` past the deck.
pub open spec fn simple_card_name(card: u8) -> Seq<char> {
    if card < 52 {
        seq![rank_char(card as int / 4), suit_char(card as int % 4)]
    } else {
        seq!['?', '?']
    }
}

/// The name `format_hand_cards` gives a pair of cards (rank `card % 13`,
/// suit `card / 13`).
pub open spec fn hand_name(c1: u8, c2: u8) -> Seq<char> {
    seq![
        rank_char(c1 as int % 13),
        suit_char(c1 as int / 13),
        rank_char(c2 as int % 13),
        suit_char(c2 as int / 13),
    ]
}

/// A card fixed in advance for a chance node (the turn or the river).
#[derive(Clone, Copy, Debug)]
pub struct PredefinedCard {
    pub card_index: usize,
    pub card_value: Card,
}

/// The character of a rank index.
pub fn rank_to_char(rank: usize) -> (c: char)
    ensures
        c == rank_char(rank as int),
{
    match rank {
        0 => '2',
        1 => '3',
        2 => '4',
        3 => '5',
        4 => '6',
        5 => '7',
        6 => '8',
        7 => '9',
        8 => 'T',
        9 => 'J',
        10 => 'Q',
        11 => 'K',
        12 => 'A',
        _ => '?',
    }
}

/// The character of a suit index.
pub fn suit_to_char(suit: usize) -> (c: char)
    ensures
        c == suit_char(suit as int),
{
    match suit {
        0 => 'c',
        1 => 'd',
        2 => 'h',
        3 => 's',
        _ => '?',
    }
}

/// A two-character name of a card in the solver's encoding (rank `card >> 2`,
/// suit `card & 3`), or `"??"` for a value past the deck.
pub fn card_to_string_simple(card: Card) -> (s: String)
    ensures
        s@ == simple_card_name(card),
{
    let rank = (card >> 2) as usize;
    let suit = (card & 3) as usize;
    assert(card >> 2 == card / 4) by (bit_vector);
    assert(card & 3 == card % 4) by (bit_vector);
    let mut s = String::new();
    if rank < 13 && suit < 4 {
        push_char(&mut s, rank_to_char(rank));
        push_char(&mut s, suit_to_char(suit));
    } else {
        push_char(&mut s, '?');
        push_char(&mut s, '?');
    }
    assert(s@ =~= simple_card_name(card));
    s
}

/// The card that a two-character name denotes: rank character then suit
/// letter, giving `rank + 13 * suit`.
pub fn card_from_string(card_str: &str) -> (card: Card)
    requires
        card_str@.len() >= 2,
        parse_rank_char(card_str@[0]) is Some,
        parse_suit_char(card_str@[1]) is Some,
    ensures
        card as int == parse_rank_char(card_str@[0])->0 + 13 * parse_suit_char(card_str@[1])->0,
{
    let rank_char = card_str.get_char(0);
    let suit_char = card_str.get_char(1);
    let rank: u8 = match rank_char {
        '2' => 0,
        '3' => 1,
        '4' => 2,
        '5' => 3,
        '6' => 4,
        '7' => 5,
        '8' => 6,
        '9' => 7,
        'T' => 8,
        'J' => 9,
        'Q' => 10,
        'K' => 11,
        _ => 12,  // 'A', the last rank character
    };
    let suit: u8 = match suit_char {
        's' => 0,
        'h' => 1,
        'c' => 2,
        _ => 3,  // 'd', the last suit letter
    };
    rank + (suit * 13)
}

/// The four-character name of a pair of cards, each as rank `card % 13` and
/// suit `card / 13`.
pub fn format_hand_cards(card_pair: (u8, u8)) -> (s: String)
    ensures
        s@ == hand_name(card_pair.0, card_pair.1),
{
    let mut s = String::new();
    push_char(&mut s, rank_to_char((card_pair.0 % 13) as usize));
    push_char(&mut s, suit_to_char((card_pair.0 / 13) as usize));
    push_char(&mut s, rank_to_char((card_pair.1 % 13) as usize));
    push_char(&mut s, suit_to_char((card_pair.1 / 13) as usize));
    assert(s@ =~= hand_name(card_pair.0, card_pair.1));
    s
}

} // verus!
