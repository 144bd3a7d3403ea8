//! Board texture predicates, card notation and result-navigation logic for a
//! post-flop solver front end.

pub mod actions;
pub mod cards;
pub mod chance;
pub mod hand_strength;
pub mod laws;
pub mod layout;
pub mod nav;
pub mod paths;
pub mod text;

use vstd::prelude::*;

verus! {

/// A card index. The board predicates, hand names and card parsing read its
/// rank as `card % 13` and its suit as `card / 13`; `card_to_string_simple`
/// reads the solver's own encoding, rank `card / 4` and suit `card % 4`.
pub type Card = u8;

} // verus!
