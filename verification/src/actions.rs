//! The actions of a game node as the front end shows them: the `Name:amount`
//! list, the player label, bet totals, the card replayed at a chance node,
//! and the short labels and path identifiers used for saved results.

use vstd::prelude::*;
use vstd::string::*;
use crate::Card;
use crate::text::{append_chars, i32_decimal, int_decimal, join_chars, join_with, str_chars, string_from_chars, views_of};

verus! {

/// An action of the game tree.
#[derive(Clone, Copy, Debug)]
pub enum GameAction {
    NoAction,
    Fold,
    Check,
    Call,
    Bet(i32),
    Raise(i32),
    AllIn(i32),
    Chance(Card),
}

/// What the front end reads of the game's current node.
pub struct NodeView {
    pub is_terminal: bool,
    pub is_chance: bool,
    pub current_player: usize,
    pub actions: Vec<GameAction>,
}

/// An action a player can take (neither the empty action nor a dealt card).
pub open spec fn is_player_action(a: GameAction) -> bool {
    !(a is NoAction) && !(a is Chance)
}

/// The `Name:amount` label of a player action.
pub open spec fn action_label(a: GameAction) -> Seq<char> {
    match a {
        GameAction::Fold => seq!['F', 'o', 'l', 'd', ':', '0'],
        GameAction::Check => seq!['C', 'h', 'e', 'c', 'k', ':', '0'],
        GameAction::Call => seq!['C', 'a', 'l', 'l', ':', '0'],
        GameAction::Bet(x) => seq!['B', 'e', 't', ':'] + int_decimal(x as int),
        GameAction::Raise(x) => seq!['R', 'a', 'i', 's', 'e', ':'] + int_decimal(x as int),
        GameAction::AllIn(x) => seq!['A', 'l', 'l', 'i', 'n', ':'] + int_decimal(x as int),
        _ => seq![],
    }
}

/// `"terminal"`.
pub open spec fn terminal_word() -> Seq<char> {
    seq!['t', 'e', 'r', 'm', 'i', 'n', 'a', 'l']
}

/// `"chance"`.
pub open spec fn chance_word() -> Seq<char> {
    seq!['c', 'h', 'a', 'n', 'c', 'e']
}

/// The actions of a node as one string: `"terminal"`, `"chance"`, or the
/// labels of the available actions joined by `/`.
pub open spec fn actions_string(node: NodeView) -> Seq<char> {
    if node.is_terminal {
        terminal_word()
    } else if node.is_chance {
        chance_word()
    } else {
        join_with(node.actions@.map_values(|a: GameAction| action_label(a)), seq!['/'])
    }
}

/// The label of the player to act: `"terminal"`, `"chance"`, `"oop"` or `"ip"`.
pub open spec fn player_label(node: NodeView) -> Seq<char> {
    if node.is_terminal {
        terminal_word()
    } else if node.is_chance {
        chance_word()
    } else if node.current_player == 0 {
        seq!['o', 'o', 'p']
    } else {
        seq!['i', 'p']
    }
}

fn literal_chars(s: &str) -> (v: Vec<char>)
    ensures
        v@ == s@,
{
    str_chars(s)
}

/// The `Name:amount` label of a player action.
pub fn action_label_chars(a: &GameAction) -> (label: Vec<char>)
    ensures
        label@ == action_label(*a),
{
    match a {
        GameAction::Fold => {
            proof { reveal_strlit("Fold:0"); }
            literal_chars("Fold:0")
        },
        GameAction::Check => {
            proof { reveal_strlit("Check:0"); }
            literal_chars("Check:0")
        },
        GameAction::Call => {
            proof { reveal_strlit("Call:0"); }
            literal_chars("Call:0")
        },
        GameAction::Bet(x) => {
            proof { reveal_strlit("Bet:"); }
            let mut v = literal_chars("Bet:");
            let digits = i32_decimal(*x);
            append_chars(&mut v, &digits);
            v
        },
        GameAction::Raise(x) => {
            proof { reveal_strlit("Raise:"); }
            let mut v = literal_chars("Raise:");
            let digits = i32_decimal(*x);
            append_chars(&mut v, &digits);
            v
        },
        GameAction::AllIn(x) => {
            proof { reveal_strlit("Allin:"); }
            let mut v = literal_chars("Allin:");
            let digits = i32_decimal(*x);
            append_chars(&mut v, &digits);
            v
        },
        _ => Vec::new(),
    }
}

/// The actions of a node as one string, as the front end lists them.
pub fn get_current_actions_string(node: &NodeView) -> (s: String)
    requires
        !node.is_terminal && !node.is_chance ==> forall|i: int|
            0 <= i < node.actions@.len() ==> is_player_action(#[trigger] node.actions@[i]),
    ensures
        s@ == actions_string(*node),
{
    if node.is_terminal {
        proof { reveal_strlit("terminal"); }
        let v = literal_chars("terminal");
        string_from_chars(&v)
    } else if node.is_chance {
        proof { reveal_strlit("chance"); }
        let v = literal_chars("chance");
        string_from_chars(&v)
    } else {
        let mut labels: Vec<Vec<char>> = Vec::new();
        let mut i: usize = 0;
        while i < node.actions.len()
            invariant
                i <= node.actions@.len(),
                views_of(labels@) == node.actions@.subrange(0, i as int).map_values(
                    |a: GameAction| action_label(a),
                ),
            decreases node.actions@.len() - i,
        {
            let label = action_label_chars(&node.actions[i]);
            let ghost before = labels@;
            labels.push(label);
            assert(labels@ == before.push(label));
            assert(views_of(labels@) =~= views_of(before).push(label@));
            assert(node.actions@.subrange(0, i + 1) =~= node.actions@.subrange(0, i as int).push(node.actions@[i as int]));
            assert(views_of(labels@) =~= node.actions@.subrange(0, i + 1).map_values(
                |a: GameAction| action_label(a),
            ));
            i += 1;
        }
        assert(node.actions@.subrange(0, node.actions@.len() as int) == node.actions@);
        let sep = vec!['/'];
        assert(sep@ =~= seq!['/']);
        let joined = join_chars(&labels, &sep);
        string_from_chars(&joined)
    }
}

/// The label of the player to act at a node.
pub fn current_player_str(node: &NodeView) -> (s: &'static str)
    ensures
        s@ == player_label(*node),
{
    if node.is_terminal {
        proof { reveal_strlit("terminal"); }
        "terminal"
    } else if node.is_chance {
        proof { reveal_strlit("chance"); }
        "chance"
    } else if node.current_player == 0 {
        proof { reveal_strlit("oop"); }
        "oop"
    } else {
        proof { reveal_strlit("ip"); }
        "ip"
    }
}

/// The total bet amounts of both players as the front end stores them
/// (each `i32` converted to `u32` with Rust's `as`).
pub fn total_bet_amount(amounts: &[i32]) -> (res: Vec<u32>)
    ensures
        res@.len() == amounts@.len(),
        forall|i: int| 0 <= i < amounts@.len() ==> #[trigger] res@[i] == amounts@[i] as u32,
{
    let mut res: Vec<u32> = Vec::new();
    let mut i: usize = 0;
    while i < amounts.len()
        invariant
            i <= amounts@.len(),
            res@.len() == i,
            forall|j: int| 0 <= j < i ==> #[trigger] res@[j] == amounts@[j] as u32,
        decreases amounts@.len() - i,
    {
        res.push(amounts[i] as u32);
        i += 1;
    }
    res
}

/// Why no card can be replayed at a chance node.
#[derive(Clone, Copy, Debug)]
pub enum ReplayError {
    /// No card can be dealt at all.
    NoCardsAvailable,
    /// The requested card cannot be dealt.
    InvalidCard(usize),
}

/// Card `c` may be dealt according to the bit set `possible_cards`.
pub open spec fn card_possible(possible_cards: u64, c: int) -> bool {
    0 <= c < 64 && (possible_cards >> (c as u64)) & 1u64 == 1u64
}

/// The card replayed at a chance node for the appended action `action`:
/// `0` stands for the lowest card that may be dealt, any other value for
/// that card itself, which must be below 52 and possible.
pub fn replay_chance_card(possible_cards: u64, action: usize) -> (res: Result<usize, ReplayError>)
    ensures
        possible_cards == 0 ==> res == Err::<usize, ReplayError>(ReplayError::NoCardsAvailable),
        possible_cards != 0 && action == 0 ==> (res matches Ok(c) && card_possible(
            possible_cards,
            c as int,
        ) && forall|j: int| 0 <= j < c ==> !card_possible(possible_cards, j)),
        possible_cards != 0 && action != 0 ==> (if action < 52 && card_possible(
            possible_cards,
            action as int,
        ) {
            res == Ok::<usize, ReplayError>(action)
        } else {
            res == Err::<usize, ReplayError>(ReplayError::InvalidCard(action))
        }),
{
    if possible_cards == 0 {
        return Err(ReplayError::NoCardsAvailable);
    }
    if action == 0 {
        let tz = possible_cards.trailing_zeros();
        proof {
            vstd::std_specs::bits::axiom_u64_trailing_zeros(possible_cards);
            assert(tz < 64);
            assert forall|j: int| 0 <= j < tz implies !card_possible(possible_cards, j) by {
                let jj = j as u64;
                assert((possible_cards >> jj) & 1u64 == 0u64);
            }
        }
        Ok(tz as usize)
    } else if action < 52 && (possible_cards & (1u64 << action as u64)) != 0 {
        let a = action as u64;
        assert((possible_cards & (1u64 << a)) != 0 <==> (possible_cards >> a) & 1u64 == 1u64)
            by (bit_vector)
            requires
                a < 52,
        ;
        Ok(action)
    } else {
        proof {
            if action < 52 {
                let a = action as u64;
                assert((possible_cards & (1u64 << a)) != 0 <==> (possible_cards >> a) & 1u64
                    == 1u64) by (bit_vector)
                    requires
                        a < 52,
                ;
            }
        }
        Err(ReplayError::InvalidCard(action))
    }
}

} // verus!
