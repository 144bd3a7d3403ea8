//! Short action labels and the path identifiers under which results of a
//! line of play are saved (`"F:check-bet50, T:Kd-check"`).

use vstd::prelude::*;
use crate::text::{
    append_chars, chars_contain, chars_equal, find_char, first_index_of, join_strings, join_with, seq_contains,
    str_chars, string_from_chars, string_views,
};

verus! {

/// `prefix` followed by the text between the first `(` and the first `)` of
/// `s`, or `prefix` alone when either is missing.
pub open spec fn with_amount(prefix: Seq<char>, s: Seq<char>) -> Seq<char> {
    match (first_index_of(s, '('), first_index_of(s, ')')) {
        (Some(a), Some(b)) => prefix + s.subrange(a + 1, b),
        _ => prefix,
    }
}

/// The first `)` of `s` does not come before its first `(`.
pub open spec fn brackets_in_order(s: Seq<char>) -> bool {
    match (first_index_of(s, '('), first_index_of(s, ')')) {
        (Some(a), Some(b)) => a < b,
        _ => true,
    }
}

/// The amount is cut out of `s`: it names none of fold, check and call, but
/// one of bet, raise and all-in.
pub open spec fn takes_amount(s: Seq<char>) -> bool {
    &&& !seq_contains(s, seq!['F', 'o', 'l', 'd'])
    &&& !seq_contains(s, seq!['C', 'h', 'e', 'c', 'k'])
    &&& !seq_contains(s, seq!['C', 'a', 'l', 'l'])
    &&& (seq_contains(s, seq!['B', 'e', 't']) || seq_contains(s, seq!['R', 'a', 'i', 's', 'e'])
        || seq_contains(s, seq!['A', 'l', 'l', 'I', 'n']))
}

/// The short label of an action written as `Fold`, `Check`, `Call`,
/// `Bet(x)`, `Raise(x)` or `AllIn(x)`.
pub open spec fn short_action_label(s: Seq<char>) -> Seq<char> {
    if seq_contains(s, seq!['F', 'o', 'l', 'd']) {
        seq!['f', 'o', 'l', 'd']
    } else if seq_contains(s, seq!['C', 'h', 'e', 'c', 'k']) {
        seq!['c', 'h', 'e', 'c', 'k']
    } else if seq_contains(s, seq!['C', 'a', 'l', 'l']) {
        seq!['c', 'a', 'l', 'l']
    } else if seq_contains(s, seq!['B', 'e', 't']) {
        with_amount(seq!['b', 'e', 't'], s)
    } else if seq_contains(s, seq!['R', 'a', 'i', 's', 'e']) {
        with_amount(seq!['r', 'a', 'i', 's', 'e'], s)
    } else if seq_contains(s, seq!['A', 'l', 'l', 'I', 'n']) {
        with_amount(seq!['a', 'l', 'l', 'i', 'n'], s)
    } else {
        seq!['u', 'n', 'k', 'n', 'o', 'w', 'n']
    }
}

/// The path identifier of a line: `F:` and the flop actions joined by `-`,
/// then `T:` and the turn entries (card first) and `R:` and the river
/// entries when there are any, all joined by `", "`.
pub open spec fn path_string(flop: Seq<Seq<char>>, turn: Seq<Seq<char>>, river: Seq<Seq<char>>) -> Seq<char> {
    let f = seq!['F', ':'] + join_with(flop, seq!['-']);
    let t = seq!['T', ':'] + join_with(turn, seq!['-']);
    let r = seq!['R', ':'] + join_with(river, seq!['-']);
    let parts = seq![f] + (if turn.len() > 0 { seq![t] } else { seq![] }) + (if river.len() > 0 {
        seq![r]
    } else {
        seq![]
    });
    join_with(parts, seq![',', ' '])
}

fn label_with_amount(prefix: Vec<char>, chars: &Vec<char>) -> (out: String)
    requires
        brackets_in_order(chars@),
    ensures
        out@ == with_amount(prefix@, chars@),
{
    let mut v = prefix;
    match find_char(chars, '(') {
        Some(start) => match find_char(chars, ')') {
            Some(end) => {
                let mut k = start + 1;
                let ghost base = v@;
                while k < end
                    invariant
                        start < end <= chars@.len(),
                        start + 1 <= k <= end,
                        v@ == base + chars@.subrange(start + 1, k as int),
                    decreases end - k,
                {
                    v.push(chars[k]);
                    assert(chars@.subrange(start + 1, k + 1) == chars@.subrange(start + 1, k as int).push(chars@[k as int]));
                    k += 1;
                }
                string_from_chars(&v)
            },
            None => string_from_chars(&v),
        },
        None => string_from_chars(&v),
    }
}

/// The short label of an action written in its debug form.
pub fn format_action_string(action: &str) -> (label: String)
    requires
        takes_amount(action@) ==> brackets_in_order(action@),
    ensures
        label@ == short_action_label(action@),
{
    let chars = str_chars(action);
    let fold_pat = vec!['F', 'o', 'l', 'd'];
    let check_pat = vec!['C', 'h', 'e', 'c', 'k'];
    let call_pat = vec!['C', 'a', 'l', 'l'];
    let bet_pat = vec!['B', 'e', 't'];
    let raise_pat = vec!['R', 'a', 'i', 's', 'e'];
    let allin_pat = vec!['A', 'l', 'l', 'I', 'n'];
    assert(fold_pat@ =~= seq!['F', 'o', 'l', 'd']);
    assert(check_pat@ =~= seq!['C', 'h', 'e', 'c', 'k']);
    assert(call_pat@ =~= seq!['C', 'a', 'l', 'l']);
    assert(bet_pat@ =~= seq!['B', 'e', 't']);
    assert(raise_pat@ =~= seq!['R', 'a', 'i', 's', 'e']);
    assert(allin_pat@ =~= seq!['A', 'l', 'l', 'I', 'n']);
    if chars_contain(&chars, &fold_pat) {
        let v = vec!['f', 'o', 'l', 'd'];
        assert(v@ =~= seq!['f', 'o', 'l', 'd']);
        string_from_chars(&v)
    } else if chars_contain(&chars, &check_pat) {
        let v = vec!['c', 'h', 'e', 'c', 'k'];
        assert(v@ =~= seq!['c', 'h', 'e', 'c', 'k']);
        string_from_chars(&v)
    } else if chars_contain(&chars, &call_pat) {
        let v = vec!['c', 'a', 'l', 'l'];
        assert(v@ =~= seq!['c', 'a', 'l', 'l']);
        string_from_chars(&v)
    } else if chars_contain(&chars, &bet_pat) {
        let v = vec!['b', 'e', 't'];
        assert(v@ =~= seq!['b', 'e', 't']);
        label_with_amount(v, &chars)
    } else if chars_contain(&chars, &raise_pat) {
        let v = vec!['r', 'a', 'i', 's', 'e'];
        assert(v@ =~= seq!['r', 'a', 'i', 's', 'e']);
        label_with_amount(v, &chars)
    } else if chars_contain(&chars, &allin_pat) {
        let v = vec!['a', 'l', 'l', 'i', 'n'];
        assert(v@ =~= seq!['a', 'l', 'l', 'i', 'n']);
        label_with_amount(v, &chars)
    } else {
        let v = vec!['u', 'n', 'k', 'n', 'o', 'w', 'n'];
        assert(v@ =~= seq!['u', 'n', 'k', 'n', 'o', 'w', 'n']);
        string_from_chars(&v)
    }
}

/// The path identifier of a line of play.
pub fn format_path_string(flop_actions: &[String], turn_actions: &[String], river_actions: &[String]) -> (path: String)
    ensures
        path@ == path_string(
            string_views(flop_actions@),
            string_views(turn_actions@),
            string_views(river_actions@),
        ),
{
    let dash = vec!['-'];
    assert(dash@ =~= seq!['-']);
    let mut parts: Vec<String> = Vec::new();
    let mut f = vec!['F', ':'];
    assert(f@ =~= seq!['F', ':']);
    let flop = join_strings(flop_actions, &dash);
    append_chars(&mut f, &flop);
    let fstr = string_from_chars(&f);
    parts.push(fstr);
    let ghost after_f = parts@;
    assert(string_views(parts@) =~= seq![fstr@]);
    if turn_actions.len() > 0 {
        let mut t = vec!['T', ':'];
        assert(t@ =~= seq!['T', ':']);
        let turn = join_strings(turn_actions, &dash);
        append_chars(&mut t, &turn);
        let tstr = string_from_chars(&t);
        let ghost before = parts@;
        parts.push(tstr);
        assert(string_views(parts@) =~= string_views(before).push(tstr@));
    }
    if river_actions.len() > 0 {
        let mut r = vec!['R', ':'];
        assert(r@ =~= seq!['R', ':']);
        let river = join_strings(river_actions, &dash);
        append_chars(&mut r, &river);
        let rstr = string_from_chars(&r);
        let ghost before = parts@;
        parts.push(rstr);
        assert(string_views(parts@) =~= string_views(before).push(rstr@));
    }
    let sep = vec![',', ' '];
    assert(sep@ =~= seq![',', ' ']);
    let joined = join_strings(parts.as_slice(), &sep);
    proof {
        let fs = seq!['F', ':'] + join_with(string_views(flop_actions@), seq!['-']);
        let ts = seq!['T', ':'] + join_with(string_views(turn_actions@), seq!['-']);
        let rs = seq!['R', ':'] + join_with(string_views(river_actions@), seq!['-']);
        let expected = seq![fs] + (if turn_actions@.len() > 0 { seq![ts] } else { seq![] }) + (
        if river_actions@.len() > 0 {
            seq![rs]
        } else {
            seq![]
        });
        assert(string_views(parts@) =~= expected);
    }
    string_from_chars(&joined)
}

/// A range in the solver's input notation: `hand:weight` entries joined by `,`.
pub open spec fn range_notation(hands: Seq<Seq<char>>, weights: Seq<Seq<char>>) -> Seq<char> {
    join_with(Seq::new(hands.len(), |i: int| hands[i] + seq![':'] + weights[i]), seq![','])
}

/// Writes a range in the solver's input notation from the names of its
/// hands and their (already formatted) weights.
pub fn range_string(hands: &[String], weights: &[String]) -> (range: String)
    requires
        hands@.len() == weights@.len(),
    ensures
        range@ == range_notation(string_views(hands@), string_views(weights@)),
{
    let mut entries: Vec<String> = Vec::new();
    let mut i: usize = 0;
    let ghost hv = string_views(hands@);
    let ghost wv = string_views(weights@);
    while i < hands.len()
        invariant
            i <= hands@.len() == weights@.len(),
            hv == string_views(hands@),
            wv == string_views(weights@),
            string_views(entries@) =~= Seq::new(i as nat, |k: int| hv[k] + seq![':'] + wv[k]),
        decreases hands@.len() - i,
    {
        let mut entry = crate::text::string_chars(&hands[i]);
        entry.push(':');
        let w = crate::text::string_chars(&weights[i]);
        append_chars(&mut entry, &w);
        let e = string_from_chars(&entry);
        assert(hv[i as int] == hands@[i as int]@);
        assert(wv[i as int] == weights@[i as int]@);
        assert(e@ =~= hv[i as int] + seq![':'] + wv[i as int]);
        let ghost before = entries@;
        entries.push(e);
        assert(string_views(entries@) =~= string_views(before).push(e@));
        i += 1;
    }
    let comma = vec![','];
    assert(comma@ =~= seq![',']);
    let joined = join_strings(entries.as_slice(), &comma);
    string_from_chars(&joined)
}

/// The character used in a file name for `c`: `:`, space, `,` and `-`
/// become `_`.
pub open spec fn file_char(c: char) -> char {
    if c == ':' || c == ' ' || c == ',' || c == '-' {
        '_'
    } else {
        c
    }
}

/// The file name stem of results saved under a path identifier.
pub fn result_file_stem(path_id: &str) -> (stem: String)
    ensures
        stem@ == path_id@.map_values(|c: char| file_char(c)),
{
    let chars = str_chars(path_id);
    let mut out: Vec<char> = Vec::new();
    let mut i: usize = 0;
    while i < chars.len()
        invariant
            i <= chars@.len(),
            out@ =~= chars@.subrange(0, i as int).map_values(|c: char| file_char(c)),
        decreases chars@.len() - i,
    {
        let c = chars[i];
        out.push(if c == ':' || c == ' ' || c == ',' || c == '-' { '_' } else { c });
        i += 1;
    }
    assert(chars@.subrange(0, chars@.len() as int) =~= chars@);
    string_from_chars(&out)
}

/// A street of the hand.
#[derive(Clone, Copy, Debug, PartialEq, Eq, Structural)]
pub enum Street {
    Flop,
    Turn,
    River,
}

/// The street of a board of `len` cards: the turn with four cards, the
/// river with five, the flop otherwise.
pub open spec fn street_of_board_spec(len: nat) -> Street {
    if len == 4 {
        Street::Turn
    } else if len == 5 {
        Street::River
    } else {
        Street::Flop
    }
}

/// The street of a board of `len` cards.
pub fn street_of_board(len: usize) -> (street: Street)
    ensures
        street == street_of_board_spec(len as nat),
{
    if len == 4 {
        Street::Turn
    } else if len == 5 {
        Street::River
    } else {
        Street::Flop
    }
}

/// The name under which the walk through the ranges reports a board of
/// `len` cards.
pub open spec fn board_street_name_spec(len: nat) -> Seq<char> {
    if len == 3 {
        seq!['F', 'L', 'O', 'P']
    } else if len == 4 {
        seq!['T', 'U', 'R', 'N']
    } else if len == 5 {
        seq!['R', 'I', 'V', 'E', 'R']
    } else {
        seq!['U', 'N', 'K', 'N', 'O', 'W', 'N']
    }
}

/// The name of the street of a board of `len` cards.
pub fn board_street_name(len: usize) -> (name: &'static str)
    ensures
        name@ == board_street_name_spec(len as nat),
{
    if len == 3 {
        proof { reveal_strlit("FLOP"); }
        "FLOP"
    } else if len == 4 {
        proof { reveal_strlit("TURN"); }
        "TURN"
    } else if len == 5 {
        proof { reveal_strlit("RIVER"); }
        "RIVER"
    } else {
        proof { reveal_strlit("UNKNOWN"); }
        "UNKNOWN"
    }
}

/// The street dealt at a chance spot of the given player: the turn for
/// `"turn"`, the river for `"river"`, none otherwise.
pub open spec fn dealt_street_spec(player: Seq<char>) -> Option<Street> {
    if player == seq!['t', 'u', 'r', 'n'] {
        Some(Street::Turn)
    } else if player == seq!['r', 'i', 'v', 'e', 'r'] {
        Some(Street::River)
    } else {
        None
    }
}

/// The street dealt at a chance spot of the given player.
pub fn dealt_street(player: &str) -> (street: Option<Street>)
    ensures
        street == dealt_street_spec(player@),
{
    let p = str_chars(player);
    let turn = vec!['t', 'u', 'r', 'n'];
    let river = vec!['r', 'i', 'v', 'e', 'r'];
    assert(turn@ =~= seq!['t', 'u', 'r', 'n']);
    assert(river@ =~= seq!['r', 'i', 'v', 'e', 'r']);
    if chars_equal(&p, &turn) {
        Some(Street::Turn)
    } else if chars_equal(&p, &river) {
        Some(Street::River)
    } else {
        None
    }
}

/// The step of the exploration tree for a dealt card: `Turn`, `River` or
/// the player's own name, then `:` and the card.
pub open spec fn dealt_card_step(player: Seq<char>, card: Seq<char>) -> Seq<char> {
    let head = match dealt_street_spec(player) {
        Some(Street::Turn) => seq!['T', 'u', 'r', 'n'],
        Some(Street::River) => seq!['R', 'i', 'v', 'e', 'r'],
        _ => player,
    };
    head + seq![':'] + card
}

/// The step of the exploration tree for a dealt card.
pub fn dealt_card_step_string(player: &str, card: &str) -> (step: String)
    ensures
        step@ == dealt_card_step(player@, card@),
{
    let mut head = match dealt_street(player) {
        Some(Street::Turn) => {
            let v = vec!['T', 'u', 'r', 'n'];
            assert(v@ =~= seq!['T', 'u', 'r', 'n']);
            v
        },
        Some(Street::River) => {
            let v = vec!['R', 'i', 'v', 'e', 'r'];
            assert(v@ =~= seq!['R', 'i', 'v', 'e', 'r']);
            v
        },
        _ => str_chars(player),
    };
    head.push(':');
    let c = str_chars(card);
    append_chars(&mut head, &c);
    string_from_chars(&head)
}

/// The entries of a line of play, street by street: the actions of the
/// flop, then on the turn and the river the dealt card followed by the
/// actions.
#[derive(Clone, Debug)]
pub struct StreetPath {
    pub flop: Vec<String>,
    pub turn: Vec<String>,
    pub river: Vec<String>,
}

impl StreetPath {
    /// The entries recorded for `street`.
    pub open spec fn entries(self, street: Street) -> Seq<Seq<char>> {
        match street {
            Street::Flop => string_views(self.flop@),
            Street::Turn => string_views(self.turn@),
            Street::River => string_views(self.river@),
        }
    }

    /// The path identifier of the line.
    pub open spec fn id(self) -> Seq<char> {
        path_string(self.entries(Street::Flop), self.entries(Street::Turn), self.entries(Street::River))
    }

    /// A line with no entries.
    pub fn new() -> (path: StreetPath)
        ensures
            forall|s: Street| #[trigger] path.entries(s) == Seq::<Seq<char>>::empty(),
    {
        let path = StreetPath { flop: Vec::new(), turn: Vec::new(), river: Vec::new() };
        assert(string_views(path.flop@) =~= Seq::<Seq<char>>::empty());
        assert(string_views(path.turn@) =~= Seq::<Seq<char>>::empty());
        assert(string_views(path.river@) =~= Seq::<Seq<char>>::empty());
        path
    }

    /// Records `entry` at the end of the entries of `street`.
    pub fn push(&mut self, street: Street, entry: String)
        ensures
            final(self).entries(street) == old(self).entries(street).push(entry@),
            forall|s: Street| s != street ==> #[trigger] final(self).entries(s) == old(self).entries(s),
    {
        let ghost e = entry@;
        match street {
            Street::Flop => {
                let ghost before = self.flop@;
                self.flop.push(entry);
                assert(string_views(self.flop@) =~= string_views(before).push(e));
            },
            Street::Turn => {
                let ghost before = self.turn@;
                self.turn.push(entry);
                assert(string_views(self.turn@) =~= string_views(before).push(e));
            },
            Street::River => {
                let ghost before = self.river@;
                self.river.push(entry);
                assert(string_views(self.river@) =~= string_views(before).push(e));
            },
        }
    }

    /// Removes the last entry of `street` and returns it; `None`, with
    /// nothing changed, when `street` has no entry.
    pub fn pop(&mut self, street: Street) -> (last: Option<String>)
        ensures
            old(self).entries(street).len() == 0 ==> last is None && final(self).entries(street)
                == old(self).entries(street),
            old(self).entries(street).len() > 0 ==> last is Some && last->0@ == old(
                self,
            ).entries(street).last() && final(self).entries(street) == old(
                self,
            ).entries(street).drop_last(),
            forall|s: Street| s != street ==> #[trigger] final(self).entries(s) == old(self).entries(s),
    {
        match street {
            Street::Flop => {
                let ghost before = self.flop@;
                let last = self.flop.pop();
                proof {
                    if before.len() > 0 {
                        assert(string_views(self.flop@) =~= string_views(before).drop_last());
                    }
                }
                last
            },
            Street::Turn => {
                let ghost before = self.turn@;
                let last = self.turn.pop();
                proof {
                    if before.len() > 0 {
                        assert(string_views(self.turn@) =~= string_views(before).drop_last());
                    }
                }
                last
            },
            Street::River => {
                let ghost before = self.river@;
                let last = self.river.pop();
                proof {
                    if before.len() > 0 {
                        assert(string_views(self.river@) =~= string_views(before).drop_last());
                    }
                }
                last
            },
        }
    }

    /// The path identifier of the line.
    pub fn path_id(&self) -> (id: String)
        ensures
            id@ == self.id(),
    {
        format_path_string(self.flop.as_slice(), self.turn.as_slice(), self.river.as_slice())
    }
}

} // verus!
