//! Navigation through the game tree as the result viewer does it: a list of
//! spots (the root, player decisions, dealt cards, the end of the hand),
//! which of them are selected, and how the list is cut and extended when an
//! action is played or a card is dealt.
//!
//! Every spot carries a payload `V` that this module never reads (the
//! viewer keeps pot sizes, stacks, equities and action rates there).

use vstd::prelude::*;
use crate::text::{chars_equal, str_chars, string_chars, string_from_chars, append_chars};

verus! {

/// The kind of a spot.
#[derive(Clone, Copy, Debug, PartialEq, Eq, Structural)]
pub enum SpotType {
    Root,
    Player,
    Chance,
    Terminal,
}

/// An action offered at a player spot.
#[derive(Clone, Debug)]
pub struct Action {
    pub index: usize,
    pub name: String,
    pub amount: String,
    pub is_selected: bool,
}

/// A card offered at a chance spot.
#[derive(Clone, Copy, Debug)]
pub struct SpotCard {
    pub card: usize,
    pub is_selected: bool,
    pub is_dead: bool,
}

/// A spot of the navigation list.
#[derive(Clone, Debug)]
pub struct Spot<V> {
    pub spot_type: SpotType,
    pub index: usize,
    pub player: String,
    pub selected_index: i32,
    pub actions: Vec<Action>,
    pub cards: Vec<SpotCard>,
    pub prev_player: Option<String>,
    pub values: V,
}

/// The navigation list and its selection.
#[derive(Clone, Debug)]
pub struct NavState<V> {
    pub spots: Vec<Spot<V>>,
    pub selected_spot_index: i32,
    pub selected_chance_index: i32,
    pub is_dealing: bool,
}

/// The selections (action or card index) of the spots `1 .. end` that have
/// one, in order: the history that leads from the root to spot `end`.
pub open spec fn history_spec<V>(spots: Seq<Spot<V>>, end: int) -> Seq<usize>
    decreases end,
{
    if end <= 1 {
        seq![]
    } else {
        let prev = history_spec(spots, end - 1);
        let sel = spots[end - 1].selected_index;
        if sel != -1 {
            prev.push(sel as usize)
        } else {
            prev
        }
    }
}

/// The history that leads from the root to spot `end`.
pub fn history_from_spots<V>(spots: &Vec<Spot<V>>, end: usize) -> (history: Vec<usize>)
    requires
        end <= spots@.len(),
    ensures
        history@ == history_spec(spots@, end as int),
{
    let mut history: Vec<usize> = Vec::new();
    let mut i: usize = 1;
    if end <= 1 {
        return history;
    }
    while i < end
        invariant
            1 <= i <= end <= spots@.len(),
            history@ == history_spec(spots@, i as int),
        decreases end - i,
    {
        let sel = spots[i].selected_index;
        if sel != -1 {
            history.push(sel as usize);
        }
        i += 1;
    }
    history
}

/// Selecting `spot_index` changes nothing: it is already the selected spot
/// (and no card was just dealt), it is the selected chance spot, or it is a
/// chance spot beyond a selected chance spot that has no card yet.
pub open spec fn selection_unchanged<V>(
    state: NavState<V>,
    spot_index: int,
    need_splice: bool,
    from_deal: bool,
) -> bool {
    let c = state.selected_chance_index;
    !need_splice && ((spot_index == state.selected_spot_index as usize && !from_deal)
        || spot_index == c as usize || (state.spots@[spot_index].spot_type == SpotType::Chance
        && c != -1 && state.spots@[c as usize as int].selected_index == -1 && spot_index
        > c as usize))
}

/// The indices that selecting `spot_index` reads without checking.
pub open spec fn selection_check_in_bounds<V>(
    state: NavState<V>,
    spot_index: int,
    need_splice: bool,
    from_deal: bool,
) -> bool {
    let c = state.selected_chance_index;
    !need_splice && !(spot_index == state.selected_spot_index as usize && !from_deal)
        && spot_index != c as usize ==> {
        &&& spot_index < state.spots@.len()
        &&& (state.spots@[spot_index].spot_type == SpotType::Chance && c != -1) ==> (c as usize)
            < state.spots@.len()
    }
}

/// Whether selecting `spot_index` changes nothing (see `selection_unchanged`).
pub fn select_spot_is_unchanged<V>(
    state: &NavState<V>,
    spot_index: usize,
    need_splice: bool,
    from_deal: bool,
) -> (res: bool)
    requires
        selection_check_in_bounds(*state, spot_index as int, need_splice, from_deal),
    ensures
        res == selection_unchanged(*state, spot_index as int, need_splice, from_deal),
{
    let c = state.selected_chance_index;
    !need_splice && ((spot_index == state.selected_spot_index as usize && !from_deal) || spot_index
        == c as usize || (state.spots[spot_index].spot_type == SpotType::Chance && c != -1
        && state.spots[c as usize].selected_index == -1 && spot_index > c as usize))
}

/// The first chance spot below `upto` that has no card yet.
pub open spec fn first_open_chance<V>(spots: Seq<Spot<V>>, upto: int) -> Option<int>
    decreases upto,
{
    if upto <= 0 {
        None
    } else {
        match first_open_chance(spots, upto - 1) {
            Some(i) => Some(i),
            None => if spots[upto - 1].spot_type == SpotType::Chance && spots[upto
                - 1].selected_index == -1 {
                Some(upto - 1)
            } else {
                None
            },
        }
    }
}

/// The selected spot and selected chance spot after selecting `spot_index`,
/// starting from the chance selection `chance` (the state's, or `-1` right
/// after a card was dealt). A chance spot selected without splicing becomes
/// the chance selection and the spot after it the spot selection;
/// otherwise `spot_index` becomes the spot selection, a chance selection at
/// or after it is dropped, and with no chance selection the first chance
/// spot before it that has no card yet is taken.
pub open spec fn selection_after<V>(
    state: NavState<V>,
    spot_index: int,
    need_splice: bool,
    chance: i32,
) -> (i32, i32) {
    let spots = state.spots@;
    if !need_splice && spots[spot_index].spot_type == SpotType::Chance {
        let s = state.selected_spot_index;
        (if s < (spot_index + 1) { (spot_index + 1) as i32 } else { s }, spot_index as i32)
    } else if spot_index <= chance {
        (spot_index as i32, -1i32)
    } else if chance == -1 {
        (spot_index as i32, match first_open_chance(spots, spot_index) {
            Some(i) => i as i32,
            None => -1i32,
        })
    } else {
        (spot_index as i32, chance)
    }
}

/// Computes `selection_after`.
pub fn selection_after_select<V>(
    state: &NavState<V>,
    spot_index: usize,
    need_splice: bool,
    chance: i32,
) -> (res: (i32, i32))
    requires
        spot_index <= state.spots@.len(),
        !need_splice ==> spot_index < state.spots@.len(),
        state.spots@.len() < i32::MAX,
    ensures
        res == selection_after(*state, spot_index as int, need_splice, chance),
{
    let mut spot_tmp = state.selected_spot_index;
    let mut chance_tmp = chance;
    if !need_splice && state.spots[spot_index].spot_type == SpotType::Chance {
        chance_tmp = spot_index as i32;
        if spot_tmp < (spot_index + 1) as i32 {
            spot_tmp = (spot_index + 1) as i32;
        }
    } else {
        spot_tmp = spot_index as i32;
        if (spot_index as i32) <= chance_tmp {
            chance_tmp = -1;
        } else if chance_tmp == -1 {
            let mut i: usize = 0;
            while i < spot_index && chance_tmp == -1
                invariant
                    i <= spot_index <= state.spots@.len(),
                    state.spots@.len() < i32::MAX,
                    chance_tmp == -1 ==> first_open_chance(state.spots@, i as int) is None,
                    chance_tmp != -1 ==> 0 <= chance_tmp && first_open_chance(state.spots@, spot_index as int)
                        == Some(chance_tmp as int),
                decreases spot_index - i,
            {
                if state.spots[i].spot_type == SpotType::Chance && state.spots[i].selected_index
                    == -1 {
                    chance_tmp = i as i32;
                    assert(first_open_chance(state.spots@, i + 1) == Some(i as int));
                    proof {
                        lemma_first_open_chance_stable(state.spots@, i + 1, spot_index as int);
                    }
                }
                i += 1;
            }
        }
    }
    (spot_tmp, chance_tmp)
}

proof fn lemma_first_open_chance_stable<V>(spots: Seq<Spot<V>>, i: int, j: int)
    requires
        i <= j,
        first_open_chance(spots, i) is Some,
    ensures
        first_open_chance(spots, j) == first_open_chance(spots, i),
    decreases j - i,
{
    if i < j {
        lemma_first_open_chance_stable(spots, i, j - 1);
    }
}

/// The label of a played action in a path: its name followed by its
/// amount, or the name alone when the amount is `"0"`.
pub open spec fn action_path_label(a: Action) -> Seq<char> {
    if a.amount@ != seq!['0'] {
        a.name@ + a.amount@
    } else {
        a.name@
    }
}

/// `"turn"`.
pub open spec fn turn_word() -> Seq<char> {
    seq!['t', 'u', 'r', 'n']
}

/// `"river"`.
pub open spec fn river_word() -> Seq<char> {
    seq!['r', 'i', 'v', 'e', 'r']
}

/// The labels of the actions played at the player spots `1 .. end` that
/// belong to the flop (their player is neither `"turn"` nor `"river"`).
pub open spec fn flop_labels_spec<V>(spots: Seq<Spot<V>>, end: int) -> Seq<Seq<char>>
    decreases end,
{
    if end <= 1 {
        seq![]
    } else {
        let prev = flop_labels_spec(spots, end - 1);
        let s = spots[end - 1];
        if s.selected_index != -1 && s.spot_type == SpotType::Player && s.player@ != turn_word()
            && s.player@ != river_word() && (s.selected_index as usize) < s.actions@.len() {
            prev.push(action_path_label(s.actions@[s.selected_index as usize as int]))
        } else {
            prev
        }
    }
}

/// The label of a played action in a path.
pub fn action_path_label_string(action: &Action) -> (label: String)
    ensures
        label@ == action_path_label(*action),
{
    let amount = string_chars(&action.amount);
    let zero = vec!['0'];
    let mut name = string_chars(&action.name);
    if !chars_equal(&amount, &zero) {
        append_chars(&mut name, &amount);
    }
    proof {
        assert(zero@ =~= seq!['0']);
    }
    string_from_chars(&name)
}

/// The label of an action in the exploration tree: its name, a space and
/// its amount, or the name alone when the amount is `"0"`.
pub open spec fn action_tree_label(a: Action) -> Seq<char> {
    if a.amount@ != seq!['0'] {
        a.name@ + seq![' '] + a.amount@
    } else {
        a.name@
    }
}

/// The label of an action in the exploration tree.
pub fn action_tree_label_string(action: &Action) -> (label: String)
    ensures
        label@ == action_tree_label(*action),
{
    let amount = string_chars(&action.amount);
    let zero = vec!['0'];
    let mut name = string_chars(&action.name);
    if !chars_equal(&amount, &zero) {
        name.push(' ');
        append_chars(&mut name, &amount);
    }
    proof {
        assert(zero@ =~= seq!['0']);
    }
    string_from_chars(&name)
}

/// The text with which the walks through the tree show an action: its
/// name, a space, then its amount unless that is `"0"`.
pub open spec fn action_menu_text(a: Action) -> Seq<char> {
    a.name@ + seq![' '] + (if a.amount@ != seq!['0'] {
        a.amount@
    } else {
        seq![]
    })
}

/// The text with which the walks through the tree show an action.
pub fn action_menu_text_string(action: &Action) -> (text: String)
    ensures
        text@ == action_menu_text(*action),
{
    let amount = string_chars(&action.amount);
    let zero = vec!['0'];
    let mut name = string_chars(&action.name);
    name.push(' ');
    if !chars_equal(&amount, &zero) {
        append_chars(&mut name, &amount);
    }
    proof {
        assert(zero@ =~= seq!['0']);
        if amount@ == seq!['0'] {
            assert(name@ =~= action.name@ + seq![' '] + Seq::<char>::empty());
        }
    }
    string_from_chars(&name)
}

/// Whether a string holds exactly the characters of `word`.
fn string_is(s: &String, word: &Vec<char>) -> (res: bool)
    ensures
        res == (s@ == word@),
{
    let c = string_chars(s);
    chars_equal(&c, word)
}

/// The labels of the flop actions played before spot `end`.
pub fn flop_action_labels<V>(spots: &Vec<Spot<V>>, end: usize) -> (labels: Vec<String>)
    requires
        end <= spots@.len(),
    ensures
        crate::text::string_views(labels@) == flop_labels_spec(spots@, end as int),
{
    let mut labels: Vec<String> = Vec::new();
    if end <= 1 {
        assert(crate::text::string_views(labels@) =~= Seq::<Seq<char>>::empty());
        return labels;
    }
    let turn = vec!['t', 'u', 'r', 'n'];
    let river = vec!['r', 'i', 'v', 'e', 'r'];
    assert(turn@ =~= turn_word());
    assert(river@ =~= river_word());
    let mut i: usize = 1;
    assert(crate::text::string_views(labels@) =~= Seq::<Seq<char>>::empty());
    while i < end
        invariant
            1 <= i <= end <= spots@.len(),
            turn@ == turn_word(),
            river@ == river_word(),
            crate::text::string_views(labels@) == flop_labels_spec(spots@, i as int),
        decreases end - i,
    {
        let s = &spots[i];
        if s.selected_index != -1 && s.spot_type == SpotType::Player && !string_is(&s.player, &turn)
            && !string_is(&s.player, &river) && (s.selected_index as usize) < s.actions.len() {
            let label = action_path_label_string(&s.actions[s.selected_index as usize]);
            let ghost before = labels@;
            labels.push(label);
            assert(crate::text::string_views(labels@) =~= crate::text::string_views(before).push(
                label@,
            ));
        }
        i += 1;
    }
    labels
}

/// The selections of the spots `from .. to` (none when `from` is `-1`).
pub open spec fn appended_spec<V>(spots: Seq<Spot<V>>, from: i32, to: i32) -> Seq<i32> {
    if from == -1 || to as usize <= from as usize {
        seq![]
    } else {
        Seq::new((to as usize - from as usize) as nat, |k: int| spots[from as usize + k].selected_index)
    }
}

/// The selections of the spots from the selected chance spot `from` up to
/// the selected spot `to`: the actions to append after a chance node.
pub fn appended_selections<V>(spots: &Vec<Spot<V>>, from: i32, to: i32) -> (append: Vec<i32>)
    requires
        from != -1 && (from as usize) < (to as usize) ==> to as usize <= spots@.len(),
    ensures
        append@ == appended_spec(spots@, from, to),
{
    let mut append: Vec<i32> = Vec::new();
    if from != -1 {
        let start = from as usize;
        let stop = to as usize;
        let mut i = start;
        while i < stop
            invariant
                start <= i,
                start < stop ==> i <= stop <= spots@.len(),
                start >= stop ==> i == start,
                append@ =~= Seq::new((i - start) as nat, |k: int| spots@[start + k].selected_index),
            decreases stop - i,
        {
            append.push(spots[i].selected_index);
            i += 1;
        }
    }
    assert(append@ =~= appended_spec(spots@, from, to));
    append
}

/// Each selection as an action index, `-1` (no selection) standing for 0.
pub open spec fn as_action_indices(v: Seq<i32>) -> Seq<usize> {
    v.map_values(|x: i32| if x < 0 { 0usize } else { x as usize })
}

/// Each selection as an action index, a negative one standing for 0.
pub fn to_action_indices(v: &Vec<i32>) -> (out: Vec<usize>)
    ensures
        out@ == as_action_indices(v@),
{
    let mut out: Vec<usize> = Vec::new();
    let mut i: usize = 0;
    while i < v.len()
        invariant
            i <= v@.len(),
            out@ =~= as_action_indices(v@.subrange(0, i as int)),
        decreases v@.len() - i,
    {
        let x = v[i];
        out.push(if x < 0 { 0 } else { x as usize });
        assert(v@.subrange(0, i + 1) =~= v@.subrange(0, i as int).push(x));
        i += 1;
    }
    assert(v@.subrange(0, v@.len() as int) =~= v@);
    out
}

/// Chance reports can be shown: a chance spot is selected, none of the
/// spots from three after it up to the selected spot is a chance spot, and
/// the node reached is not itself a chance node.
pub open spec fn can_chance_reports_spec<V>(spots: Seq<Spot<V>>, chance: i32, spot: i32, next_is_chance: bool) -> bool {
    chance != -1 && (forall|k: int|
        (chance + 3) as usize <= k < spot as usize ==> #[trigger] spots[k].spot_type
            != SpotType::Chance) && !next_is_chance
}

/// Whether chance reports can be shown for the selection `chance`, `spot`
/// when the node reached lists `next_actions`.
pub fn can_chance_reports<V>(spots: &Vec<Spot<V>>, chance: i32, spot: i32, next_actions: &str) -> (res: bool)
    requires
        chance != -1 ==> {
            &&& 0 <= chance <= i32::MAX - 3
            &&& (chance + 3) as usize <= spot as usize <= spots@.len()
        },
    ensures
        res == can_chance_reports_spec(spots@, chance, spot, next_actions@ == seq!['c', 'h', 'a', 'n', 'c', 'e']),
{
    if chance == -1 {
        return false;
    }
    let start = (chance + 3) as usize;
    let stop = spot as usize;
    let mut k = start;
    while k < stop
        invariant
            start <= k <= stop <= spots@.len(),
            0 <= chance <= i32::MAX - 3,
            start as int == (chance + 3) as usize as int,
            stop as int == spot as usize as int,
            forall|j: int| start <= j < k ==> #[trigger] spots@[j].spot_type != SpotType::Chance,
        decreases stop - k,
    {
        if spots[k].spot_type == SpotType::Chance {
            assert(spots@[k as int].spot_type == SpotType::Chance);
            return false;
        }
        k += 1;
    }
    let word = vec!['c', 'h', 'a', 'n', 'c', 'e'];
    assert(word@ =~= seq!['c', 'h', 'a', 'n', 'c', 'e']);
    let next = str_chars(next_actions);
    !chars_equal(&next, &word)
}

/// The player and number of actions to ask chance reports for: none for a
/// terminal node, otherwise OOP after an odd number of appended actions
/// and IP after an even number, with as many actions as the node lists.
pub open spec fn chance_report_request_spec(next_actions: Seq<char>, append_len: nat) -> (Seq<char>, nat) {
    if next_actions == seq!['t', 'e', 'r', 'm', 'i', 'n', 'a', 'l'] {
        (seq!['t', 'e', 'r', 'm', 'i', 'n', 'a', 'l'], 0)
    } else {
        (if append_len % 2 == 1 { seq!['o', 'o', 'p'] } else { seq!['i', 'p'] }, crate::text::split_on(
            next_actions,
            '/',
        ).len())
    }
}

/// The player and number of actions to ask chance reports for.
pub fn chance_report_request(next_actions: &str, append_len: usize) -> (res: (String, usize))
    ensures
        (res.0@, res.1 as nat) == chance_report_request_spec(next_actions@, append_len as nat),
{
    let next = str_chars(next_actions);
    let terminal = vec!['t', 'e', 'r', 'm', 'i', 'n', 'a', 'l'];
    assert(terminal@ =~= seq!['t', 'e', 'r', 'm', 'i', 'n', 'a', 'l']);
    if chars_equal(&next, &terminal) {
        (string_from_chars(&terminal), 0)
    } else {
        let player = if append_len % 2 == 1 {
            let v = vec!['o', 'o', 'p'];
            assert(v@ =~= seq!['o', 'o', 'p']);
            v
        } else {
            let v = vec!['i', 'p'];
            assert(v@ =~= seq!['i', 'p']);
            v
        };
        let pieces = crate::text::split_chars(&next, '/');
        assert(pieces@.len() == crate::text::views_of(pieces@).len());
        (string_from_chars(&player), pieces.len())
    }
}

/// Why an action cannot be played or a card cannot be dealt.
#[derive(Clone, Copy, Debug, PartialEq, Eq, Structural)]
pub enum NavError {
    /// No spot at this index.
    SpotNotFound(usize),
    /// The spot at this index is not a player spot.
    NotPlayerSpot(usize),
    /// The selected spot has no action at this index.
    ActionNotFound(usize),
    /// No chance spot is selected.
    NoChanceSelected,
    /// The selected chance spot is not a chance spot.
    NotChanceSpot,
    /// The card at this index cannot be dealt.
    DeadCard(usize),
}

/// The actions with the one at `sel` (if any) no longer selected.
pub open spec fn deselect_action(actions: Seq<Action>, sel: i32) -> Seq<Action> {
    if sel != -1 && (sel as usize) < actions.len() {
        actions.update(sel as usize as int, Action { is_selected: false, ..actions[sel as usize as int] })
    } else {
        actions
    }
}

/// Plays action `action_index` at the selected spot: the action selected
/// before (if any) is deselected, the new one selected and recorded as the
/// spot's selection. Returns the index of the spot after it, which is then
/// to be selected with splicing.
pub fn play_action<V>(state: &mut NavState<V>, action_index: usize) -> (res: Result<usize, NavError>)
    ensures
        ({
            let i = old(state).selected_spot_index as usize;
            let old_spots = old(state).spots@;
            &&& final(state).selected_spot_index == old(state).selected_spot_index
            &&& final(state).selected_chance_index == old(state).selected_chance_index
            &&& final(state).is_dealing == old(state).is_dealing
            &&& if i >= old_spots.len() {
                &&& res == Err::<usize, NavError>(NavError::SpotNotFound(i))
                &&& final(state).spots@ == old_spots
            } else if old_spots[i as int].spot_type != SpotType::Player {
                &&& res == Err::<usize, NavError>(NavError::NotPlayerSpot(i))
                &&& final(state).spots@ == old_spots
            } else {
                let spot = old_spots[i as int];
                let cleared = deselect_action(spot.actions@, spot.selected_index);
                &&& final(state).spots@.len() == old_spots.len()
                &&& forall|j: int| 0 <= j < old_spots.len() && j != i ==> #[trigger] final(state).spots@[j] == old_spots[j]
                &&& {
                    let new_spot = final(state).spots@[i as int];
                    &&& new_spot.spot_type == spot.spot_type
                    &&& new_spot.index == spot.index
                    &&& new_spot.player == spot.player
                    &&& new_spot.cards == spot.cards
                    &&& new_spot.prev_player == spot.prev_player
                    &&& new_spot.values == spot.values
                    &&& if action_index >= spot.actions@.len() {
                        &&& res == Err::<usize, NavError>(NavError::ActionNotFound(action_index))
                        &&& new_spot.actions@ == cleared
                        &&& new_spot.selected_index == spot.selected_index
                    } else {
                        &&& res == Ok::<usize, NavError>((i + 1) as usize)
                        &&& new_spot.actions@ == cleared.update(
                            action_index as int,
                            Action { is_selected: true, ..cleared[action_index as int] },
                        )
                        &&& new_spot.selected_index == action_index as i32
                    }
                }
            }
        }),
{
    let spot_index = state.selected_spot_index as usize;
    if spot_index >= state.spots.len() {
        return Err(NavError::SpotNotFound(spot_index));
    }
    if state.spots[spot_index].spot_type != SpotType::Player {
        return Err(NavError::NotPlayerSpot(spot_index));
    }
    let sel = state.spots[spot_index].selected_index;
    if sel != -1 && (sel as usize) < state.spots[spot_index].actions.len() {
        state.spots[spot_index].actions[sel as usize].is_selected = false;
    }
    if action_index >= state.spots[spot_index].actions.len() {
        return Err(NavError::ActionNotFound(action_index));
    }
    state.spots[spot_index].actions[action_index].is_selected = true;
    state.spots[spot_index].selected_index = action_index as i32;
    Ok(spot_index + 1)
}

/// The cards with the one at `sel` (if any) no longer selected.
pub open spec fn deselect_card(cards: Seq<SpotCard>, sel: i32) -> Seq<SpotCard> {
    if sel != -1 {
        cards.update(sel as usize as int, SpotCard { is_selected: false, ..cards[sel as usize as int] })
    } else {
        cards
    }
}

/// Deals card `card_index` at the selected chance spot: the card selected
/// before (if any) is deselected, the new one selected and recorded as the
/// spot's selection, and the state marked as dealing. The selected spot is
/// then to be selected again, coming from a deal.
pub fn deal_card<V>(state: &mut NavState<V>, card_index: usize) -> (res: Result<(), NavError>)
    requires
        old(state).selected_chance_index != -1 ==> {
            let c = old(state).selected_chance_index as usize as int;
            let spot = old(state).spots@[c];
            &&& c < old(state).spots@.len()
            &&& (spot.spot_type == SpotType::Chance && card_index < spot.cards@.len()
                && !spot.cards@[card_index as int].is_dead && spot.selected_index != -1) ==> (
            spot.selected_index as usize) < spot.cards@.len()
        },
    ensures
        ({
            let c = old(state).selected_chance_index;
            let old_spots = old(state).spots@;
            &&& final(state).selected_spot_index == old(state).selected_spot_index
            &&& final(state).selected_chance_index == c
            &&& if c == -1 {
                &&& res == Err::<(), NavError>(NavError::NoChanceSelected)
                &&& *final(state) == *old(state)
            } else {
                let ci = c as usize as int;
                let spot = old_spots[ci];
                if spot.spot_type != SpotType::Chance {
                    &&& res == Err::<(), NavError>(NavError::NotChanceSpot)
                    &&& *final(state) == *old(state)
                } else if card_index >= spot.cards@.len() || spot.cards@[card_index as int].is_dead {
                    &&& res == Err::<(), NavError>(NavError::DeadCard(card_index))
                    &&& *final(state) == *old(state)
                } else {
                    let cleared = deselect_card(spot.cards@, spot.selected_index);
                    let new_spot = final(state).spots@[ci];
                    &&& res == Ok::<(), NavError>(())
                    &&& final(state).is_dealing
                    &&& final(state).spots@.len() == old_spots.len()
                    &&& forall|j: int| 0 <= j < old_spots.len() && j != ci ==> #[trigger] final(state).spots@[j] == old_spots[j]
                    &&& new_spot.cards@ == cleared.update(
                        card_index as int,
                        SpotCard { is_selected: true, ..cleared[card_index as int] },
                    )
                    &&& new_spot.selected_index == card_index as i32
                    &&& new_spot.spot_type == spot.spot_type
                    &&& new_spot.index == spot.index
                    &&& new_spot.player == spot.player
                    &&& new_spot.actions == spot.actions
                    &&& new_spot.prev_player == spot.prev_player
                    &&& new_spot.values == spot.values
                }
            }
        }),
{
    if state.selected_chance_index == -1 {
        return Err(NavError::NoChanceSelected);
    }
    let chance_index = state.selected_chance_index as usize;
    if state.spots[chance_index].spot_type != SpotType::Chance {
        return Err(NavError::NotChanceSpot);
    }
    if card_index >= state.spots[chance_index].cards.len()
        || state.spots[chance_index].cards[card_index].is_dead {
        return Err(NavError::DeadCard(card_index));
    }
    state.is_dealing = true;
    let sel = state.spots[chance_index].selected_index;
    if sel != -1 {
        state.spots[chance_index].cards[sel as usize].is_selected = false;
    }
    state.spots[chance_index].cards[card_index].is_selected = true;
    state.spots[chance_index].selected_index = card_index as i32;
    Ok(())
}

/// The first chance spot at or after `from`, as an index, or `-1`.
pub open spec fn first_chance_from<V>(spots: Seq<Spot<V>>, from: int) -> int
    decreases spots.len() - from,
{
    if from >= spots.len() {
        -1
    } else if spots[from].spot_type == SpotType::Chance {
        from
    } else {
        first_chance_from(spots, from + 1)
    }
}

/// The river spot after a deal at the selected chance spot `chance`: the
/// first chance spot from three spots after it on, or `-1`.
pub fn river_index_after<V>(spots: &Vec<Spot<V>>, chance: i32) -> (river: i32)
    requires
        0 <= chance,
        spots@.len() < i32::MAX,
    ensures
        river == first_chance_from(spots@, chance + 3),
{
    let start = chance as usize + 3;
    let mut k = start;
    while k < spots.len()
        invariant
            start <= k,
            start == chance + 3,
            spots@.len() < i32::MAX,
            first_chance_from(spots@, start as int) == first_chance_from(spots@, k as int),
        decreases spots@.len() - k,
    {
        if spots[k].spot_type == SpotType::Chance {
            return k as i32;
        }
        k += 1;
    }
    -1
}

/// The cards of a spot once `possible_cards` is known: card `i` is dead
/// when bit `i` is clear; a selected card that is dead is deselected.
pub open spec fn cards_marked(cards: Seq<SpotCard>, sel: i32, possible_cards: u64) -> Seq<SpotCard> {
    Seq::new(cards.len(), |i: int| {
        let dead = !crate::actions::card_possible(possible_cards, i);
        SpotCard {
            is_dead: dead,
            is_selected: if sel == i as i32 && dead { false } else { cards[i].is_selected },
            ..cards[i]
        }
    })
}

/// The selection of a spot once `possible_cards` is known: dropped when
/// the selected card is dead.
pub open spec fn selection_marked(len: nat, sel: i32, possible_cards: u64) -> i32 {
    if 0 <= sel < len && !crate::actions::card_possible(possible_cards, sel as int) {
        -1i32
    } else {
        sel
    }
}

/// Marks the cards of a chance spot that cannot be dealt any more.
pub fn mark_dead_cards<V>(spot: &mut Spot<V>, possible_cards: u64)
    requires
        old(spot).cards@.len() <= 64,
    ensures
        final(spot).cards@ == cards_marked(old(spot).cards@, old(spot).selected_index, possible_cards),
        final(spot).selected_index == selection_marked(
            old(spot).cards@.len(),
            old(spot).selected_index,
            possible_cards,
        ),
        final(spot).spot_type == old(spot).spot_type,
        final(spot).index == old(spot).index,
        final(spot).player == old(spot).player,
        final(spot).actions == old(spot).actions,
        final(spot).prev_player == old(spot).prev_player,
        final(spot).values == old(spot).values,
{
    let n = spot.cards.len();
    let ghost old_cards = spot.cards@;
    let ghost old_sel = spot.selected_index;
    let mut i: usize = 0;
    while i < n
        invariant
            n == old_cards.len() == spot.cards@.len(),
            n <= 64,
            i <= n,
            forall|j: int| 0 <= j < i ==> #[trigger] spot.cards@[j] == cards_marked(old_cards, old_sel, possible_cards)[j],
            forall|j: int| i <= j < n ==> #[trigger] spot.cards@[j] == old_cards[j],
            spot.selected_index == if 0 <= old_sel < i && !crate::actions::card_possible(possible_cards, old_sel as int) {
                -1i32
            } else {
                old_sel
            },
            spot.spot_type == old(spot).spot_type,
            spot.index == old(spot).index,
            spot.player == old(spot).player,
            spot.actions == old(spot).actions,
            spot.prev_player == old(spot).prev_player,
            spot.values == old(spot).values,
        decreases n - i,
    {
        let bit = possible_cards & (1u64 << i as u64);
        let is_dead = bit == 0;
        let ii = i as u64;
        assert((possible_cards & (1u64 << ii)) == 0 <==> !((possible_cards >> ii) & 1u64 == 1u64))
            by (bit_vector)
            requires
                ii < 64,
        ;
        spot.cards[i].is_dead = is_dead;
        if spot.selected_index == i as i32 && is_dead {
            spot.cards[i].is_selected = false;
            spot.selected_index = -1;
        }
        i += 1;
    }
    assert(spot.cards@ =~= cards_marked(old_cards, old_sel, possible_cards));
}

/// The name of an action written `Name:amount`: the text before the first `:`.
pub open spec fn action_name_part(piece: Seq<char>) -> Seq<char> {
    crate::text::split_on(piece, ':')[0]
}

/// The amount of an action written `Name:amount`: the text between the
/// first and the second `:`, or `"0"` without a `:`.
pub open spec fn action_amount_part(piece: Seq<char>) -> Seq<char> {
    let parts = crate::text::split_on(piece, ':');
    if parts.len() > 1 {
        parts[1]
    } else {
        seq!['0']
    }
}

/// `actions` are the actions listed in `s` (`Name:amount` entries
/// separated by `/`), in order, none selected.
pub open spec fn actions_listed(actions: Seq<Action>, s: Seq<char>) -> bool {
    let pieces = crate::text::split_on(s, '/');
    &&& actions.len() == pieces.len()
    &&& forall|i: int|
        0 <= i < actions.len() ==> {
            &&& (#[trigger] actions[i]).index == i
            &&& actions[i].name@ == action_name_part(pieces[i])
            &&& actions[i].amount@ == action_amount_part(pieces[i])
            &&& !actions[i].is_selected
        }
}

/// The actions listed in a `Name:amount/Name:amount/...` string.
pub fn parse_action_list(actions_str: &str) -> (actions: Vec<Action>)
    ensures
        actions_listed(actions@, actions_str@),
{
    let chars = str_chars(actions_str);
    let pieces = crate::text::split_chars(&chars, '/');
    let ghost views = crate::text::views_of(pieces@);
    let mut actions: Vec<Action> = Vec::new();
    let mut i: usize = 0;
    while i < pieces.len()
        invariant
            i <= pieces@.len(),
            views == crate::text::views_of(pieces@),
            views == crate::text::split_on(chars@, '/'),
            chars@ == actions_str@,
            actions@.len() == i,
            forall|k: int|
                0 <= k < i ==> {
                    &&& (#[trigger] actions@[k]).index == k
                    &&& actions@[k].name@ == action_name_part(views[k])
                    &&& actions@[k].amount@ == action_amount_part(views[k])
                    &&& !actions@[k].is_selected
                },
        decreases pieces@.len() - i,
    {
        let parts = crate::text::split_chars(&pieces[i], ':');
        assert(views[i as int] == pieces@[i as int]@);
        assert(crate::text::views_of(parts@)[0] == parts@[0]@);
        let name = string_from_chars(&parts[0]);
        let amount = if parts.len() > 1 {
            assert(crate::text::views_of(parts@)[1] == parts@[1]@);
            string_from_chars(&parts[1])
        } else {
            let zero = vec!['0'];
            assert(zero@ =~= seq!['0']);
            string_from_chars(&zero)
        };
        actions.push(Action { index: i, name, amount, is_selected: false });
        i += 1;
    }
    actions
}

/// `"oop"`.
pub open spec fn oop_word() -> Seq<char> {
    seq!['o', 'o', 'p']
}

/// `"ip"`.
pub open spec fn ip_word() -> Seq<char> {
    seq!['i', 'p']
}

/// The player to act after `prev`: IP after OOP, OOP otherwise.
pub open spec fn next_player(prev: Seq<char>) -> Seq<char> {
    if prev == oop_word() {
        ip_word()
    } else {
        oop_word()
    }
}

/// Replaces the spots from `spot_index` on with a player spot whose
/// actions are listed in `actions_str`; the player alternates with the
/// previous spot's.
pub fn splice_spots_player<V>(state: &mut NavState<V>, spot_index: usize, actions_str: &str, values: V)
    requires
        1 <= spot_index <= old(state).spots@.len(),
    ensures
        ({
            let prev = old(state).spots@[spot_index - 1];
            let new_spot = final(state).spots@[spot_index as int];
            &&& final(state).spots@.len() == spot_index + 1
            &&& final(state).spots@.subrange(0, spot_index as int) == old(state).spots@.subrange(0, spot_index as int)
            &&& new_spot.spot_type == SpotType::Player
            &&& new_spot.index == spot_index
            &&& new_spot.player@ == next_player(prev.player@)
            &&& new_spot.selected_index == -1
            &&& new_spot.cards@.len() == 0
            &&& actions_listed(new_spot.actions@, actions_str@)
            &&& new_spot.prev_player == Some(prev.player)
            &&& new_spot.values == values
            &&& final(state).selected_spot_index == old(state).selected_spot_index
            &&& final(state).selected_chance_index == old(state).selected_chance_index
            &&& final(state).is_dealing == old(state).is_dealing
        }),
{
    let prev_player = state.spots[spot_index - 1].player.clone();
    let oop = vec!['o', 'o', 'p'];
    assert(oop@ =~= oop_word());
    let player = if string_is(&prev_player, &oop) {
        let v = vec!['i', 'p'];
        assert(v@ =~= ip_word());
        string_from_chars(&v)
    } else {
        string_from_chars(&oop)
    };
    let actions = parse_action_list(actions_str);
    let new_spot = Spot {
        spot_type: SpotType::Player,
        index: spot_index,
        player,
        selected_index: -1,
        actions,
        cards: Vec::new(),
        prev_player: Some(prev_player),
        values,
    };
    state.spots.truncate(spot_index);
    state.spots.push(new_spot);
}

/// The first spot below `upto` whose player is `"turn"`.
pub open spec fn first_turn_spot<V>(spots: Seq<Spot<V>>, upto: int) -> Option<int>
    decreases upto,
{
    if upto <= 0 {
        None
    } else {
        match first_turn_spot(spots, upto - 1) {
            Some(i) => Some(i),
            None => if spots[upto - 1].player@ == turn_word() {
                Some(upto - 1)
            } else {
                None
            },
        }
    }
}

proof fn lemma_first_turn_spot_stable<V>(spots: Seq<Spot<V>>, i: int, j: int)
    requires
        i <= j,
        first_turn_spot(spots, i) is Some,
    ensures
        first_turn_spot(spots, j) == first_turn_spot(spots, i),
    decreases j - i,
{
    if i < j {
        lemma_first_turn_spot_stable(spots, i, j - 1);
    }
}

/// The first of the spots before `spot_index` whose player is `"turn"`.
pub fn find_turn_spot<V>(spots: &Vec<Spot<V>>, spot_index: usize) -> (res: Option<usize>)
    requires
        spot_index <= spots@.len(),
    ensures
        match res {
            Some(i) => i < spot_index && first_turn_spot(spots@, spot_index as int) == Some(i as int),
            None => first_turn_spot(spots@, spot_index as int) is None,
        },
{
    let turn = vec!['t', 'u', 'r', 'n'];
    assert(turn@ =~= turn_word());
    let mut i: usize = 0;
    while i < spot_index
        invariant
            i <= spot_index <= spots@.len(),
            turn@ == turn_word(),
            first_turn_spot(spots@, i as int) is None,
        decreases spot_index - i,
    {
        if string_is(&spots[i].player, &turn) {
            assert(first_turn_spot(spots@, i + 1) == Some(i as int));
            proof {
                lemma_first_turn_spot_stable(spots@, i + 1, spot_index as int);
            }
            return Some(i);
        }
        i += 1;
    }
    None
}

/// The cards of a new chance spot have to be looked up: unless the turn
/// is a chance spot still waiting for its card, in which case every card
/// of the new (river) spot is dead.
pub open spec fn chance_cards_needed<V>(spots: Seq<Spot<V>>, spot_index: int) -> bool {
    !(first_turn_spot(spots, spot_index) matches Some(t) && spots[t].spot_type == SpotType::Chance
        && spots[t].selected_index == -1)
}

/// Whether the cards of a new chance spot at `spot_index` have to be looked up.
pub fn chance_cards_needed_at<V>(spots: &Vec<Spot<V>>, spot_index: usize) -> (res: bool)
    requires
        spot_index <= spots@.len(),
    ensures
        res == chance_cards_needed(spots@, spot_index as int),
{
    match find_turn_spot(spots, spot_index) {
        Some(t) => !(spots[t].spot_type == SpotType::Chance && spots[t].selected_index == -1),
        None => true,
    }
}

/// The 52 cards of a new chance spot, none selected, dead where the bit of
/// `possible_cards` is clear.
pub open spec fn dealable_cards(possible_cards: u64) -> Seq<SpotCard> {
    Seq::new(
        52,
        |i: int|
            SpotCard {
                card: i as usize,
                is_selected: false,
                is_dead: !crate::actions::card_possible(possible_cards, i),
            },
    )
}

/// The 52 cards of a new chance spot.
pub fn dealable_card_list(possible_cards: u64) -> (cards: Vec<SpotCard>)
    ensures
        cards@ == dealable_cards(possible_cards),
{
    let mut cards: Vec<SpotCard> = Vec::new();
    let mut i: usize = 0;
    while i < 52
        invariant
            i <= 52,
            cards@ =~= dealable_cards(possible_cards).subrange(0, i as int),
        decreases 52 - i,
    {
        let ii = i as u64;
        let is_dead = (possible_cards & (1u64 << ii)) == 0;
        assert((possible_cards & (1u64 << ii)) == 0 <==> !((possible_cards >> ii) & 1u64 == 1u64))
            by (bit_vector)
            requires
                ii < 52,
        ;
        cards.push(SpotCard { card: i, is_selected: false, is_dead });
        i += 1;
    }
    cards
}

/// Replaces the spots from `spot_index` on with a chance spot (the turn,
/// or the river when a turn spot comes before) and the OOP player spot
/// that follows it, whose actions are listed in `actions_str`. Returns the
/// new chance selection (the new chance spot unless one was selected) and
/// the new spot selection (the player spot).
pub fn splice_spots_chance<V>(
    state: &mut NavState<V>,
    spot_index: usize,
    actions_str: &str,
    possible_cards: u64,
    chance_values: V,
    player_values: V,
) -> (res: (i32, i32))
    requires
        1 <= spot_index <= old(state).spots@.len(),
        spot_index + 1 < i32::MAX,
    ensures
        ({
            let old_spots = old(state).spots@;
            let prev = old_spots[spot_index - 1];
            let chance = final(state).spots@[spot_index as int];
            let player = final(state).spots@[spot_index + 1];
            &&& final(state).spots@.len() == spot_index + 2
            &&& final(state).spots@.subrange(0, spot_index as int) == old_spots.subrange(0, spot_index as int)
            &&& chance.spot_type == SpotType::Chance
            &&& chance.index == spot_index
            &&& chance.player@ == if first_turn_spot(old_spots, spot_index as int) is Some {
                river_word()
            } else {
                turn_word()
            }
            &&& chance.selected_index == -1
            &&& chance.cards@ == dealable_cards(possible_cards)
            &&& chance.actions@.len() == 0
            &&& chance.prev_player == Some(prev.player)
            &&& chance.values == chance_values
            &&& player.spot_type == SpotType::Player
            &&& player.index == spot_index + 1
            &&& player.player@ == oop_word()
            &&& player.selected_index == -1
            &&& player.cards@.len() == 0
            &&& actions_listed(player.actions@, actions_str@)
            &&& player.prev_player == Some(chance.player)
            &&& player.values == player_values
            &&& res.1 == spot_index + 1
            &&& res.0 == if old(state).selected_chance_index == -1 {
                spot_index as i32
            } else {
                old(state).selected_chance_index
            }
            &&& final(state).selected_spot_index == old(state).selected_spot_index
            &&& final(state).selected_chance_index == old(state).selected_chance_index
            &&& final(state).is_dealing == old(state).is_dealing
        }),
{
    let prev_player = state.spots[spot_index - 1].player.clone();
    let turn_spot = find_turn_spot(&state.spots, spot_index);
    let chance_player = match turn_spot {
        Some(_) => {
            let v = vec!['r', 'i', 'v', 'e', 'r'];
            assert(v@ =~= river_word());
            string_from_chars(&v)
        },
        None => {
            let v = vec!['t', 'u', 'r', 'n'];
            assert(v@ =~= turn_word());
            string_from_chars(&v)
        },
    };
    let actions = parse_action_list(actions_str);
    let oop = vec!['o', 'o', 'p'];
    assert(oop@ =~= oop_word());
    let new_chance_spot = Spot {
        spot_type: SpotType::Chance,
        index: spot_index,
        player: chance_player.clone(),
        selected_index: -1,
        actions: Vec::new(),
        cards: dealable_card_list(possible_cards),
        prev_player: Some(prev_player),
        values: chance_values,
    };
    let new_player_spot = Spot {
        spot_type: SpotType::Player,
        index: spot_index + 1,
        player: string_from_chars(&oop),
        selected_index: -1,
        actions,
        cards: Vec::new(),
        prev_player: Some(chance_player),
        values: player_values,
    };
    state.spots.truncate(spot_index);
    state.spots.push(new_chance_spot);
    state.spots.push(new_player_spot);
    let new_selected_chance_index = if state.selected_chance_index == -1 {
        spot_index as i32
    } else {
        state.selected_chance_index
    };
    (new_selected_chance_index, (spot_index + 1) as i32)
}

/// Replaces the spots from `spot_index` on with the terminal spot that
/// ends the hand.
pub fn splice_spots_terminal<V>(state: &mut NavState<V>, spot_index: usize, values: V)
    requires
        1 <= spot_index <= old(state).spots@.len(),
    ensures
        ({
            let prev = old(state).spots@[spot_index - 1];
            let new_spot = final(state).spots@[spot_index as int];
            &&& final(state).spots@.len() == spot_index + 1
            &&& final(state).spots@.subrange(0, spot_index as int) == old(state).spots@.subrange(0, spot_index as int)
            &&& new_spot.spot_type == SpotType::Terminal
            &&& new_spot.index == spot_index
            &&& new_spot.player@ == seq!['e', 'n', 'd']
            &&& new_spot.selected_index == -1
            &&& new_spot.cards@.len() == 0
            &&& new_spot.actions@.len() == 0
            &&& new_spot.prev_player == Some(prev.player)
            &&& new_spot.values == values
            &&& final(state).selected_spot_index == old(state).selected_spot_index
            &&& final(state).selected_chance_index == old(state).selected_chance_index
            &&& final(state).is_dealing == old(state).is_dealing
        }),
{
    let prev_player = state.spots[spot_index - 1].player.clone();
    let end = vec!['e', 'n', 'd'];
    assert(end@ =~= seq!['e', 'n', 'd']);
    let new_spot = Spot {
        spot_type: SpotType::Terminal,
        index: spot_index,
        player: string_from_chars(&end),
        selected_index: -1,
        actions: Vec::new(),
        cards: Vec::new(),
        prev_player: Some(prev_player),
        values,
    };
    state.spots.truncate(spot_index);
    state.spots.push(new_spot);
}

/// How the OOP equity at the end of the hand is known.
#[derive(Clone, Copy, Debug, PartialEq, Eq, Structural)]
pub enum TerminalEquity {
    /// OOP folded: OOP's equity is 0.
    OopFolded,
    /// IP folded: OOP's equity is 1.
    IpFolded,
    /// A chance card was skipped or the ranges are empty: unknown.
    Unknown,
    /// The weighted average of OOP's equities over its range.
    FromRange,
}

/// How the OOP equity is known when the hand ends at `spot_index`: a fold
/// at the previous spot decides it; otherwise it is unknown when the
/// selected chance spot has no card yet or the results are empty.
pub open spec fn terminal_equity_spec<V>(state: NavState<V>, spot_index: int, results_empty: bool) -> TerminalEquity {
    let prev = state.spots@[spot_index - 1];
    let action = prev.actions@[prev.selected_index as usize as int];
    let c = state.selected_chance_index;
    if action.name@ == seq!['F', 'o', 'l', 'd'] {
        if prev.player@ == oop_word() {
            TerminalEquity::OopFolded
        } else {
            TerminalEquity::IpFolded
        }
    } else if (c != -1 && state.spots@[c as usize as int].selected_index == -1) || results_empty {
        TerminalEquity::Unknown
    } else {
        TerminalEquity::FromRange
    }
}

/// How the OOP equity is known when the hand ends at `spot_index`.
pub fn terminal_equity<V>(state: &NavState<V>, spot_index: usize, results_empty: bool) -> (res: TerminalEquity)
    requires
        1 <= spot_index <= state.spots@.len(),
        ({
            let prev = state.spots@[spot_index - 1];
            (prev.selected_index as usize) < prev.actions@.len()
        }),
        state.selected_chance_index != -1 ==> (state.selected_chance_index as usize) < state.spots@.len(),
    ensures
        res == terminal_equity_spec(*state, spot_index as int, results_empty),
{
    let prev = &state.spots[spot_index - 1];
    let action = &prev.actions[prev.selected_index as usize];
    let fold = vec!['F', 'o', 'l', 'd'];
    assert(fold@ =~= seq!['F', 'o', 'l', 'd']);
    let oop = vec!['o', 'o', 'p'];
    assert(oop@ =~= oop_word());
    let c = state.selected_chance_index;
    let chance_skipped = c != -1 && state.spots[c as usize].selected_index == -1;
    if string_is(&action.name, &fold) {
        if string_is(&prev.player, &oop) {
            TerminalEquity::OopFolded
        } else {
            TerminalEquity::IpFolded
        }
    } else if chance_skipped || results_empty {
        TerminalEquity::Unknown
    } else {
        TerminalEquity::FromRange
    }
}

/// What selecting a spot decides before the game is consulted.
pub struct SelectionPlan {
    /// The new spot selection.
    pub spot: i32,
    /// The new chance selection (`-1` for none).
    pub chance: i32,
    /// The spot the game is moved to: the chance selection, or else the
    /// spot selection.
    pub end_index: usize,
    /// The history that leads from the root to `end_index`.
    pub history: Vec<usize>,
    /// The labels of the flop actions played before `end_index`.
    pub flop_actions: Vec<String>,
    /// The selections from the chance spot up to the selected spot.
    pub append: Vec<i32>,
}

/// The spot the game is moved to for the selection `(spot, chance)`.
pub open spec fn end_index_of(spot: i32, chance: i32) -> int {
    if chance == -1 {
        spot as usize as int
    } else {
        chance as usize as int
    }
}

/// Plans the selection of `spot_index`, starting from the chance selection
/// `chance` (the state's, or `-1` right after a card was dealt).
pub fn plan_selection<V>(state: &NavState<V>, spot_index: usize, need_splice: bool, chance: i32) -> (plan: SelectionPlan)
    requires
        spot_index <= state.spots@.len(),
        !need_splice ==> spot_index < state.spots@.len(),
        state.spots@.len() < i32::MAX,
        -1 <= chance,
        ({
            let (s, c) = selection_after(*state, spot_index as int, need_splice, chance);
            c != -1 && (c as usize) < (s as usize) ==> s as usize <= state.spots@.len()
        }),
    ensures
        (plan.spot, plan.chance) == selection_after(*state, spot_index as int, need_splice, chance),
        plan.end_index == end_index_of(plan.spot, plan.chance),
        plan.end_index <= state.spots@.len(),
        plan.history@ == history_spec(state.spots@, plan.end_index as int),
        crate::text::string_views(plan.flop_actions@) == flop_labels_spec(state.spots@, plan.end_index as int),
        plan.append@ == appended_spec(state.spots@, plan.chance, plan.spot),
{
    let (spot, new_chance) = selection_after_select(state, spot_index, need_splice, chance);
    proof {
        lemma_first_open_chance_bound(state.spots@, spot_index as int);
    }
    let end_index: usize = if new_chance == -1 { spot as usize } else { new_chance as usize };
    let history = history_from_spots(&state.spots, end_index);
    let flop_actions = flop_action_labels(&state.spots, end_index);
    let append = appended_selections(&state.spots, new_chance, spot);
    SelectionPlan { spot, chance: new_chance, end_index, history, flop_actions, append }
}

/// The first chance spot without a card below `upto` is below `upto`.
pub proof fn lemma_first_open_chance_bound<V>(spots: Seq<Spot<V>>, upto: int)
    ensures
        first_open_chance(spots, upto) matches Some(i) ==> 0 <= i < upto,
    decreases upto,
{
    if upto > 0 {
        lemma_first_open_chance_bound(spots, upto - 1);
    }
}

/// What replaces the spots from the selected one on, by the actions of the
/// node reached.
#[derive(Clone, Copy, Debug, PartialEq, Eq, Structural)]
pub enum SpliceKind {
    /// The hand ends: a terminal spot.
    Terminal,
    /// A card is dealt: a chance spot and the player spot after it.
    Chance,
    /// A player acts: a player spot.
    Player,
}

/// The splice for the node whose actions string is `next_actions`.
pub open spec fn splice_kind_spec(next_actions: Seq<char>) -> SpliceKind {
    if next_actions == crate::actions::terminal_word() {
        SpliceKind::Terminal
    } else if next_actions == crate::actions::chance_word() {
        SpliceKind::Chance
    } else {
        SpliceKind::Player
    }
}

/// The splice for the node whose actions string is `next_actions`.
pub fn splice_kind(next_actions: &str) -> (kind: SpliceKind)
    ensures
        kind == splice_kind_spec(next_actions@),
{
    let next = str_chars(next_actions);
    let terminal = vec!['t', 'e', 'r', 'm', 'i', 'n', 'a', 'l'];
    let chance = vec!['c', 'h', 'a', 'n', 'c', 'e'];
    assert(terminal@ =~= crate::actions::terminal_word());
    assert(chance@ =~= crate::actions::chance_word());
    if chars_equal(&next, &terminal) {
        SpliceKind::Terminal
    } else if chars_equal(&next, &chance) {
        SpliceKind::Chance
    } else {
        SpliceKind::Player
    }
}

/// The player whose action rates are refreshed after a selection: the one
/// at the selected spot when it is a player spot and no chance spot is
/// selected (0 for `"oop"`, 1 otherwise).
pub open spec fn rates_player_spec<V>(spots: Seq<Spot<V>>, spot: i32, chance: i32) -> Option<usize> {
    let i = spot as usize as int;
    if i < spots.len() && spots[i].spot_type == SpotType::Player && chance == -1 {
        Some(if spots[i].player@ == oop_word() { 0usize } else { 1usize })
    } else {
        None
    }
}

/// The player whose action rates are refreshed after a selection.
pub fn rates_player<V>(spots: &Vec<Spot<V>>, spot: i32, chance: i32) -> (res: Option<usize>)
    ensures
        res == rates_player_spec(spots@, spot, chance),
{
    let i = spot as usize;
    if i < spots.len() && spots[i].spot_type == SpotType::Player && chance == -1 {
        let oop = vec!['o', 'o', 'p'];
        assert(oop@ =~= oop_word());
        Some(if string_is(&spots[i].player, &oop) { 0 } else { 1 })
    } else {
        None
    }
}

} // verus!
