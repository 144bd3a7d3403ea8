//! Properties that relate the functions of this crate to one another.

use vstd::prelude::*;
use vstd::multiset::Multiset;
use crate::hand_strength::{
    rank_count, ranks_with_exact_count, some_rank_exactly, suit_count, cards_valid, rank_present,
    connected_ranks, straight_spec, straight_draw_spec, window_complete, straight_draw_connections,
    some_rank_at_least, ranks_with_count_at_least, some_suit_at_least,
};
use crate::cards::{rank_char, parse_rank_char, parse_suit_char};
use crate::nav::{Spot, NavState, SpotType, next_player, selection_after, history_spec, actions_listed, action_name_part, action_amount_part};
use crate::actions::{GameAction, NodeView, action_label, actions_string, is_player_action};
use crate::paths::{Street, StreetPath};
use crate::text::{split_on, join_with, nat_decimal, int_decimal};
use crate::layout::{
    ResultSections, SpecificResultData, SpecificChanceReportData, result_buffer, result_read,
    player_index_of, detail_offsets_spec, concat_all, seqs_of, padded, chance_report_buffer, chance_reports_read,
};

verus! {

proof fn lemma_exact_count_witness(board: Seq<u8>, len: int, k: nat, upto: int)
    requires
        0 <= upto <= 13,
        ranks_with_exact_count(board, len, k, upto) > 0,
    ensures
        exists|r: int| 0 <= r < upto && #[trigger] rank_count(board, len, r) == k,
    decreases upto,
{
    if ranks_with_exact_count(board, len, k, upto - 1) > 0 {
        lemma_exact_count_witness(board, len, k, upto - 1);
    } else {
        assert(rank_count(board, len, upto - 1) == k);
    }
}

/// A board with two pair has a pair.
pub proof fn law_two_pair_has_pair(board: Seq<u8>, len: int)
    requires
        ranks_with_exact_count(board, len, 2, 13) >= 2,
    ensures
        some_rank_exactly(board, len, 2),
{
    lemma_exact_count_witness(board, len, 2, 13);
}

proof fn lemma_connected_monotone(board: Seq<u8>, len: int, a: int, b: int)
    requires
        a <= b,
    ensures
        connected_ranks(board, len, a) <= connected_ranks(board, len, b),
    decreases b - a,
{
    if a < b {
        lemma_connected_monotone(board, len, a, b - 1);
    }
}

proof fn lemma_connected_run(board: Seq<u8>, len: int, w: int, k: int)
    requires
        0 <= w,
        0 <= k,
        forall|r: int| w <= r <= w + k ==> #[trigger] rank_present(board, len, r),
    ensures
        connected_ranks(board, len, w + k) >= connected_ranks(board, len, w) + k,
    decreases k,
{
    if k > 0 {
        lemma_connected_run(board, len, w, k - 1);
        assert(rank_present(board, len, w + k - 1));
        assert(rank_present(board, len, w + k));
    }
}

/// A board with a straight has a straight draw.
pub proof fn law_straight_has_straight_draw(board: Seq<u8>, len: int)
    requires
        straight_spec(board, len),
    ensures
        straight_draw_spec(board, len),
{
    if exists|w: int| 0 <= w < 9 && #[trigger] window_complete(board, len, w) {
        let w = choose|w: int| 0 <= w < 9 && #[trigger] window_complete(board, len, w);
        assert forall|r: int| w <= r <= w + 4 implies #[trigger] rank_present(board, len, r) by {
            assert(window_complete(board, len, w));
        }
        lemma_connected_run(board, len, w, 4);
        lemma_connected_monotone(board, len, w + 4, 13);
    } else {
        assert forall|r: int| 0 <= r <= 3 implies #[trigger] rank_present(board, len, r) by {}
        lemma_connected_run(board, len, 0, 3);
        lemma_connected_monotone(board, len, 3, 13);
    }
    assert(straight_draw_connections(board, len) >= 2);
}

/// Sum of the counts of the suits below `upto`.
pub open spec fn suit_total(board: Seq<u8>, len: int, upto: int) -> nat
    decreases upto,
{
    if upto <= 0 {
        0
    } else {
        suit_total(board, len, upto - 1) + suit_count(board, len, upto - 1)
    }
}

/// Sum of the counts of the ranks below `upto`.
pub open spec fn rank_total(board: Seq<u8>, len: int, upto: int) -> nat
    decreases upto,
{
    if upto <= 0 {
        0
    } else {
        rank_total(board, len, upto - 1) + rank_count(board, len, upto - 1)
    }
}

proof fn lemma_suit_total_step(board: Seq<u8>, len: int, upto: int)
    requires
        0 < len,
        0 <= upto <= 4,
    ensures
        suit_total(board, len, upto) == suit_total(board, len - 1, upto) + if 0 <= board[len - 1]
            / 13 < upto {
            1nat
        } else {
            0nat
        },
    decreases upto,
{
    if upto > 0 {
        lemma_suit_total_step(board, len, upto - 1);
    }
}

proof fn lemma_rank_total_step(board: Seq<u8>, len: int, upto: int)
    requires
        0 < len,
        0 <= upto <= 13,
    ensures
        rank_total(board, len, upto) == rank_total(board, len - 1, upto) + if board[len - 1] % 13
            < upto {
            1nat
        } else {
            0nat
        },
    decreases upto,
{
    if upto > 0 {
        lemma_rank_total_step(board, len, upto - 1);
    }
}

proof fn lemma_totals_empty(board: Seq<u8>, upto: int)
    ensures
        suit_total(board, 0, upto) == 0,
        rank_total(board, 0, upto) == 0,
    decreases upto,
{
    if upto > 0 {
        lemma_totals_empty(board, upto - 1);
    }
}

/// The suit counts that `count_suits` reports add up to the number of
/// cards looked at.
pub proof fn law_suit_counts_add_up(board: Seq<u8>, len: int)
    requires
        0 <= len <= board.len(),
        cards_valid(board, len),
    ensures
        suit_total(board, len, 4) == len,
    decreases len,
{
    if len > 0 {
        assert(board[len - 1] < 52);
        assert(board[len - 1] / 13 < 4);
        law_suit_counts_add_up(board, len - 1);
        lemma_suit_total_step(board, len, 4);
    } else {
        lemma_totals_empty(board, 4);
    }
}

/// The rank counts add up to the number of cards looked at.
pub proof fn law_rank_counts_add_up(board: Seq<u8>, len: int)
    requires
        0 <= len <= board.len(),
    ensures
        rank_total(board, len, 13) == len,
    decreases len,
{
    if len > 0 {
        assert(board[len - 1] % 13 < 13);
        law_rank_counts_add_up(board, len - 1);
        lemma_rank_total_step(board, len, 13);
    } else {
        lemma_totals_empty(board, 13);
    }
}

/// Rank characters and rank indices are inverse: the rank of a parsed card
/// name is written back with the character it was read from, and every
/// rank's character parses back to that rank.
pub proof fn law_rank_char_roundtrip(c: char, suit_c: char, r: int)
    ensures
        parse_rank_char(c) is Some && parse_suit_char(suit_c) is Some ==> rank_char(
            (parse_rank_char(c)->0 + 13 * parse_suit_char(suit_c)->0) % 13,
        ) == c,
        0 <= r < 13 ==> parse_rank_char(rank_char(r)) == Some(r),
{
}

/// The result buffer of a node with both ranges non-empty reads back as
/// the pieces it was laid out from.
#[verifier::spinoff_prover]
pub proof fn law_result_buffer_roundtrip<T>(
    sec: ResultSections<T>,
    len_oop: usize,
    len_ip: usize,
    player: Seq<char>,
    num_actions: usize,
    fill: T,
    eqr_base: [i32; 2],
    oop_cards: Vec<(u8, u8)>,
    ip_cards: Vec<(u8, u8)>,
    res: SpecificResultData<T>,
)
    requires
        sec.header@.len() == 3,
        sec.weights@.len() == 2,
        sec.weights@[0]@.len() == len_oop,
        sec.weights@[1]@.len() == len_ip,
        sec.details matches Some(d) && d@.len() == 8 && forall|k: int|
            0 <= k < 8 ==> #[trigger] d@[k]@.len() == if k % 2 == 0 { len_oop } else { len_ip },
        player_index_of(player) matches Some(p) && sec.strategy matches Some(st) && sec.action_ev matches Some(a)
            && st@.len() == num_actions * (if p == 0 { len_oop } else { len_ip }) && a@.len()
            == st@.len(),
        result_read(res, result_buffer(sec), eqr_base, 0, len_oop, len_ip, player, num_actions, fill, oop_cards, ip_cards),
    ensures
        res.weights@[0]@ == sec.weights@[0]@,
        res.weights@[1]@ == sec.weights@[1]@,
        ({
            let d = sec.details->0@;
            &&& res.normalizer@[0]@ == d[0]@ && res.normalizer@[1]@ == d[1]@
            &&& res.equity@[0]@ == d[2]@ && res.equity@[1]@ == d[3]@
            &&& res.ev@[0]@ == d[4]@ && res.ev@[1]@ == d[5]@
            &&& res.eqr@[0]@ == d[6]@ && res.eqr@[1]@ == d[7]@
        }),
        res.strategy@ == sec.strategy->0@,
        res.action_ev@ == sec.action_ev->0@,
        !res.is_empty,
{
    let d = sec.details->0@;
    let ds = seqs_of(d);
    let st = sec.strategy->0@;
    let a = sec.action_ev->0@;
    let w0 = sec.weights@[0]@;
    let w1 = sec.weights@[1]@;
    let h = sec.header@;
    let o = len_oop as int;
    let i = len_ip as int;
    let n = o + i;
    assert(ds.len() == 8);
    assert forall|k: int| 0 <= k < 8 implies #[trigger] ds[k] == d[k]@ by {}
    let dd = concat_all(ds);
    assert(ds.drop_last().drop_last().drop_last().drop_last().drop_last().drop_last().drop_last().drop_last() =~= Seq::<Seq<T>>::empty());
    assert(dd =~= ds[0] + ds[1] + ds[2] + ds[3] + ds[4] + ds[5] + ds[6] + ds[7]) by {
        let s7 = ds.drop_last();
        let s6 = s7.drop_last();
        let s5 = s6.drop_last();
        let s4 = s5.drop_last();
        let s3 = s4.drop_last();
        let s2 = s3.drop_last();
        let s1 = s2.drop_last();
        let s0 = s1.drop_last();
        assert(concat_all(s0) =~= Seq::<T>::empty());
        assert(concat_all(s1) =~= ds[0]);
        assert(concat_all(s2) =~= ds[0] + ds[1]);
        assert(concat_all(s3) =~= ds[0] + ds[1] + ds[2]);
        assert(concat_all(s4) =~= ds[0] + ds[1] + ds[2] + ds[3]);
        assert(concat_all(s5) =~= ds[0] + ds[1] + ds[2] + ds[3] + ds[4]);
        assert(concat_all(s6) =~= ds[0] + ds[1] + ds[2] + ds[3] + ds[4] + ds[5]);
        assert(concat_all(s7) =~= ds[0] + ds[1] + ds[2] + ds[3] + ds[4] + ds[5] + ds[6]);
    }
    let b = result_buffer(sec);
    assert(b =~= h + w0 + w1 + ds[0] + ds[1] + ds[2] + ds[3] + ds[4] + ds[5] + ds[6] + ds[7] + st + a);
    assert(d[0]@.len() == o && d[1]@.len() == i && d[2]@.len() == o && d[3]@.len() == i);
    assert(d[4]@.len() == o && d[5]@.len() == i && d[6]@.len() == o && d[7]@.len() == i);
    assert(b.subrange(3, 3 + o) =~= w0);
    assert(b.subrange(3 + o, 3 + n) =~= w1);
    assert(b.subrange(3 + n, 3 + n + o) =~= d[0]@);
    assert(b.subrange(3 + n + o, 3 + 2 * n) =~= d[1]@);
    assert(b.subrange(3 + 2 * n, 3 + 2 * n + o) =~= d[2]@);
    assert(b.subrange(3 + 2 * n + o, 3 + 3 * n) =~= d[3]@);
    assert(b.subrange(3 + 3 * n, 3 + 3 * n + o) =~= d[4]@);
    assert(b.subrange(3 + 3 * n + o, 3 + 4 * n) =~= d[5]@);
    assert(b.subrange(3 + 4 * n, 3 + 4 * n + o) =~= d[6]@);
    assert(b.subrange(3 + 4 * n + o, 3 + 5 * n) =~= d[7]@);
    let end = 3 + 5 * n;
    let count = st.len() as int;
    assert(padded(b, end, count, fill) =~= st);
    assert(padded(b, end + count, count, fill) =~= a);
}

/// A chance-report buffer reads back as the pieces it was laid out from.
pub proof fn law_chance_reports_roundtrip<T>(
    status: Seq<T>,
    combos: Seq<Seq<T>>,
    equity: Seq<Seq<T>>,
    ev: Seq<Seq<T>>,
    eqr: Seq<Seq<T>>,
    strategy: Seq<T>,
    player: Seq<char>,
    num_actions: usize,
    res: SpecificChanceReportData<T>,
)
    requires
        status.len() == 52,
        combos.len() == 2 && equity.len() == 2 && ev.len() == 2 && eqr.len() == 2,
        forall|k: int| 0 <= k < 2 ==> #[trigger] combos[k].len() == 52 && equity[k].len() == 52
            && ev[k].len() == 52 && eqr[k].len() == 52,
        player != seq!['t', 'e', 'r', 'm', 'i', 'n', 'a', 'l'],
        strategy.len() == 52 * num_actions,
        chance_reports_read(res, chance_report_buffer(status, combos, equity, ev, eqr, strategy), player, num_actions),
    ensures
        res.status@ == status,
        res.combos@[0]@ == combos[0] && res.combos@[1]@ == combos[1],
        res.equity@[0]@ == equity[0] && res.equity@[1]@ == equity[1],
        res.ev@[0]@ == ev[0] && res.ev@[1]@ == ev[1],
        res.eqr@[0]@ == eqr[0] && res.eqr@[1]@ == eqr[1],
        res.strategy@ == strategy,
{
    let b = chance_report_buffer(status, combos, equity, ev, eqr, strategy);
    assert(combos[0].len() == 52 && combos[1].len() == 52);
    assert(equity[0].len() == 52 && equity[1].len() == 52);
    assert(ev[0].len() == 52 && ev[1].len() == 52);
    assert(eqr[0].len() == 52 && eqr[1].len() == 52);
    assert(b.subrange(0, 52) =~= status);
    assert(b.subrange(52, 104) =~= combos[0]);
    assert(b.subrange(104, 156) =~= combos[1]);
    assert(b.subrange(156, 208) =~= equity[0]);
    assert(b.subrange(208, 260) =~= equity[1]);
    assert(b.subrange(260, 312) =~= ev[0]);
    assert(b.subrange(312, 364) =~= ev[1]);
    assert(b.subrange(364, 416) =~= eqr[0]);
    assert(b.subrange(416, 468) =~= eqr[1]);
    assert(b.subrange(468, 468 + 52 * num_actions) =~= strategy);
}

/// The history up to `end` depends only on the spots before `end`.
pub proof fn law_history_depends_on_prefix<V>(s1: Seq<Spot<V>>, s2: Seq<Spot<V>>, k: int, end: int)
    requires
        0 <= end <= k <= s1.len(),
        k <= s2.len(),
        s1.subrange(0, k) == s2.subrange(0, k),
    ensures
        history_spec(s1, end) == history_spec(s2, end),
    decreases end,
{
    if end > 1 {
        law_history_depends_on_prefix(s1, s2, k, end - 1);
        assert(s1.subrange(0, k)[end - 1] == s1[end - 1]);
        assert(s2.subrange(0, k)[end - 1] == s2[end - 1]);
        assert(s1[end - 1] == s2[end - 1]);
    }
}

/// Selecting entry `a` at spot `i` (an action played there, or a card dealt
/// there; no other spot changes) extends the history up to the next spot
/// by `a`.
pub proof fn law_selection_extends_history<V>(old_spots: Seq<Spot<V>>, new_spots: Seq<Spot<V>>, i: int, a: usize)
    requires
        1 <= i < old_spots.len(),
        new_spots.len() == old_spots.len(),
        forall|j: int| 0 <= j < old_spots.len() && j != i ==> #[trigger] new_spots[j] == old_spots[j],
        new_spots[i].selected_index == a as i32,
        a <= i32::MAX,
    ensures
        history_spec(new_spots, i + 1) == history_spec(old_spots, i).push(a),
{
    assert(new_spots.subrange(0, i) =~= old_spots.subrange(0, i));
    law_history_depends_on_prefix(new_spots, old_spots, i, i);
}

proof fn lemma_split_append_plain(p: Seq<char>, q: Seq<char>, sep: char)
    requires
        forall|k: int| 0 <= k < q.len() ==> q[k] != sep,
    ensures
        split_on(p + q, sep) == ({
            let sp = split_on(p, sep);
            sp.update(sp.len() - 1, sp.last() + q)
        }),
        split_on(p + q, sep).len() == split_on(p, sep).len(),
    decreases q.len(),
{
    crate::text::lemma_split_nonempty(p, sep);
    if q.len() == 0 {
        assert(p + q =~= p);
        let sp = split_on(p, sep);
        assert(sp.last() + q =~= sp.last());
        assert(sp.update(sp.len() - 1, sp.last() + q) =~= sp);
    } else {
        let q0 = q.drop_last();
        assert forall|k: int| 0 <= k < q0.len() implies q0[k] != sep by {
            assert(q0[k] == q[k]);
        }
        lemma_split_append_plain(p, q0, sep);
        assert((p + q).drop_last() =~= p + q0);
        assert((p + q).last() == q.last());
        assert(q.last() != sep);
        let sp = split_on(p, sep);
        let sq0 = split_on(p + q0, sep);
        let last = sp.len() - 1;
        assert(sq0 == sp.update(last, sp.last() + q0));
        assert(sq0.last() == sp.last() + q0);
        assert(split_on(p + q, sep) == sq0.update(sq0.len() - 1, sq0.last().push(q.last())));
        assert((sp.last() + q0).push(q.last()) =~= sp.last() + q);
        assert(sq0.update(last, sp.last() + q) =~= sp.update(last, sp.last() + q));
    }
}

proof fn lemma_split_push_sep(p: Seq<char>, sep: char)
    ensures
        split_on(p.push(sep), sep) == split_on(p, sep).push(seq![]),
{
    assert(p.push(sep).drop_last() =~= p);
}

/// No character of `s` is `c`.
pub open spec fn free_of(s: Seq<char>, c: char) -> bool {
    forall|k: int| 0 <= k < s.len() ==> s[k] != c
}

proof fn lemma_split_join(parts: Seq<Seq<char>>, sep: char)
    requires
        parts.len() >= 1,
        forall|k: int| 0 <= k < parts.len() ==> free_of(#[trigger] parts[k], sep),
    ensures
        split_on(join_with(parts, seq![sep]), sep) == parts,
    decreases parts.len(),
{
    if parts.len() == 1 {
        assert(seq![] + parts[0] =~= parts[0]);
        lemma_split_append_plain(seq![], parts[0], sep);
        assert(split_on(Seq::<char>::empty(), sep) == seq![Seq::<char>::empty()]);
        assert(seq![Seq::<char>::empty()].update(0, Seq::<char>::empty() + parts[0]) =~= parts);
    } else {
        let init = parts.drop_last();
        assert forall|k: int| 0 <= k < init.len() implies free_of(#[trigger] init[k], sep) by {
            assert(init[k] == parts[k]);
        }
        lemma_split_join(init, sep);
        let j = join_with(init, seq![sep]);
        assert(join_with(parts, seq![sep]) == j + seq![sep] + parts.last());
        assert(j + seq![sep] =~= j.push(sep));
        lemma_split_push_sep(j, sep);
        assert(free_of(parts[parts.len() - 1], sep));
        lemma_split_append_plain(j.push(sep), parts.last(), sep);
        let sp = split_on(j.push(sep), sep);
        assert(sp == init.push(seq![]));
        assert(sp.update(sp.len() - 1, sp.last() + parts.last()) =~= parts);
    }
}

proof fn lemma_nat_decimal_digits(n: nat)
    ensures
        forall|k: int| 0 <= k < nat_decimal(n).len() ==> {
            let c = #[trigger] nat_decimal(n)[k];
            c != ':' && c != '/'
        },
    decreases n,
{
    if n >= 10 {
        lemma_nat_decimal_digits(n / 10);
        let prev = nat_decimal(n / 10);
        assert forall|k: int| 0 <= k < nat_decimal(n).len() implies ({
            let c = #[trigger] nat_decimal(n)[k];
            c != ':' && c != '/'
        }) by {
            if k < prev.len() {
                assert(nat_decimal(n)[k] == prev[k]);
            }
        }
    }
}

proof fn lemma_int_decimal_plain(n: int)
    ensures
        free_of(int_decimal(n), ':'),
        free_of(int_decimal(n), '/'),
{
    if n < 0 {
        lemma_nat_decimal_digits((-n) as nat);
        let d = nat_decimal((-n) as nat);
        assert forall|k: int| 0 <= k < int_decimal(n).len() implies int_decimal(n)[k] != ':' && int_decimal(n)[k] != '/' by {
            if k > 0 {
                assert(int_decimal(n)[k] == d[k - 1]);
            }
        }
    } else {
        lemma_nat_decimal_digits(n as nat);
    }
}

/// The name under which a player action is listed.
pub open spec fn listed_name(a: GameAction) -> Seq<char> {
    match a {
        GameAction::Fold => seq!['F', 'o', 'l', 'd'],
        GameAction::Check => seq!['C', 'h', 'e', 'c', 'k'],
        GameAction::Call => seq!['C', 'a', 'l', 'l'],
        GameAction::Bet(_) => seq!['B', 'e', 't'],
        GameAction::Raise(_) => seq!['R', 'a', 'i', 's', 'e'],
        GameAction::AllIn(_) => seq!['A', 'l', 'l', 'i', 'n'],
        _ => seq![],
    }
}

/// The amount under which a player action is listed.
pub open spec fn listed_amount(a: GameAction) -> Seq<char> {
    match a {
        GameAction::Bet(x) => int_decimal(x as int),
        GameAction::Raise(x) => int_decimal(x as int),
        GameAction::AllIn(x) => int_decimal(x as int),
        _ => seq!['0'],
    }
}

proof fn lemma_label_parts(a: GameAction)
    requires
        is_player_action(a),
    ensures
        free_of(action_label(a), '/'),
        action_name_part(action_label(a)) == listed_name(a),
        action_amount_part(action_label(a)) == listed_amount(a),
{
    let name = listed_name(a);
    let amount = listed_amount(a);
    lemma_int_decimal_plain(0);
    match a {
        GameAction::Bet(x) => { lemma_int_decimal_plain(x as int); },
        GameAction::Raise(x) => { lemma_int_decimal_plain(x as int); },
        GameAction::AllIn(x) => { lemma_int_decimal_plain(x as int); },
        _ => {},
    }
    assert(free_of(amount, ':'));
    assert(free_of(amount, '/'));
    assert(free_of(name, ':'));
    assert(action_label(a) =~= name.push(':') + amount) by {
        reveal_with_fuel(nat_decimal, 1);
    }
    assert(seq![] + name =~= name);
    lemma_split_append_plain(seq![], name, ':');
    assert(split_on(Seq::<char>::empty(), ':') == seq![Seq::<char>::empty()]);
    assert(split_on(name, ':') =~= seq![name]);
    lemma_split_push_sep(name, ':');
    lemma_split_append_plain(name.push(':'), amount, ':');
    let sp = split_on(name.push(':'), ':');
    assert(sp =~= seq![name, seq![]]);
    assert(split_on(action_label(a), ':') =~= seq![name, amount]);
    assert forall|k: int| 0 <= k < action_label(a).len() implies action_label(a)[k] != '/' by {
        if k < name.len() {
            assert(action_label(a)[k] == name[k]);
        } else if k > name.len() {
            assert(action_label(a)[k] == amount[k - name.len() - 1]);
        }
    }
}

/// The actions string of a decision node reads back as its actions: the
/// `i`-th entry carries the name and amount of the `i`-th available
/// action (`Bet`, `Raise`, `Allin` with their amounts; the others with `0`).
pub proof fn law_actions_string_roundtrip(node: NodeView, listed: Seq<crate::nav::Action>)
    requires
        !node.is_terminal,
        !node.is_chance,
        node.actions@.len() >= 1,
        forall|i: int| 0 <= i < node.actions@.len() ==> is_player_action(#[trigger] node.actions@[i]),
        actions_listed(listed, actions_string(node)),
    ensures
        listed.len() == node.actions@.len(),
        forall|i: int| 0 <= i < listed.len() ==> {
            &&& (#[trigger] listed[i]).name@ == listed_name(node.actions@[i])
            &&& listed[i].amount@ == listed_amount(node.actions@[i])
        },
{
    let labels = node.actions@.map_values(|a: GameAction| action_label(a));
    assert forall|k: int| 0 <= k < labels.len() implies free_of(#[trigger] labels[k], '/') by {
        lemma_label_parts(node.actions@[k]);
    }
    lemma_split_join(labels, '/');
    assert forall|i: int| 0 <= i < listed.len() implies {
        &&& (#[trigger] listed[i]).name@ == listed_name(node.actions@[i])
        &&& listed[i].amount@ == listed_amount(node.actions@[i])
    } by {
        lemma_label_parts(node.actions@[i]);
    }
}

/// After a selection the chance selection, when there is one, comes
/// before the spot selection.
pub proof fn law_chance_selection_precedes_spot<V>(state: NavState<V>, spot_index: int, need_splice: bool, chance: i32)
    requires
        0 <= spot_index <= state.spots@.len(),
        !need_splice ==> spot_index < state.spots@.len(),
        state.spots@.len() < i32::MAX,
        -1 <= chance,
    ensures
        ({
            let (s, c) = selection_after(state, spot_index, need_splice, chance);
            c == -1 || (0 <= c < s)
        }),
{
    let spots = state.spots@;
    if !need_splice && spots[spot_index].spot_type == crate::nav::SpotType::Chance {
    } else if spot_index <= chance {
    } else if chance == -1 {
        crate::nav::lemma_first_open_chance_bound(spots, spot_index);
    }
}


/// The offsets at which the hand details of the player to act are printed
/// are those at which `parse_specific_result` reads that player's
/// equities, EVs, strategy and action EVs (ranges not empty).
pub proof fn law_detail_offsets_match_reader<T>(
    res: SpecificResultData<T>,
    buffer: Seq<T>,
    eqr_base: [i32; 2],
    len_oop: usize,
    len_ip: usize,
    player: Seq<char>,
    num_actions: usize,
    fill: T,
    oop_cards: Vec<(u8, u8)>,
    ip_cards: Vec<(u8, u8)>,
)
    requires
        player_index_of(player) is Some,
        result_read(res, buffer, eqr_base, 0, len_oop, len_ip, player, num_actions, fill, oop_cards, ip_cards),
    ensures
        ({
            let p = player_index_of(player)->0 as int;
            let size = if p == 0 { len_oop as int } else { len_ip as int };
            let (eq, ev, st, aev) = detail_offsets_spec(len_oop as int, len_ip as int, p, num_actions as int);
            &&& res.equity@[p]@ == buffer.subrange(eq, eq + size)
            &&& res.ev@[p]@ == buffer.subrange(ev, ev + size)
            &&& res.strategy@ == padded(buffer, st, num_actions * size, fill)
            &&& res.action_ev@ == padded(buffer, aev, num_actions * size, fill)
        }),
{
}

/// Number of cards counted in `m`, among the card values below `upto`,
/// whose `key` is `k`.
pub open spec fn count_keyed(m: Multiset<u8>, key: spec_fn(u8) -> int, k: int, upto: int) -> nat
    decreases upto,
{
    if upto <= 0 {
        0
    } else {
        count_keyed(m, key, k, upto - 1) + if key((upto - 1) as u8) == k {
            m.count((upto - 1) as u8)
        } else {
            0
        }
    }
}

proof fn lemma_count_keyed_empty(key: spec_fn(u8) -> int, k: int, upto: int)
    requires
        upto <= 256,
    ensures
        count_keyed(Multiset::<u8>::empty(), key, k, upto) == 0,
    decreases upto,
{
    broadcast use vstd::multiset::group_multiset_axioms;
    if upto > 0 {
        lemma_count_keyed_empty(key, k, upto - 1);
    }
}

proof fn lemma_count_keyed_insert(m: Multiset<u8>, x: u8, key: spec_fn(u8) -> int, k: int, upto: int)
    requires
        upto <= 256,
    ensures
        count_keyed(m.insert(x), key, k, upto) == count_keyed(m, key, k, upto) + if x < upto
            && key(x) == k {
            1nat
        } else {
            0nat
        },
    decreases upto,
{
    broadcast use vstd::multiset::group_multiset_axioms;
    if upto > 0 {
        lemma_count_keyed_insert(m, x, key, k, upto - 1);
        let c = (upto - 1) as u8;
        assert(c as int == upto - 1);
        if c == x {
            assert(m.insert(x).count(c) == m.count(c) + 1);
        } else {
            assert(m.insert(x).count(c) == m.count(c));
        }
    }
}

proof fn lemma_rank_count_multiset(board: Seq<u8>, len: int, r: int)
    requires
        0 <= len <= board.len(),
    ensures
        rank_count(board, len, r) == count_keyed(board.take(len).to_multiset(), |c: u8| (c % 13) as int, r, 256),
        suit_count(board, len, r) == count_keyed(board.take(len).to_multiset(), |c: u8| (c / 13) as int, r, 256),
    decreases len,
{
    broadcast use vstd::seq_lib::group_to_multiset_ensures;
    let rk = |c: u8| (c % 13) as int;
    let sk = |c: u8| (c / 13) as int;
    if len == 0 {
        assert(board.take(0) =~= Seq::<u8>::empty());
        assert(Seq::<u8>::empty().to_multiset() =~= Multiset::<u8>::empty()) by {
            broadcast use vstd::multiset::group_multiset_axioms;
            broadcast use vstd::seq_lib::group_seq_properties;
            assert forall|a: u8| Seq::<u8>::empty().to_multiset().count(a) == 0 by {
                assert(!Seq::<u8>::empty().contains(a));
            }
        }
        lemma_count_keyed_empty(rk, r, 256);
        lemma_count_keyed_empty(sk, r, 256);
    } else {
        lemma_rank_count_multiset(board, len - 1, r);
        let x = board[len - 1];
        assert(board.take(len) =~= board.take(len - 1).push(x));
        assert(board.take(len).to_multiset() =~= board.take(len - 1).to_multiset().insert(x));
        lemma_count_keyed_insert(board.take(len - 1).to_multiset(), x, rk, r, 256);
        lemma_count_keyed_insert(board.take(len - 1).to_multiset(), x, sk, r, 256);
    }
}

/// The texture of a board depends only on which cards it holds, not on
/// their order: boards whose first `len` cards are the same multiset have
/// the same rank and suit counts, and so the same pairs, flushes,
/// straights and draws.
pub proof fn law_texture_ignores_order(b1: Seq<u8>, b2: Seq<u8>, len: int)
    requires
        0 <= len <= b1.len(),
        len <= b2.len(),
        b1.take(len).to_multiset() == b2.take(len).to_multiset(),
    ensures
        forall|r: int| #[trigger] rank_count(b1, len, r) == rank_count(b2, len, r),
        forall|s: int| #[trigger] suit_count(b1, len, s) == suit_count(b2, len, s),
        straight_spec(b1, len) == straight_spec(b2, len),
        straight_draw_spec(b1, len) == straight_draw_spec(b2, len),
        some_rank_exactly(b1, len, 2) == some_rank_exactly(b2, len, 2),
{
    assert forall|r: int| #[trigger] rank_count(b1, len, r) == rank_count(b2, len, r) by {
        lemma_rank_count_multiset(b1, len, r);
        lemma_rank_count_multiset(b2, len, r);
    }
    assert forall|s: int| #[trigger] suit_count(b1, len, s) == suit_count(b2, len, s) by {
        lemma_rank_count_multiset(b1, len, s);
        lemma_rank_count_multiset(b2, len, s);
    }
    assert forall|r: int| #[trigger] rank_present(b1, len, r) == rank_present(b2, len, r) by {
        assert(rank_count(b1, len, r) == rank_count(b2, len, r));
    }
    assert forall|w: int| #[trigger] window_complete(b1, len, w) == window_complete(b2, len, w) by {
        if window_complete(b1, len, w) {
            assert forall|r: int| w <= r < w + 5 implies #[trigger] rank_present(b2, len, r) by {
                assert(rank_present(b1, len, r));
            }
        }
        if window_complete(b2, len, w) {
            assert forall|r: int| w <= r < w + 5 implies #[trigger] rank_present(b1, len, r) by {
                assert(rank_present(b2, len, r));
            }
        }
    }
    assert(rank_present(b1, len, 0) == rank_present(b2, len, 0));
    assert(rank_present(b1, len, 1) == rank_present(b2, len, 1));
    assert(rank_present(b1, len, 2) == rank_present(b2, len, 2));
    assert(rank_present(b1, len, 3) == rank_present(b2, len, 3));
    assert(rank_present(b1, len, 12) == rank_present(b2, len, 12));
    lemma_connected_equal(b1, b2, len, 13);
    if exists|w: int| 0 <= w < 9 && #[trigger] window_complete(b1, len, w) {
        let w = choose|w: int| 0 <= w < 9 && #[trigger] window_complete(b1, len, w);
        assert(window_complete(b2, len, w));
    }
    if exists|w: int| 0 <= w < 9 && #[trigger] window_complete(b2, len, w) {
        let w = choose|w: int| 0 <= w < 9 && #[trigger] window_complete(b2, len, w);
        assert(window_complete(b1, len, w));
    }
    if some_rank_exactly(b1, len, 2) {
        let r = choose|r: int| 0 <= r < 13 && #[trigger] rank_count(b1, len, r) == 2;
        assert(rank_count(b2, len, r) == 2);
    }
    if some_rank_exactly(b2, len, 2) {
        let r = choose|r: int| 0 <= r < 13 && #[trigger] rank_count(b2, len, r) == 2;
        assert(rank_count(b1, len, r) == 2);
    }
}

proof fn lemma_connected_equal(b1: Seq<u8>, b2: Seq<u8>, len: int, upto: int)
    requires
        forall|r: int| #[trigger] rank_count(b1, len, r) == rank_count(b2, len, r),
    ensures
        connected_ranks(b1, len, upto) == connected_ranks(b2, len, upto),
    decreases upto,
{
    if upto > 0 {
        lemma_connected_equal(b1, b2, len, upto - 1);
        let q = upto - 1;
        assert(rank_count(b1, len, q) == rank_count(b2, len, q));
        assert(rank_count(b1, len, q + 1) == rank_count(b2, len, q + 1));
        assert(rank_count(b1, len, q + 2) == rank_count(b2, len, q + 2));
    }
}

/// Removing the last entry of a street right after recording an entry on
/// that street gives back the line as it was, and so its path identifier:
/// `p1` is `p0` after `StreetPath::push`, `p2` is `p1` after
/// `StreetPath::pop` on the same street.
pub proof fn law_street_pop_undoes_push(
    p0: StreetPath,
    p1: StreetPath,
    p2: StreetPath,
    street: Street,
    entry: Seq<char>,
)
    requires
        p1.entries(street) == p0.entries(street).push(entry),
        forall|s: Street| s != street ==> #[trigger] p1.entries(s) == p0.entries(s),
        p1.entries(street).len() > 0 ==> p2.entries(street) == p1.entries(street).drop_last(),
        forall|s: Street| s != street ==> #[trigger] p2.entries(s) == p1.entries(s),
    ensures
        forall|s: Street| #[trigger] p2.entries(s) == p0.entries(s),
        p2.id() == p0.id(),
{
    assert(p0.entries(street).push(entry).drop_last() =~= p0.entries(street));
    assert(p2.entries(Street::Flop) == p0.entries(Street::Flop));
    assert(p2.entries(Street::Turn) == p0.entries(Street::Turn));
    assert(p2.entries(Street::River) == p0.entries(Street::River));
}

/// Some card among the first `len` of `board` has rank `r`.
pub open spec fn holds_rank(board: Seq<u8>, len: int, r: int) -> bool {
    exists|i: int| 0 <= i < len && (#[trigger] board[i]) % 13 == r
}

/// The first `len` cards of `board` take each of the five ranks `w` to
/// `w + 4`.
pub open spec fn five_ranks_from(board: Seq<u8>, len: int, w: int) -> bool {
    forall|r: int| w <= r < w + 5 ==> #[trigger] holds_rank(board, len, r)
}

proof fn lemma_card_rank_counted(board: Seq<u8>, len: int, i: int)
    requires
        0 <= i < len,
    ensures
        rank_count(board, len, (board[i] % 13) as int) >= 1,
    decreases len,
{
    if i < len - 1 {
        lemma_card_rank_counted(board, len - 1, i);
    }
}

proof fn lemma_counted_rank_has_card(board: Seq<u8>, len: int, r: int)
    requires
        rank_count(board, len, r) > 0,
    ensures
        holds_rank(board, len, r),
    decreases len,
{
    if len > 0 {
        if board[len - 1] % 13 == r {
            assert(0 <= len - 1 < len && board[len - 1] % 13 == r);
        } else {
            lemma_counted_rank_has_card(board, len - 1, r);
            let i = choose|i: int| 0 <= i < len - 1 && (#[trigger] board[i]) % 13 == r;
            assert(0 <= i < len && board[i] % 13 == r);
        }
    }
}

proof fn lemma_holds_rank_is_present(board: Seq<u8>, len: int)
    ensures
        forall|r: int| #[trigger] holds_rank(board, len, r) <==> rank_present(board, len, r),
{
    assert forall|r: int| #[trigger] holds_rank(board, len, r) <==> rank_present(board, len, r) by {
        if holds_rank(board, len, r) {
            let i = choose|i: int| 0 <= i < len && (#[trigger] board[i]) % 13 == r;
            lemma_card_rank_counted(board, len, i);
        }
        if rank_present(board, len, r) {
            lemma_counted_rank_has_card(board, len, r);
        }
    }
}

/// A board holds a straight (`has_straight`) exactly when it has at least
/// five cards and they take five consecutive ranks: `w` to `w + 4` for some
/// `w` from 0 (deuce to six) to 8 (ten to ace), or the ace with the deuce,
/// trey, four and five.
pub proof fn law_straight_is_five_consecutive_ranks(board: Seq<u8>, len: int)
    requires
        0 <= len <= board.len(),
    ensures
        straight_spec(board, len) <==> (len >= 5 && ((exists|w: int|
            0 <= w <= 8 && #[trigger] five_ranks_from(board, len, w)) || (holds_rank(board, len, 0)
            && holds_rank(board, len, 1) && holds_rank(board, len, 2) && holds_rank(board, len, 3)
            && holds_rank(board, len, 12)))),
{
    lemma_holds_rank_is_present(board, len);
    assert forall|w: int| #[trigger] five_ranks_from(board, len, w) <==> window_complete(board, len, w) by {
        if five_ranks_from(board, len, w) {
            assert forall|r: int| w <= r < w + 5 implies #[trigger] rank_present(board, len, r) by {
                assert(holds_rank(board, len, r));
            }
        }
        if window_complete(board, len, w) {
            assert forall|r: int| w <= r < w + 5 implies #[trigger] holds_rank(board, len, r) by {
                assert(rank_present(board, len, r));
            }
        }
    }
    if exists|w: int| 0 <= w <= 8 && #[trigger] five_ranks_from(board, len, w) {
        let w = choose|w: int| 0 <= w <= 8 && #[trigger] five_ranks_from(board, len, w);
        assert(window_complete(board, len, w));
    }
    if exists|w: int| 0 <= w < 9 && #[trigger] window_complete(board, len, w) {
        let w = choose|w: int| 0 <= w < 9 && #[trigger] window_complete(board, len, w);
        assert(five_ranks_from(board, len, w));
    }
}

proof fn lemma_last_card_of_suit(board: Seq<u8>, len: int, s: int)
    requires
        suit_count(board, len, s) > 0,
    ensures
        exists|m: int| 0 <= m < len && board[m] / 13 == s && #[trigger] suit_count(board, m, s) + 1
            >= suit_count(board, len, s),
    decreases len,
{
    if len > 0 {
        if board[len - 1] / 13 == s {
            assert(suit_count(board, len - 1, s) + 1 >= suit_count(board, len, s));
        } else {
            lemma_last_card_of_suit(board, len - 1, s);
            let m = choose|m: int| 0 <= m < len - 1 && board[m] / 13 == s && #[trigger] suit_count(board, m, s) + 1
                >= suit_count(board, len - 1, s);
            assert(suit_count(board, m, s) + 1 >= suit_count(board, len, s));
        }
    }
}

proof fn lemma_suit_count_grows(board: Seq<u8>, i: int, j: int, s: int)
    requires
        0 <= i < j,
        board[i] / 13 == s,
    ensures
        suit_count(board, j, s) >= suit_count(board, i, s) + 1,
    decreases j - i,
{
    if i < j - 1 {
        lemma_suit_count_grows(board, i, j - 1, s);
    }
}

/// A board holds a flush as `has_flush` counts it exactly when three of its
/// first `len` cards share a suit, whichever of the four suits that is.
pub proof fn law_flush_is_three_cards_of_a_suit(board: Seq<u8>, len: int)
    requires
        0 <= len <= board.len(),
        cards_valid(board, len),
    ensures
        some_suit_at_least(board, len, 3) <==> exists|i: int, j: int, k: int|
            #![trigger board[i], board[j], board[k]]
            0 <= i < j < k < len && board[i] / 13 == board[j] / 13 && board[j] / 13 == board[k] / 13,
{
    if some_suit_at_least(board, len, 3) {
        let s = choose|s: int| 0 <= s < 4 && #[trigger] suit_count(board, len, s) >= 3;
        lemma_last_card_of_suit(board, len, s);
        let k = choose|m: int| 0 <= m < len && board[m] / 13 == s && #[trigger] suit_count(board, m, s) + 1
            >= suit_count(board, len, s);
        lemma_last_card_of_suit(board, k, s);
        let j = choose|m: int| 0 <= m < k && board[m] / 13 == s && #[trigger] suit_count(board, m, s) + 1
            >= suit_count(board, k, s);
        lemma_last_card_of_suit(board, j, s);
        let i = choose|m: int| 0 <= m < j && board[m] / 13 == s && #[trigger] suit_count(board, m, s) + 1
            >= suit_count(board, j, s);
        assert(0 <= i < j < k < len && board[i] / 13 == board[j] / 13 && board[j] / 13 == board[k] / 13);
    }
    if exists|i: int, j: int, k: int|
        #![trigger board[i], board[j], board[k]]
        0 <= i < j < k < len && board[i] / 13 == board[j] / 13 && board[j] / 13 == board[k] / 13 {
        let (i, j, k) = choose|i: int, j: int, k: int|
            #![trigger board[i], board[j], board[k]]
            0 <= i < j < k < len && board[i] / 13 == board[j] / 13 && board[j] / 13 == board[k] / 13;
        let s = (board[i] / 13) as int;
        assert(board[i] < 52);
        lemma_suit_count_grows(board, i, j, s);
        lemma_suit_count_grows(board, j, k, s);
        lemma_suit_count_grows(board, k, len, s);
        assert(suit_count(board, len, s) >= 3);
        assert(0 <= s < 4);
    }
}

proof fn lemma_at_most_one_rank_at_least(board: Seq<u8>, len: int, k: nat, upto: int, r1: int)
    requires
        forall|r: int| 0 <= r < upto && r != r1 ==> #[trigger] rank_count(board, len, r) < k,
    ensures
        ranks_with_count_at_least(board, len, k, upto) <= (if 0 <= r1 < upto { 1nat } else { 0nat }),
    decreases upto,
{
    if upto > 0 {
        lemma_at_most_one_rank_at_least(board, len, k, upto - 1, r1);
        if upto - 1 != r1 {
            assert(rank_count(board, len, upto - 1) < k);
        }
    }
}

proof fn lemma_two_ranks_at_least(board: Seq<u8>, len: int, k: nat, upto: int, r1: int, r2: int)
    requires
        0 <= r1,
        0 <= r2,
        r1 != r2,
        rank_count(board, len, r1) >= k,
        rank_count(board, len, r2) >= k,
    ensures
        ranks_with_count_at_least(board, len, k, upto) >= (if r1 < upto { 1nat } else { 0nat }) + (
        if r2 < upto {
            1nat
        } else {
            0nat
        }),
    decreases upto,
{
    if upto > 0 {
        lemma_two_ranks_at_least(board, len, k, upto - 1, r1, r2);
    }
}

/// A full house on the board (as `has_full_house` reports it) is a rank
/// with at least three cards together with another rank with at least two.
pub proof fn law_full_house_is_trips_and_another_pair(board: Seq<u8>, len: int)
    ensures
        (some_rank_at_least(board, len, 3) && ranks_with_count_at_least(board, len, 2, 13) >= 2)
            <==> exists|r1: int, r2: int|
            #![trigger rank_count(board, len, r1), rank_count(board, len, r2)]
            0 <= r1 < 13 && 0 <= r2 < 13 && r1 != r2 && rank_count(board, len, r1) >= 3
                && rank_count(board, len, r2) >= 2,
{
    if some_rank_at_least(board, len, 3) && ranks_with_count_at_least(board, len, 2, 13) >= 2 {
        let r1 = choose|r: int| 0 <= r < 13 && #[trigger] rank_count(board, len, r) >= 3;
        if !exists|r2: int| 0 <= r2 < 13 && r2 != r1 && #[trigger] rank_count(board, len, r2) >= 2 {
            lemma_at_most_one_rank_at_least(board, len, 2, 13, r1);
        }
        let r2 = choose|r2: int| 0 <= r2 < 13 && r2 != r1 && #[trigger] rank_count(board, len, r2) >= 2;
        assert(rank_count(board, len, r1) >= 3 && rank_count(board, len, r2) >= 2);
    }
    if exists|r1: int, r2: int|
        #![trigger rank_count(board, len, r1), rank_count(board, len, r2)]
        0 <= r1 < 13 && 0 <= r2 < 13 && r1 != r2 && rank_count(board, len, r1) >= 3
            && rank_count(board, len, r2) >= 2 {
        let (r1, r2) = choose|r1: int, r2: int|
            #![trigger rank_count(board, len, r1), rank_count(board, len, r2)]
            0 <= r1 < 13 && 0 <= r2 < 13 && r1 != r2 && rank_count(board, len, r1) >= 3
                && rank_count(board, len, r2) >= 2;
        assert(some_rank_at_least(board, len, 3));
        lemma_two_ranks_at_least(board, len, 2, 13, r1, r2);
    }
}

/// The player of a spliced player spot (`splice_spots_player`) is IP
/// exactly when the spot before it is OOP's; after any other spot (the
/// root's `"flop"`, an IP spot, a dealt card) it is OOP.
pub proof fn law_spliced_player_follows_oop(prev: Seq<char>)
    ensures
        next_player(prev) == seq!['i', 'p'] <==> prev == seq!['o', 'o', 'p'],
        prev != seq!['o', 'o', 'p'] ==> next_player(prev) == seq!['o', 'o', 'p'],
{
    assert(seq!['i', 'p'] != seq!['o', 'o', 'p']);
}

/// Selecting a chance spot without splicing makes it the chance selection
/// and moves the spot selection to the spot right after it, unless the spot
/// selection is already further on: the new spot selection is the larger of
/// the old one and `spot_index + 1`, so it never moves back.
pub proof fn law_chance_click_keeps_later_spot<V>(state: NavState<V>, spot_index: int, chance: i32)
    requires
        0 <= spot_index < state.spots@.len() < i32::MAX,
        state.spots@[spot_index].spot_type == SpotType::Chance,
    ensures
        selection_after(state, spot_index, false, chance).1 == spot_index,
        selection_after(state, spot_index, false, chance).0 >= state.selected_spot_index,
        selection_after(state, spot_index, false, chance).0 >= spot_index + 1,
        selection_after(state, spot_index, false, chance).0 == state.selected_spot_index
            || selection_after(state, spot_index, false, chance).0 == spot_index + 1,
{
}

} // verus!
