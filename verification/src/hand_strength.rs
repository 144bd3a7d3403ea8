//! Predicates on the texture of a board: pairs, trips, flushes, straights.
//!
//! Every predicate looks at the first `len` cards of `board`, with
//! rank `card % 13` and suit `card / 13`.

use vstd::prelude::*;
use crate::Card;

verus! {

/// Number of cards among the first `len` of `board` whose rank is `r`.
pub open spec fn rank_count(board: Seq<u8>, len: int, r: int) -> nat
    decreases len,
{
    if len <= 0 {
        0
    } else {
        rank_count(board, len - 1, r) + if board[len - 1] % 13 == r { 1nat } else { 0nat }
    }
}

/// The original counts each rank in a `u8`, which must not overflow.
pub open spec fn rank_counts_fit(board: Seq<u8>, len: int) -> bool {
    forall|r: int| 0 <= r < 13 ==> #[trigger] rank_count(board, len, r) <= 255
}

/// Number of ranks below `upto` that occur exactly `k` times.
pub open spec fn ranks_with_exact_count(board: Seq<u8>, len: int, k: nat, upto: int) -> nat
    decreases upto,
{
    if upto <= 0 {
        0
    } else {
        ranks_with_exact_count(board, len, k, upto - 1)
            + if rank_count(board, len, upto - 1) == k { 1nat } else { 0nat }
    }
}

proof fn lemma_rank_count_monotone(board: Seq<u8>, i: int, j: int, r: int)
    requires
        0 <= i <= j,
    ensures
        rank_count(board, i, r) <= rank_count(board, j, r),
    decreases j - i,
{
    if i < j {
        lemma_rank_count_monotone(board, i, j - 1, r);
    }
}

/// Counts the ranks of the first `len` cards.
fn count_ranks(board: &[Card], len: usize) -> (counts: Vec<u8>)
    requires
        len <= board@.len(),
        rank_counts_fit(board@, len as int),
    ensures
        counts@.len() == 13,
        forall|r: int| 0 <= r < 13 ==> counts@[r] == rank_count(board@, len as int, r),
{
    let mut counts: Vec<u8> = vec![0u8; 13];
    let mut i: usize = 0;
    while i < len
        invariant
            i <= len <= board@.len(),
            rank_counts_fit(board@, len as int),
            counts@.len() == 13,
            forall|r: int| 0 <= r < 13 ==> counts@[r] == rank_count(board@, i as int, r),
        decreases len - i,
    {
        let rank = (board[i] % 13) as usize;
        proof {
            lemma_rank_count_monotone(board@, i + 1, len as int, rank as int);
            assert(rank_count(board@, i + 1, rank as int) <= 255);
        }
        let c = counts[rank];
        counts.set(rank, c + 1);
        i += 1;
    }
    counts
}

/// Number of ranks below `upto` that occur at least `k` times.
pub open spec fn ranks_with_count_at_least(board: Seq<u8>, len: int, k: nat, upto: int) -> nat
    decreases upto,
{
    if upto <= 0 {
        0
    } else {
        ranks_with_count_at_least(board, len, k, upto - 1)
            + if rank_count(board, len, upto - 1) >= k { 1nat } else { 0nat }
    }
}

/// Some rank occurs exactly `k` times among the first `len` cards.
pub open spec fn some_rank_exactly(board: Seq<u8>, len: int, k: nat) -> bool {
    exists|r: int| 0 <= r < 13 && #[trigger] rank_count(board, len, r) == k
}

/// Some rank occurs at least `k` times among the first `len` cards.
pub open spec fn some_rank_at_least(board: Seq<u8>, len: int, k: nat) -> bool {
    exists|r: int| 0 <= r < 13 && #[trigger] rank_count(board, len, r) >= k
}

/// Number of cards among the first `len` of `board` whose suit is `s`.
pub open spec fn suit_count(board: Seq<u8>, len: int, s: int) -> nat
    decreases len,
{
    if len <= 0 {
        0
    } else {
        suit_count(board, len - 1, s) + if board[len - 1] / 13 == s { 1nat } else { 0nat }
    }
}

/// Every card among the first `len` is a real card (its suit is below 4).
pub open spec fn cards_valid(board: Seq<u8>, len: int) -> bool {
    forall|i: int| 0 <= i < len ==> #[trigger] board[i] < 52
}

/// The original counts each suit in a `u8`, which must not overflow.
pub open spec fn suit_counts_fit(board: Seq<u8>, len: int) -> bool {
    forall|s: int| 0 <= s < 4 ==> #[trigger] suit_count(board, len, s) <= 255
}

/// Some suit occurs exactly `k` times.
pub open spec fn some_suit_exactly(board: Seq<u8>, len: int, k: nat) -> bool {
    exists|s: int| 0 <= s < 4 && #[trigger] suit_count(board, len, s) == k
}

/// Some suit occurs at least `k` times.
pub open spec fn some_suit_at_least(board: Seq<u8>, len: int, k: nat) -> bool {
    exists|s: int| 0 <= s < 4 && #[trigger] suit_count(board, len, s) >= k
}

/// Rank `r` occurs among the first `len` cards.
pub open spec fn rank_present(board: Seq<u8>, len: int, r: int) -> bool {
    rank_count(board, len, r) > 0
}

/// Number of present ranks below `upto` whose next present rank is one or
/// two steps above them.
pub open spec fn connected_ranks(board: Seq<u8>, len: int, upto: int) -> nat
    decreases upto,
{
    if upto <= 0 {
        0
    } else {
        let q = upto - 1;
        connected_ranks(board, len, upto - 1) + if rank_present(board, len, q) && (
        rank_present(board, len, q + 1) || rank_present(board, len, q + 2)) {
            1nat
        } else {
            0nat
        }
    }
}

/// Connections between neighbouring distinct ranks (gap of one or two),
/// plus one for the wheel link between the deuce (rank 0) and the ace (rank 12).
pub open spec fn straight_draw_connections(board: Seq<u8>, len: int) -> nat {
    connected_ranks(board, len, 13) + if rank_present(board, len, 0) && rank_present(
        board,
        len,
        12,
    ) {
        1nat
    } else {
        0nat
    }
}

/// Five ranks `w .. w + 5` are all present.
pub open spec fn window_complete(board: Seq<u8>, len: int, w: int) -> bool {
    forall|r: int| w <= r < w + 5 ==> #[trigger] rank_present(board, len, r)
}

/// The ace-to-five straight: ranks 0, 1, 2, 3 and 12 are present.
pub open spec fn wheel_present(board: Seq<u8>, len: int) -> bool {
    &&& rank_present(board, len, 0)
    &&& rank_present(board, len, 1)
    &&& rank_present(board, len, 2)
    &&& rank_present(board, len, 3)
    &&& rank_present(board, len, 12)
}

/// The first `len` cards hold five consecutive ranks.
pub open spec fn straight_spec(board: Seq<u8>, len: int) -> bool {
    len >= 5 && ((exists|w: int| 0 <= w < 9 && #[trigger] window_complete(board, len, w))
        || wheel_present(board, len))
}

/// The first `len` cards form a straight draw.
pub open spec fn straight_draw_spec(board: Seq<u8>, len: int) -> bool {
    len >= 2 && straight_draw_connections(board, len) >= 2
}

proof fn lemma_rank_count_bound(board: Seq<u8>, len: int, r: int)
    requires
        0 <= len,
    ensures
        rank_count(board, len, r) <= len,
        r < 0 || r >= 13 ==> rank_count(board, len, r) == 0,
    decreases len,
{
    if len > 0 {
        lemma_rank_count_bound(board, len - 1, r);
    }
}

proof fn lemma_suit_count_monotone(board: Seq<u8>, i: int, j: int, s: int)
    requires
        0 <= i <= j,
    ensures
        suit_count(board, i, s) <= suit_count(board, j, s),
    decreases j - i,
{
    if i < j {
        lemma_suit_count_monotone(board, i, j - 1, s);
    }
}

/// Which ranks occur among the first `len` cards.
fn present_ranks(board: &[Card], len: usize) -> (present: Vec<bool>)
    requires
        len <= board@.len(),
    ensures
        present@.len() == 13,
        forall|r: int| 0 <= r < 13 ==> present@[r] == rank_present(board@, len as int, r),
{
    let mut present: Vec<bool> = vec![false; 13];
    let mut i: usize = 0;
    while i < len
        invariant
            i <= len <= board@.len(),
            present@.len() == 13,
            forall|r: int| 0 <= r < 13 ==> present@[r] == rank_present(board@, i as int, r),
        decreases len - i,
    {
        let rank = (board[i] % 13) as usize;
        present.set(rank, true);
        i += 1;
    }
    present
}

/// Whether some rank has exactly `k` cards, from the rank counts.
fn any_rank_exactly(board: &[Card], len: usize, counts: &Vec<u8>, k: u8) -> (res: bool)
    requires
        counts@.len() == 13,
        forall|q: int| 0 <= q < 13 ==> counts@[q] == rank_count(board@, len as int, q),
    ensures
        res == some_rank_exactly(board@, len as int, k as nat),
{
    let mut r: usize = 0;
    while r < 13
        invariant
            r <= 13,
            counts@.len() == 13,
            forall|q: int| 0 <= q < 13 ==> counts@[q] == rank_count(board@, len as int, q),
            forall|q: int| 0 <= q < r ==> #[trigger] rank_count(board@, len as int, q) != k,
        decreases 13 - r,
    {
        if counts[r] == k {
            assert(rank_count(board@, len as int, r as int) == k);
            return true;
        }
        r += 1;
    }
    false
}

/// Number of ranks with exactly `k` cards (`exact`) or with at least `k`
/// cards (`!exact`), from the rank counts.
fn count_ranks_with(board: &[Card], len: usize, counts: &Vec<u8>, k: u8, exact: bool) -> (n: usize)
    requires
        counts@.len() == 13,
        forall|q: int| 0 <= q < 13 ==> counts@[q] == rank_count(board@, len as int, q),
    ensures
        exact ==> n == ranks_with_exact_count(board@, len as int, k as nat, 13),
        !exact ==> n == ranks_with_count_at_least(board@, len as int, k as nat, 13),
{
    let mut n: usize = 0;
    let mut r: usize = 0;
    while r < 13
        invariant
            r <= 13,
            n <= r,
            counts@.len() == 13,
            forall|q: int| 0 <= q < 13 ==> counts@[q] == rank_count(board@, len as int, q),
            exact ==> n == ranks_with_exact_count(board@, len as int, k as nat, r as int),
            !exact ==> n == ranks_with_count_at_least(board@, len as int, k as nat, r as int),
        decreases 13 - r,
    {
        if (exact && counts[r] == k) || (!exact && counts[r] >= k) {
            n += 1;
        }
        r += 1;
    }
    n
}

/// A full house on the board: some rank occurs at least three times and at
/// least two ranks occur at least twice.
pub fn has_full_house(board: &[Card], len: usize) -> (res: bool)
    requires
        len <= board@.len(),
        rank_counts_fit(board@, len as int),
    ensures
        res == (some_rank_at_least(board@, len as int, 3) && ranks_with_count_at_least(
            board@,
            len as int,
            2,
            13,
        ) >= 2),
{
    let counts = count_ranks(board, len);
    let mut has_trips = false;
    let mut r: usize = 0;
    while r < 13
        invariant
            r <= 13,
            counts@.len() == 13,
            forall|q: int| 0 <= q < 13 ==> counts@[q] == rank_count(board@, len as int, q),
            has_trips == exists|q: int| 0 <= q < r && #[trigger] rank_count(board@, len as int, q) >= 3,
        decreases 13 - r,
    {
        if counts[r] >= 3 {
            assert(rank_count(board@, len as int, r as int) >= 3);
            has_trips = true;
        }
        r += 1;
    }
    let pairs_count = count_ranks_with(board, len, &counts, 2, false);
    has_trips && pairs_count >= 2
}

/// Two pair on the board: at least two ranks occur exactly twice.
pub fn has_two_pair(board: &[Card], len: usize) -> (res: bool)
    requires
        len <= board@.len(),
        rank_counts_fit(board@, len as int),
    ensures
        res == (ranks_with_exact_count(board@, len as int, 2, 13) >= 2),
{
    let counts = count_ranks(board, len);
    let pairs_count = count_ranks_with(board, len, &counts, 2, true);
    pairs_count >= 2
}

/// A pair on the board: some rank occurs exactly twice.
pub fn has_pair(board: &[Card], len: usize) -> (res: bool)
    requires
        len <= board@.len(),
        rank_counts_fit(board@, len as int),
    ensures
        res == some_rank_exactly(board@, len as int, 2),
{
    let counts = count_ranks(board, len);
    any_rank_exactly(board, len, &counts, 2)
}

/// Trips on the board: some rank occurs exactly three times.
pub fn has_trips(board: &[Card], len: usize) -> (res: bool)
    requires
        len <= board@.len(),
        rank_counts_fit(board@, len as int),
    ensures
        res == some_rank_exactly(board@, len as int, 3),
{
    let counts = count_ranks(board, len);
    any_rank_exactly(board, len, &counts, 3)
}

/// Quads on the board: some rank occurs exactly four times.
pub fn has_quads(board: &[Card], len: usize) -> (res: bool)
    requires
        len <= board@.len(),
        rank_counts_fit(board@, len as int),
    ensures
        res == some_rank_exactly(board@, len as int, 4),
{
    let counts = count_ranks(board, len);
    any_rank_exactly(board, len, &counts, 4)
}

/// The number of cards of each suit among the first `len` cards.
pub fn count_suits(board: &[Card], len: usize) -> (suit_counts: [u8; 4])
    requires
        len <= board@.len(),
        cards_valid(board@, len as int),
        suit_counts_fit(board@, len as int),
    ensures
        forall|s: int| 0 <= s < 4 ==> suit_counts@[s] == suit_count(board@, len as int, s),
{
    let mut suit_counts = [0u8; 4];
    let mut i: usize = 0;
    while i < len
        invariant
            i <= len <= board@.len(),
            cards_valid(board@, len as int),
            suit_counts_fit(board@, len as int),
            forall|s: int| 0 <= s < 4 ==> suit_counts@[s] == suit_count(board@, i as int, s),
        decreases len - i,
    {
        assert(board@[i as int] < 52);
        let suit = (board[i] / 13) as usize;
        proof {
            lemma_suit_count_monotone(board@, i + 1, len as int, suit as int);
        }
        suit_counts[suit] = suit_counts[suit] + 1;
        i += 1;
    }
    suit_counts
}

/// A flush on the board, as the original counts it: three cards of one suit.
pub fn has_flush(board: &[Card], len: usize) -> (res: bool)
    requires
        len <= board@.len(),
        cards_valid(board@, len as int),
        suit_counts_fit(board@, len as int),
    ensures
        res == some_suit_at_least(board@, len as int, 3),
{
    let suit_counts = count_suits(board, len);
    let mut s: usize = 0;
    while s < 4
        invariant
            s <= 4,
            forall|t: int| 0 <= t < 4 ==> suit_counts@[t] == suit_count(board@, len as int, t),
            forall|t: int| 0 <= t < s ==> #[trigger] suit_count(board@, len as int, t) < 3,
        decreases 4 - s,
    {
        if suit_counts[s] >= 3 {
            assert(suit_count(board@, len as int, s as int) >= 3);
            return true;
        }
        s += 1;
    }
    false
}

/// A flush draw on the board: exactly two cards of some suit.
pub fn has_flush_draw(board: &[Card], len: usize) -> (res: bool)
    requires
        len <= board@.len(),
        cards_valid(board@, len as int),
        suit_counts_fit(board@, len as int),
    ensures
        res == some_suit_exactly(board@, len as int, 2),
{
    let suit_counts = count_suits(board, len);
    let mut s: usize = 0;
    while s < 4
        invariant
            s <= 4,
            forall|t: int| 0 <= t < 4 ==> suit_counts@[t] == suit_count(board@, len as int, t),
            forall|t: int| 0 <= t < s ==> #[trigger] suit_count(board@, len as int, t) != 2,
        decreases 4 - s,
    {
        if suit_counts[s] == 2 {
            assert(suit_count(board@, len as int, s as int) == 2);
            return true;
        }
        s += 1;
    }
    false
}

/// A straight draw on the board: at least two connections between
/// neighbouring distinct ranks one or two apart (the deuce and the ace
/// count as one more connection).
pub fn has_straight_draw(board: &[Card], len: usize) -> (res: bool)
    requires
        len <= board@.len(),
    ensures
        res == straight_draw_spec(board@, len as int),
{
    if len < 2 {
        return false;
    }
    let present = present_ranks(board, len);
    proof {
        lemma_rank_count_bound(board@, len as int, 13);
        lemma_rank_count_bound(board@, len as int, 14);
    }
    let mut connected_count: usize = 0;
    let mut r: usize = 0;
    while r < 13
        invariant
            r <= 13,
            connected_count <= r,
            present@.len() == 13,
            forall|q: int| 0 <= q < 13 ==> present@[q] == rank_present(board@, len as int, q),
            !rank_present(board@, len as int, 13),
            !rank_present(board@, len as int, 14),
            connected_count == connected_ranks(board@, len as int, r as int),
        decreases 13 - r,
    {
        let up1 = r + 1 < 13 && present[r + 1];
        let up2 = r + 2 < 13 && present[r + 2];
        if present[r] && (up1 || up2) {
            connected_count += 1;
        }
        r += 1;
    }
    if present[0] && present[12] {
        connected_count += 1;
    }
    connected_count >= 2
}

/// A straight on the board: five consecutive ranks, the ace also playing
/// low (A-2-3-4-5).
pub fn has_straight(board: &[Card], len: usize) -> (res: bool)
    requires
        len <= board@.len(),
    ensures
        res == straight_spec(board@, len as int),
{
    if len < 5 {
        return false;
    }
    let present = present_ranks(board, len);
    let mut window_start: usize = 0;
    while window_start < 9
        invariant
            window_start <= 9,
            5 <= len <= board@.len(),
            present@.len() == 13,
            forall|q: int| 0 <= q < 13 ==> present@[q] == rank_present(board@, len as int, q),
            forall|w: int| 0 <= w < window_start ==> !#[trigger] window_complete(board@, len as int, w),
        decreases 9 - window_start,
    {
        let mut consecutive_count: usize = 0;
        let mut r: usize = window_start;
        while r < window_start + 5
            invariant
                window_start < 9,
                window_start <= r <= window_start + 5,
                present@.len() == 13,
                forall|q: int| 0 <= q < 13 ==> present@[q] == rank_present(board@, len as int, q),
                consecutive_count <= r - window_start,
                consecutive_count == r - window_start <==> forall|q: int|
                    window_start <= q < r ==> #[trigger] rank_present(board@, len as int, q),
            decreases window_start + 5 - r,
        {
            if present[r] {
                consecutive_count += 1;
            }
            r += 1;
        }
        if consecutive_count >= 5 {
            assert(window_complete(board@, len as int, window_start as int));
            return true;
        }
        window_start += 1;
    }
    if present[0] && present[1] && present[2] && present[3] && present[12] {
        return true;
    }
    false
}

/// The rank of `card` is at least the rank of each of the first `len` cards.
pub fn is_highest_card(card: Card, board: &[Card], len: usize) -> (res: bool)
    requires
        len <= board@.len(),
    ensures
        res == forall|i: int| 0 <= i < len ==> #[trigger] board@[i] % 13 <= card % 13,
{
    let card_rank = card % 13;
    let mut i: usize = 0;
    while i < len
        invariant
            i <= len <= board@.len(),
            card_rank == card % 13,
            forall|j: int| 0 <= j < i ==> #[trigger] board@[j] % 13 <= card % 13,
        decreases len - i,
    {
        let rank = board[i] % 13;
        if rank > card_rank {
            return false;
        }
        i += 1;
    }
    true
}

} // verus!
