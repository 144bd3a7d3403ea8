use postflop_solver::hand_strength::{
    count_suits, has_flush, has_flush_draw, has_full_house, has_pair, has_quads, has_straight,
    has_straight_draw, has_trips, has_two_pair, is_highest_card,
};

// Cards are rank + 13 * suit.
fn card(rank: u8, suit: u8) -> u8 {
    rank + 13 * suit
}

#[test]
fn pair_trips_quads_are_exact_counts() {
    let board = [card(5, 0), card(5, 1), card(9, 2)];
    assert!(has_pair(&board, 3));
    assert!(!has_trips(&board, 3));
    let trips = [card(5, 0), card(5, 1), card(5, 2)];
    assert!(has_trips(&trips, 3));
    assert!(!has_pair(&trips, 3));
    let quads = [card(7, 0), card(7, 1), card(7, 2), card(7, 3)];
    assert!(has_quads(&quads, 4));
    assert!(!has_trips(&quads, 4));
    // Only the first `len` cards count.
    assert!(!has_pair(&board, 1));
}

#[test]
fn two_pair_and_full_house() {
    let two_pair = [card(2, 0), card(2, 1), card(9, 0), card(9, 3), card(12, 1)];
    assert!(has_two_pair(&two_pair, 5));
    assert!(has_pair(&two_pair, 5));
    assert!(!has_full_house(&two_pair, 5));
    let full = [card(2, 0), card(2, 1), card(2, 2), card(9, 0), card(9, 3)];
    assert!(has_full_house(&full, 5));
    assert!(!has_two_pair(&full, 5));
    // Quads and a pair count as a full house (a rank with at least three
    // cards and two ranks with at least two).
    let quads_pair = [card(4, 0), card(4, 1), card(4, 2), card(4, 3), card(8, 0), card(8, 1)];
    assert!(has_full_house(&quads_pair, 6));
    assert!(!has_trips(&quads_pair, 6));
}

#[test]
fn suits_flush_and_flush_draw() {
    let board = [card(1, 2), card(6, 2), card(11, 0), card(3, 2)];
    assert_eq!(count_suits(&board, 4), [1, 0, 3, 0]);
    assert_eq!(count_suits(&board, 2), [0, 0, 2, 0]);
    assert!(has_flush(&board, 4));
    assert!(!has_flush_draw(&board, 4));
    assert!(!has_flush(&board, 2));
    assert!(has_flush_draw(&board, 2));
}

#[test]
fn suit_counts_add_up_to_len() {
    let board = [card(0, 0), card(1, 3), card(2, 3), card(10, 1), card(12, 2)];
    let counts = count_suits(&board, 5);
    let total: u32 = counts.iter().map(|&c| c as u32).sum();
    assert_eq!(total, 5);
}

#[test]
fn straight_windows_and_wheel() {
    let broadway = [card(8, 0), card(9, 1), card(10, 2), card(11, 3), card(12, 0)];
    assert!(has_straight(&broadway, 5));
    let wheel = [card(12, 0), card(0, 1), card(1, 2), card(2, 3), card(3, 0)];
    assert!(has_straight(&wheel, 5));
    let gap = [card(0, 0), card(1, 1), card(2, 2), card(3, 3), card(5, 0)];
    assert!(!has_straight(&gap, 5));
    // Fewer than five cards never make a straight.
    assert!(!has_straight(&broadway, 4));
    // Duplicated ranks do not hurt.
    let dup = [card(3, 0), card(3, 1), card(4, 0), card(5, 0), card(6, 0), card(7, 0)];
    assert!(has_straight(&dup, 6));
}

#[test]
fn straight_draw_counts_connections() {
    // 5-6-8: connections 5-6 and 6-8.
    let board = [card(3, 0), card(4, 1), card(6, 2)];
    assert!(has_straight_draw(&board, 3));
    // 2-9-K: no connection.
    let dry = [card(0, 0), card(7, 1), card(11, 2)];
    assert!(!has_straight_draw(&dry, 3));
    // 2 and A connect through the wheel, 2-3 connects: two connections.
    let wheel_draw = [card(0, 0), card(1, 1), card(12, 2)];
    assert!(has_straight_draw(&wheel_draw, 3));
    // A single connection is not enough.
    let one = [card(0, 0), card(1, 1), card(9, 2)];
    assert!(!has_straight_draw(&one, 3));
    assert!(!has_straight_draw(&board, 1));
}

#[test]
fn straight_implies_straight_draw() {
    let boards: [[u8; 5]; 3] = [
        [card(8, 0), card(9, 1), card(10, 2), card(11, 3), card(12, 0)],
        [card(12, 0), card(0, 1), card(1, 2), card(2, 3), card(3, 0)],
        [card(4, 0), card(5, 1), card(6, 2), card(7, 3), card(8, 0)],
    ];
    for b in boards.iter() {
        assert!(has_straight(b, 5));
        assert!(has_straight_draw(b, 5));
    }
}

#[test]
fn two_pair_implies_pair() {
    let board = [card(1, 0), card(1, 1), card(4, 0), card(4, 1)];
    assert!(has_two_pair(&board, 4));
    assert!(has_pair(&board, 4));
}

#[test]
fn highest_card_compares_ranks_only() {
    let board = [card(3, 0), card(9, 1), card(5, 2)];
    assert!(is_highest_card(card(9, 3), &board, 3));
    assert!(is_highest_card(card(12, 0), &board, 3));
    assert!(!is_highest_card(card(8, 0), &board, 3));
    assert!(is_highest_card(card(4, 0), &board, 1));
}

#[test]
fn texture_ignores_card_order() {
    let a = [card(12, 0), card(0, 1), card(1, 2), card(2, 3), card(3, 0), card(3, 2)];
    let b = [card(3, 2), card(2, 3), card(3, 0), card(12, 0), card(1, 2), card(0, 1)];
    assert_eq!(has_straight(&a, 6), has_straight(&b, 6));
    assert_eq!(has_straight_draw(&a, 6), has_straight_draw(&b, 6));
    assert_eq!(has_pair(&a, 6), has_pair(&b, 6));
    assert_eq!(count_suits(&a, 6), count_suits(&b, 6));
    assert!(has_straight(&a, 6) && has_pair(&b, 6));
}
