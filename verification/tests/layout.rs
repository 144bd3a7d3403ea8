use postflop_solver::layout::{
    hand_detail_offsets,
    layout_chance_reports, layout_result_buffer, parse_chance_reports, parse_specific_result,
    ResultSections,
};

#[test]
fn result_buffer_roundtrip() {
    // OOP has 2 hands, IP has 1; OOP acts with 2 actions.
    let sections = ResultSections {
        header: vec![10.0, 12.0, 0.0],
        weights: vec![vec![1.0, 0.5], vec![0.25]],
        details: Some(vec![
            vec![0.9, 0.4],
            vec![0.2],
            vec![0.6, 0.3],
            vec![0.7],
            vec![3.0, 1.0],
            vec![5.0],
            vec![1.1, 0.8],
            vec![1.2],
        ]),
        strategy: Some(vec![0.1, 0.2, 0.9, 0.8]),
        action_ev: Some(vec![2.0, 1.5, 3.5, 0.5]),
    };
    let buffer = layout_result_buffer(&sections);
    assert_eq!(buffer.len(), 3 + 3 * 5 + 4 + 4);
    let res = parse_specific_result(&buffer, [10, 12], 0, 2, 1, "oop", 2, 0.0, vec![(0, 1), (2, 3)], vec![(4, 5)]);
    assert_eq!(res.weights, vec![vec![1.0, 0.5], vec![0.25]]);
    assert_eq!(res.normalizer, vec![vec![0.9, 0.4], vec![0.2]]);
    assert_eq!(res.equity, vec![vec![0.6, 0.3], vec![0.7]]);
    assert_eq!(res.ev, vec![vec![3.0, 1.0], vec![5.0]]);
    assert_eq!(res.eqr, vec![vec![1.1, 0.8], vec![1.2]]);
    assert_eq!(res.strategy, vec![0.1, 0.2, 0.9, 0.8]);
    assert_eq!(res.action_ev, vec![2.0, 1.5, 3.5, 0.5]);
    assert!(!res.is_empty);
    assert_eq!(res.current_player, "oop");
    assert_eq!(res.eqr_base, [10, 12]);
    assert_eq!(res.ip_cards, vec![(4, 5)]);
}

#[test]
fn result_buffer_pads_and_skips() {
    // A terminal node: no strategy is read.
    let buffer: Vec<i64> = vec![1, 2, 0, 7, 8, 9, 10, 11, 12, 13, 14, 15, 16, 17, 18];
    let res = parse_specific_result(&buffer, [1, 2], 0, 1, 1, "terminal", 0, -1, vec![], vec![]);
    assert!(res.strategy.is_empty());
    assert!(res.action_ev.is_empty());
    assert_eq!(res.eqr, vec![vec![15], vec![16]]);
    // Entries past the end read as the fill value.
    let res = parse_specific_result(&buffer, [1, 2], 0, 1, 1, "ip", 2, -1, vec![], vec![]);
    assert_eq!(res.strategy, vec![17, 18]);
    assert_eq!(res.action_ev, vec![-1, -1]);
    // Both ranges empty: the normalizer repeats the weights, no action EVs.
    let empty: Vec<i64> = vec![1, 2, 3, 0, 0, 5, 6];
    let res = parse_specific_result(&empty, [1, 2], 3, 1, 1, "oop", 1, -1, vec![], vec![]);
    assert!(res.is_empty);
    assert_eq!(res.normalizer, vec![vec![0], vec![0]]);
    assert!(res.equity[0].is_empty());
    assert_eq!(res.strategy, vec![5]);
    assert!(res.action_ev.is_empty());
}

#[test]
fn chance_report_roundtrip() {
    let status: Vec<u32> = (0..52).collect();
    let seg = |base: u32| (0..52).map(|i| base + i).collect::<Vec<u32>>();
    let combos = vec![seg(100), seg(200)];
    let equity = vec![seg(300), seg(400)];
    let ev = vec![seg(500), seg(600)];
    let eqr = vec![seg(700), seg(800)];
    let strategy: Vec<u32> = (0..104).map(|i| 900 + i).collect();
    let buffer = layout_chance_reports(&status, &combos, &equity, &ev, &eqr, &strategy);
    assert_eq!(buffer.len(), 9 * 52 + 104);
    let res = parse_chance_reports(&buffer, "oop", 2);
    assert_eq!(res.status, status);
    assert_eq!(res.combos, combos);
    assert_eq!(res.equity, equity);
    assert_eq!(res.ev, ev);
    assert_eq!(res.eqr, eqr);
    assert_eq!(res.strategy, strategy);
    let res = parse_chance_reports(&buffer, "terminal", 2);
    assert!(res.strategy.is_empty());
    assert_eq!(res.current_player, "terminal");
}

#[test]
fn detail_offsets_point_at_the_read_sections() {
    // OOP 2 hands, IP 1 hand, 2 actions.
    assert_eq!(hand_detail_offsets(2, 1, 0, 2), (9, 12, 18, 22));
    assert_eq!(hand_detail_offsets(2, 1, 1, 2), (11, 14, 18, 20));
    let buffer: Vec<u32> = (0..30).collect();
    let res = parse_specific_result(&buffer, [0, 0], 0, 2, 1, "ip", 2, 0, vec![], vec![]);
    let (eq, ev, st, aev) = hand_detail_offsets(2, 1, 1, 2);
    assert_eq!(res.equity[1], buffer[eq..eq + 1].to_vec());
    assert_eq!(res.ev[1], buffer[ev..ev + 1].to_vec());
    assert_eq!(res.strategy, buffer[st..st + 2].to_vec());
    assert_eq!(res.action_ev, buffer[aev..aev + 2].to_vec());
}
