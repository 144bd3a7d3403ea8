use postflop_solver::actions::{get_current_actions_string, GameAction, NodeView};
use postflop_solver::cards::PredefinedCard;
use postflop_solver::chance::{choose_chance_card, live_card_indices, pick_live_card};
use postflop_solver::nav::{
    action_path_label_string, appended_selections, can_chance_reports, chance_cards_needed_at,
    chance_report_request, dealable_card_list, deal_card, find_turn_spot, flop_action_labels,
    history_from_spots, mark_dead_cards, parse_action_list, plan_selection, play_action,
    river_index_after, select_spot_is_unchanged, selection_after_select, splice_spots_chance,
    splice_spots_player, splice_spots_terminal, terminal_equity, to_action_indices, Action,
    NavError, NavState, Spot, SpotCard, SpotType, TerminalEquity, splice_kind, SpliceKind,
    rates_player, action_tree_label_string, action_menu_text_string,
};

fn action(index: usize, name: &str, amount: &str) -> Action {
    Action { index, name: name.to_string(), amount: amount.to_string(), is_selected: false }
}

fn spot(spot_type: SpotType, player: &str, selected: i32, actions: Vec<Action>) -> Spot<u32> {
    Spot {
        spot_type,
        index: 0,
        player: player.to_string(),
        selected_index: selected,
        actions,
        cards: Vec::new(),
        prev_player: None,
        values: 0,
    }
}

fn root() -> Spot<u32> {
    spot(SpotType::Root, "flop", -1, vec![])
}

fn state(spots: Vec<Spot<u32>>, sel: i32, chance: i32) -> NavState<u32> {
    NavState { spots, selected_spot_index: sel, selected_chance_index: chance, is_dealing: false }
}

fn chance_spot(player: &str, possible: u64) -> Spot<u32> {
    let mut s = spot(SpotType::Chance, player, -1, vec![]);
    s.cards = dealable_card_list(possible);
    s
}

#[test]
fn history_skips_unselected_spots() {
    let spots = vec![
        root(),
        spot(SpotType::Player, "oop", 1, vec![action(0, "Check", "0"), action(1, "Bet", "50")]),
        spot(SpotType::Chance, "turn", -1, vec![]),
        spot(SpotType::Player, "ip", 0, vec![action(0, "Call", "0")]),
    ];
    assert_eq!(history_from_spots(&spots, 4), vec![1, 0]);
    assert_eq!(history_from_spots(&spots, 2), vec![1]);
    assert_eq!(history_from_spots(&spots, 1), Vec::<usize>::new());
    assert_eq!(history_from_spots(&spots, 0), Vec::<usize>::new());
}

#[test]
fn parse_actions_list() {
    let actions = parse_action_list("Fold:0/Call:0/Raise:120");
    assert_eq!(actions.len(), 3);
    assert_eq!(actions[2].index, 2);
    assert_eq!(actions[2].name, "Raise");
    assert_eq!(actions[2].amount, "120");
    assert!(!actions[0].is_selected);
    let odd = parse_action_list("Check");
    assert_eq!(odd[0].name, "Check");
    assert_eq!(odd[0].amount, "0");
    // An empty list still gives one (empty) action, as `str::split` does.
    assert_eq!(parse_action_list("").len(), 1);
}

#[test]
fn actions_string_reads_back() {
    let node = NodeView {
        is_terminal: false,
        is_chance: false,
        current_player: 0,
        actions: vec![GameAction::Check, GameAction::Bet(75), GameAction::AllIn(-3)],
    };
    let listed = parse_action_list(&get_current_actions_string(&node));
    let pairs: Vec<(String, String)> = listed.iter().map(|a| (a.name.clone(), a.amount.clone())).collect();
    assert_eq!(
        pairs,
        vec![
            ("Check".to_string(), "0".to_string()),
            ("Bet".to_string(), "75".to_string()),
            ("Allin".to_string(), "-3".to_string()),
        ]
    );
}

#[test]
fn play_selects_action_and_extends_history() {
    let mut st = state(
        vec![root(), spot(SpotType::Player, "oop", 0, vec![action(0, "Check", "0"), action(1, "Bet", "50")])],
        1,
        -1,
    );
    st.spots[1].actions[0].is_selected = true;
    let before = history_from_spots(&st.spots, 1);
    assert_eq!(play_action(&mut st, 1), Ok(2));
    assert!(!st.spots[1].actions[0].is_selected);
    assert!(st.spots[1].actions[1].is_selected);
    assert_eq!(st.spots[1].selected_index, 1);
    let mut expected = before.clone();
    expected.push(1);
    assert_eq!(history_from_spots(&st.spots, 2), expected);
}

#[test]
fn play_errors() {
    let mut st = state(vec![root()], 3, -1);
    assert_eq!(play_action(&mut st, 0), Err(NavError::SpotNotFound(3)));
    let mut st = state(vec![root()], 0, -1);
    assert_eq!(play_action(&mut st, 0), Err(NavError::NotPlayerSpot(0)));
    let mut st = state(vec![root(), spot(SpotType::Player, "oop", 0, vec![action(0, "Check", "0")])], 1, -1);
    st.spots[1].actions[0].is_selected = true;
    assert_eq!(play_action(&mut st, 4), Err(NavError::ActionNotFound(4)));
    // The earlier selection was already cleared when the action was missing.
    assert!(!st.spots[1].actions[0].is_selected);
    assert_eq!(st.spots[1].selected_index, 0);
}

#[test]
fn deal_selects_card() {
    let mut st = state(vec![root(), chance_spot("turn", 0b1110)], 2, 1);
    assert_eq!(deal_card(&mut st, 2), Ok(()));
    assert!(st.is_dealing);
    assert_eq!(st.spots[1].selected_index, 2);
    assert!(st.spots[1].cards[2].is_selected);
    assert_eq!(deal_card(&mut st, 3), Ok(()));
    assert!(!st.spots[1].cards[2].is_selected);
    assert!(st.spots[1].cards[3].is_selected);
}

#[test]
fn deal_errors() {
    let mut st = state(vec![root(), chance_spot("turn", 0b1110)], 2, -1);
    assert_eq!(deal_card(&mut st, 1), Err(NavError::NoChanceSelected));
    let mut st = state(vec![root(), spot(SpotType::Player, "oop", -1, vec![])], 1, 1);
    assert_eq!(deal_card(&mut st, 1), Err(NavError::NotChanceSpot));
    let mut st = state(vec![root(), chance_spot("turn", 0b1110)], 2, 1);
    assert_eq!(deal_card(&mut st, 0), Err(NavError::DeadCard(0)));
    assert_eq!(deal_card(&mut st, 60), Err(NavError::DeadCard(60)));
    assert!(!st.is_dealing);
}

#[test]
fn dead_cards_follow_possible_cards() {
    let cards = dealable_card_list(0b101);
    assert_eq!(cards.len(), 52);
    assert!(!cards[0].is_dead);
    assert!(cards[1].is_dead);
    assert!(!cards[2].is_dead);
    assert!(cards[51].is_dead);
    let mut s = chance_spot("river", u64::MAX);
    s.selected_index = 5;
    s.cards[5].is_selected = true;
    mark_dead_cards(&mut s, !(1u64 << 5));
    assert!(s.cards[5].is_dead);
    assert!(!s.cards[5].is_selected);
    assert_eq!(s.selected_index, -1);
    let mut s = chance_spot("river", u64::MAX);
    s.selected_index = 4;
    mark_dead_cards(&mut s, !(1u64 << 5));
    assert_eq!(s.selected_index, 4);
}

#[test]
fn river_index_search() {
    let spots = vec![
        root(),
        spot(SpotType::Player, "oop", 0, vec![]),
        chance_spot("turn", 1),
        spot(SpotType::Player, "oop", 0, vec![]),
        spot(SpotType::Player, "ip", 0, vec![]),
        chance_spot("river", 1),
    ];
    assert_eq!(river_index_after(&spots, 2), 5);
    assert_eq!(river_index_after(&spots, 3), -1);
}

#[test]
fn selection_of_spots() {
    let spots = vec![
        root(),
        spot(SpotType::Player, "oop", 1, vec![]),
        spot(SpotType::Player, "ip", 1, vec![]),
        chance_spot("turn", 1),
        spot(SpotType::Player, "oop", 0, vec![]),
    ];
    let st = state(spots, 4, 3);
    // Selecting the chance spot without splicing keeps the spot selection.
    assert_eq!(selection_after_select(&st, 3, false, 3), (4, 3));
    // Selecting a spot before the chance selection drops it.
    assert_eq!(selection_after_select(&st, 2, false, 3), (2, -1));
    // With no chance selection the first open chance spot before is taken.
    assert_eq!(selection_after_select(&st, 4, false, -1), (4, 3));
    assert!(select_spot_is_unchanged(&st, 4, false, false));
    assert!(!select_spot_is_unchanged(&st, 4, false, true));
    assert!(select_spot_is_unchanged(&st, 3, false, false));
    assert!(!select_spot_is_unchanged(&st, 4, true, false));
    let plan = plan_selection(&st, 4, false, -1);
    assert_eq!((plan.spot, plan.chance, plan.end_index), (4, 3, 3));
    assert_eq!(plan.history, vec![1, 1]);
    assert_eq!(plan.append, vec![-1]);
}

#[test]
fn flop_labels_and_appended_actions() {
    let spots = vec![
        root(),
        spot(SpotType::Player, "oop", 1, vec![action(0, "Check", "0"), action(1, "Bet", "50")]),
        spot(SpotType::Player, "ip", 0, vec![action(0, "Call", "0")]),
        chance_spot("turn", 1),
        spot(SpotType::Player, "turn", 0, vec![action(0, "Check", "0")]),
    ];
    assert_eq!(flop_action_labels(&spots, 5), vec!["Bet50".to_string(), "Call".to_string()]);
    assert_eq!(action_path_label_string(&action(0, "Raise", "120")), "Raise120");
    assert_eq!(appended_selections(&spots, 3, 5), vec![-1, 0]);
    assert_eq!(appended_selections(&spots, -1, 5), Vec::<i32>::new());
    assert_eq!(to_action_indices(&vec![-1, 0, 2]), vec![0, 0, 2]);
}

#[test]
fn chance_report_decisions() {
    let spots = vec![
        root(),
        spot(SpotType::Player, "oop", 0, vec![]),
        spot(SpotType::Player, "ip", 0, vec![]),
        chance_spot("turn", 1),
        spot(SpotType::Player, "oop", 0, vec![]),
        spot(SpotType::Player, "ip", 0, vec![]),
        spot(SpotType::Player, "oop", 0, vec![]),
        chance_spot("river", 1),
    ];
    assert!(can_chance_reports(&spots, 3, 7, "Check:0/Bet:10"));
    assert!(!can_chance_reports(&spots, 3, 7, "chance"));
    assert!(!can_chance_reports(&spots, 3, 8, "Check:0"));
    assert!(!can_chance_reports(&spots, -1, 7, "Check:0"));
    assert_eq!(chance_report_request("terminal", 3), ("terminal".to_string(), 0));
    assert_eq!(chance_report_request("Check:0/Bet:10", 3), ("oop".to_string(), 2));
    assert_eq!(chance_report_request("Fold:0/Call:0/Raise:40", 2), ("ip".to_string(), 3));
}

#[test]
fn splice_player_terminal_and_chance() {
    let mut st = state(vec![root(), spot(SpotType::Player, "oop", 0, vec![action(0, "Check", "0")])], 1, -1);
    splice_spots_player(&mut st, 2, "Check:0/Bet:30", 7);
    assert_eq!(st.spots.len(), 3);
    assert_eq!(st.spots[2].player, "ip");
    assert_eq!(st.spots[2].spot_type, SpotType::Player);
    assert_eq!(st.spots[2].actions[1].amount, "30");
    assert_eq!(st.spots[2].prev_player, Some("oop".to_string()));
    assert_eq!(st.spots[2].values, 7);
    splice_spots_terminal(&mut st, 2, 9);
    assert_eq!(st.spots.len(), 3);
    assert_eq!(st.spots[2].spot_type, SpotType::Terminal);
    assert_eq!(st.spots[2].player, "end");
    assert_eq!(st.spots[2].values, 9);
    let (c, s) = splice_spots_chance(&mut st, 2, "Check:0/Bet:10", 0b11, 1, 2);
    assert_eq!((c, s), (2, 3));
    assert_eq!(st.spots.len(), 4);
    assert_eq!(st.spots[2].player, "turn");
    assert_eq!(st.spots[2].spot_type, SpotType::Chance);
    assert!(!st.spots[2].cards[1].is_dead);
    assert!(st.spots[2].cards[2].is_dead);
    assert_eq!(st.spots[3].player, "oop");
    assert_eq!(st.spots[3].prev_player, Some("turn".to_string()));
    assert_eq!(st.spots[3].actions.len(), 2);
    // A later chance spot is the river.
    let (c, s) = splice_spots_chance(&mut st, 4, "Check:0", 0, 1, 2);
    assert_eq!((c, s), (4, 5));
    assert_eq!(st.spots[4].player, "river");
    assert!(st.spots[4].cards.iter().all(|c| c.is_dead));
}

#[test]
fn turn_spot_and_chance_cards_lookup() {
    let spots = vec![root(), spot(SpotType::Player, "oop", 0, vec![]), chance_spot("turn", 1)];
    assert_eq!(find_turn_spot(&spots, 3), Some(2));
    assert_eq!(find_turn_spot(&spots, 2), None);
    // The turn waits for its card: the river's cards need no lookup.
    assert!(!chance_cards_needed_at(&spots, 3));
    let mut dealt = spots.clone();
    dealt[2].selected_index = 0;
    assert!(chance_cards_needed_at(&dealt, 3));
    assert!(chance_cards_needed_at(&spots, 2));
}

#[test]
fn terminal_equity_cases() {
    let mut fold = spot(SpotType::Player, "oop", 0, vec![action(0, "Fold", "0")]);
    let st = state(vec![root(), fold.clone()], 1, -1);
    assert_eq!(terminal_equity(&st, 2, false), TerminalEquity::OopFolded);
    fold.player = "ip".to_string();
    let st = state(vec![root(), fold], 1, -1);
    assert_eq!(terminal_equity(&st, 2, false), TerminalEquity::IpFolded);
    let call = spot(SpotType::Player, "ip", 0, vec![action(0, "Call", "0")]);
    let st = state(vec![root(), call.clone()], 1, -1);
    assert_eq!(terminal_equity(&st, 2, false), TerminalEquity::FromRange);
    assert_eq!(terminal_equity(&st, 2, true), TerminalEquity::Unknown);
    let st = state(vec![root(), chance_spot("turn", 1), call], 2, 1);
    assert_eq!(terminal_equity(&st, 3, false), TerminalEquity::Unknown);
}

#[test]
fn random_cards_are_live() {
    let mut s = chance_spot("turn", 1u64 << 17);
    assert_eq!(live_card_indices(&s.cards), vec![17]);
    assert_eq!(pick_live_card(&s.cards), Some(17));
    let all_dead: Vec<SpotCard> = dealable_card_list(0);
    assert_eq!(pick_live_card(&all_dead), None);
    let many = dealable_card_list(0b1010_1010);
    for _ in 0..20 {
        let i = pick_live_card(&many).unwrap();
        assert!(!many[i].is_dead);
    }
    let mut fixed: Vec<PredefinedCard> = Vec::new();
    assert_eq!(choose_chance_card(&s, &mut fixed), Some(17));
    assert_eq!(fixed.len(), 1);
    assert_eq!(fixed[0].card_index, 17);
    // The turn slot is now fixed.
    s.cards[17].is_dead = true;
    assert_eq!(choose_chance_card(&s, &mut fixed), Some(17));
    // The river has no fixed card yet, and every card is dead.
    let river = chance_spot("river", 0);
    assert_eq!(choose_chance_card(&river, &mut fixed), None);
    assert_eq!(fixed.len(), 1);
}

#[test]
fn chance_selection_precedes_spot_selection() {
    let spots = vec![
        root(),
        spot(SpotType::Player, "oop", 1, vec![]),
        spot(SpotType::Player, "ip", 1, vec![]),
        chance_spot("turn", 1),
        spot(SpotType::Player, "oop", 0, vec![]),
    ];
    let st = state(spots, 1, -1);
    for spot_index in 1..5 {
        for &need_splice in &[false, true] {
            for &chance in &[-1, 3] {
                let (s, c) = selection_after_select(&st, spot_index, need_splice, chance);
                assert!(c == -1 || (0 <= c && c < s));
            }
        }
    }
}

#[test]
fn splice_keeps_history_of_kept_spots() {
    let mut st = state(
        vec![
            root(),
            spot(SpotType::Player, "oop", 1, vec![action(0, "Check", "0"), action(1, "Bet", "50")]),
            spot(SpotType::Player, "ip", 0, vec![action(0, "Call", "0")]),
        ],
        2,
        -1,
    );
    let before = history_from_spots(&st.spots, 2);
    splice_spots_player(&mut st, 2, "Check:0", 0);
    assert_eq!(history_from_spots(&st.spots, 2), before);
    splice_spots_terminal(&mut st, 2, 0);
    assert_eq!(history_from_spots(&st.spots, 2), before);
}

#[test]
fn splice_kind_and_rates_player() {
    assert_eq!(splice_kind("terminal"), SpliceKind::Terminal);
    assert_eq!(splice_kind("chance"), SpliceKind::Chance);
    assert_eq!(splice_kind("Check:0/Bet:10"), SpliceKind::Player);
    let spots = vec![root(), spot(SpotType::Player, "oop", -1, vec![]), spot(SpotType::Player, "ip", -1, vec![])];
    assert_eq!(rates_player(&spots, 1, -1), Some(0));
    assert_eq!(rates_player(&spots, 2, -1), Some(1));
    assert_eq!(rates_player(&spots, 2, 1), None);
    assert_eq!(rates_player(&spots, 0, -1), None);
    assert_eq!(rates_player(&spots, 5, -1), None);
    assert_eq!(rates_player(&spots, -1, -1), None);
}

#[test]
fn action_labels_for_the_tree_and_the_menus() {
    let bet = action(1, "Bet", "50");
    let check = action(0, "Check", "0");
    assert_eq!(action_tree_label_string(&bet), "Bet 50");
    assert_eq!(action_tree_label_string(&check), "Check");
    assert_eq!(action_menu_text_string(&bet), "Bet 50");
    assert_eq!(action_menu_text_string(&check), "Check ");
    assert_eq!(action_path_label_string(&bet), "Bet50");
}
