use postflop_solver::actions::{
    current_player_str, get_current_actions_string, replay_chance_card, total_bet_amount,
    GameAction, NodeView, ReplayError,
};
use postflop_solver::cards::{
    card_from_string, card_to_string_simple, format_hand_cards, rank_to_char, suit_to_char,
    PredefinedCard,
};
use postflop_solver::paths::{
    board_street_name, dealt_card_step_string, dealt_street, format_action_string, format_path_string,
    range_string, result_file_stem, street_of_board, Street, StreetPath,
};
use postflop_solver::text::{i32_decimal, split_chars, string_from_chars};

#[test]
fn rank_and_suit_characters() {
    assert_eq!(rank_to_char(0), '2');
    assert_eq!(rank_to_char(8), 'T');
    assert_eq!(rank_to_char(12), 'A');
    assert_eq!(rank_to_char(13), '?');
    assert_eq!(suit_to_char(0), 'c');
    assert_eq!(suit_to_char(3), 's');
    assert_eq!(suit_to_char(4), '?');
}

#[test]
fn simple_card_names_use_rank_times_four() {
    assert_eq!(card_to_string_simple(0), "2c");
    assert_eq!(card_to_string_simple(51), "As");
    assert_eq!(card_to_string_simple(4 * 8 + 2), "Th");
    assert_eq!(card_to_string_simple(52), "??");
    assert_eq!(card_to_string_simple(255), "??");
}

#[test]
fn card_from_string_uses_rank_plus_thirteen_suits() {
    assert_eq!(card_from_string("2s"), 0);
    assert_eq!(card_from_string("Ah"), 12 + 13);
    assert_eq!(card_from_string("Tc"), 8 + 26);
    assert_eq!(card_from_string("Kd"), 11 + 39);
    // Extra characters are ignored.
    assert_eq!(card_from_string("3sx"), 1);
}

#[test]
fn card_name_rank_roundtrip() {
    for s in ["2s", "9h", "Tc", "Jd", "Qs", "Kh", "Ac"] {
        let c = card_from_string(s);
        assert_eq!(rank_to_char((c % 13) as usize), s.chars().next().unwrap());
    }
}

#[test]
fn hand_names_use_rank_modulo_thirteen() {
    assert_eq!(format_hand_cards((12, 25)), "AcAd");
    assert_eq!(format_hand_cards((0, 51)), "2cAs");
    assert_eq!(format_hand_cards((52, 60)), "2?T?");
}

fn decision(actions: Vec<GameAction>, player: usize) -> NodeView {
    NodeView { is_terminal: false, is_chance: false, current_player: player, actions }
}

#[test]
fn actions_string_lists_labels() {
    let node = decision(
        vec![GameAction::Fold, GameAction::Call, GameAction::Raise(120), GameAction::AllIn(-5)],
        1,
    );
    assert_eq!(get_current_actions_string(&node), "Fold:0/Call:0/Raise:120/Allin:-5");
    let node = decision(vec![GameAction::Check, GameAction::Bet(0)], 0);
    assert_eq!(get_current_actions_string(&node), "Check:0/Bet:0");
    let terminal = NodeView { is_terminal: true, is_chance: false, current_player: 0, actions: vec![] };
    assert_eq!(get_current_actions_string(&terminal), "terminal");
    let chance = NodeView { is_terminal: false, is_chance: true, current_player: 0, actions: vec![] };
    assert_eq!(get_current_actions_string(&chance), "chance");
    assert_eq!(current_player_str(&terminal), "terminal");
    assert_eq!(current_player_str(&chance), "chance");
    assert_eq!(current_player_str(&decision(vec![], 0)), "oop");
    assert_eq!(current_player_str(&decision(vec![], 1)), "ip");
}

#[test]
fn decimal_notation() {
    assert_eq!(i32_decimal(0).iter().collect::<String>(), "0");
    assert_eq!(i32_decimal(1234).iter().collect::<String>(), "1234");
    assert_eq!(i32_decimal(-907).iter().collect::<String>(), "-907");
    assert_eq!(i32_decimal(i32::MIN).iter().collect::<String>(), "-2147483648");
    assert_eq!(i32_decimal(i32::MAX).iter().collect::<String>(), "2147483647");
}

#[test]
fn bet_totals_convert_with_as() {
    assert_eq!(total_bet_amount(&[10, 250]), vec![10u32, 250]);
    assert_eq!(total_bet_amount(&[-1, 0]), vec![u32::MAX, 0]);
    assert_eq!(total_bet_amount(&[]), Vec::<u32>::new());
}

#[test]
fn replayed_chance_cards() {
    assert!(matches!(replay_chance_card(0, 0), Err(ReplayError::NoCardsAvailable)));
    assert!(matches!(replay_chance_card(0, 7), Err(ReplayError::NoCardsAvailable)));
    // Action 0 takes the lowest possible card.
    assert_eq!(replay_chance_card(0b1011000, 0).ok(), Some(3));
    assert_eq!(replay_chance_card(1u64 << 51, 0).ok(), Some(51));
    // Any other action must be a possible card below 52.
    assert_eq!(replay_chance_card(0b1011000, 4).ok(), Some(4));
    assert!(matches!(replay_chance_card(0b1011000, 5), Err(ReplayError::InvalidCard(5))));
    assert!(matches!(replay_chance_card(u64::MAX, 52), Err(ReplayError::InvalidCard(52))));
}

#[test]
fn short_action_labels() {
    assert_eq!(format_action_string("Fold"), "fold");
    assert_eq!(format_action_string("Check"), "check");
    assert_eq!(format_action_string("Call"), "call");
    assert_eq!(format_action_string("Bet(50)"), "bet50");
    assert_eq!(format_action_string("Raise(120)"), "raise120");
    assert_eq!(format_action_string("AllIn(300)"), "allin300");
    assert_eq!(format_action_string("Bet"), "bet");
    assert_eq!(format_action_string("Raise(7"), "raise");
    assert_eq!(format_action_string("Chance(3)"), "unknown");
    // The first keyword found in this order wins.
    assert_eq!(format_action_string("CallBet(5)"), "call");
}

#[test]
fn path_strings() {
    let s = |v: &[&str]| v.iter().map(|x| x.to_string()).collect::<Vec<String>>();
    assert_eq!(format_path_string(&[], &[], &[]), "F:");
    assert_eq!(format_path_string(&s(&["Check", "Bet50"]), &[], &[]), "F:Check-Bet50");
    assert_eq!(
        format_path_string(&s(&["Check", "Check"]), &s(&["Kd"]), &[]),
        "F:Check-Check, T:Kd"
    );
    assert_eq!(
        format_path_string(&s(&["Bet50", "Call"]), &s(&["Kd", "Check"]), &s(&["2c", "Bet30", "Call"])),
        "F:Bet50-Call, T:Kd-Check, R:2c-Bet30-Call"
    );
}

#[test]
fn split_matches_str_split() {
    for text in ["", "a", "a/b", "/", "a//b/", "Fold:0/Bet:10"] {
        let chars: Vec<char> = text.chars().collect();
        let pieces: Vec<String> = split_chars(&chars, '/').iter().map(|p| string_from_chars(p)).collect();
        let expected: Vec<String> = text.split('/').map(|p| p.to_string()).collect();
        assert_eq!(pieces, expected);
    }
}

#[test]
fn predefined_cards_copy() {
    let p = PredefinedCard { card_index: 7, card_value: 20 };
    let q = p;
    assert_eq!(q.card_index, 7);
    assert_eq!(p.card_value, 20);
}

#[test]
fn range_notation() {
    let hands = vec!["AcAd".to_string(), "KsQs".to_string()];
    let weights = vec!["50.00".to_string(), "25.5".to_string()];
    assert_eq!(range_string(&hands, &weights), "AcAd:50.00,KsQs:25.5");
    assert_eq!(range_string(&[], &[]), "");
}

#[test]
fn result_file_stems() {
    assert_eq!(result_file_stem("F:Bet50-Call, T:Kd"), "F_Bet50_Call__T_Kd");
    assert_eq!(result_file_stem("FLOP_ROOT"), "FLOP_ROOT");
    assert_eq!(result_file_stem(""), "");
}

#[test]
fn streets_of_boards() {
    assert_eq!(street_of_board(3), Street::Flop);
    assert_eq!(street_of_board(4), Street::Turn);
    assert_eq!(street_of_board(5), Street::River);
    assert_eq!(street_of_board(0), Street::Flop);
    assert_eq!(board_street_name(3), "FLOP");
    assert_eq!(board_street_name(4), "TURN");
    assert_eq!(board_street_name(5), "RIVER");
    assert_eq!(board_street_name(2), "UNKNOWN");
}

#[test]
fn dealt_cards_in_the_tree() {
    assert_eq!(dealt_street("turn"), Some(Street::Turn));
    assert_eq!(dealt_street("river"), Some(Street::River));
    assert_eq!(dealt_street("oop"), None);
    assert_eq!(dealt_card_step_string("turn", "Kd"), "Turn:Kd");
    assert_eq!(dealt_card_step_string("river", "2c"), "River:2c");
    assert_eq!(dealt_card_step_string("flop", "Ah"), "flop:Ah");
}

#[test]
fn street_path_records_a_line() {
    let mut line = StreetPath::new();
    assert_eq!(line.path_id(), "F:");
    line.push(Street::Flop, "Bet50".to_string());
    line.push(Street::Flop, "Call".to_string());
    line.push(Street::Turn, "Kd".to_string());
    line.push(Street::Turn, "Check".to_string());
    assert_eq!(line.path_id(), "F:Bet50-Call, T:Kd-Check");
    line.push(Street::River, "2c".to_string());
    assert_eq!(line.path_id(), "F:Bet50-Call, T:Kd-Check, R:2c");
    assert_eq!(line.pop(Street::River), Some("2c".to_string()));
    assert_eq!(line.pop(Street::River), None);
    assert_eq!(line.path_id(), "F:Bet50-Call, T:Kd-Check");
}

#[test]
fn street_pop_undoes_push() {
    let mut line = StreetPath::new();
    line.push(Street::Flop, "Check".to_string());
    line.push(Street::Turn, "Qs".to_string());
    let before = line.path_id();
    line.push(Street::Turn, "Bet30".to_string());
    assert_eq!(line.path_id(), "F:Check, T:Qs-Bet30");
    assert_eq!(line.pop(Street::Turn), Some("Bet30".to_string()));
    assert_eq!(line.path_id(), before);
    assert_eq!(line.flop, vec!["Check".to_string()]);
    assert_eq!(line.turn, vec!["Qs".to_string()]);
    assert!(line.river.is_empty());
}
