use take_it_easy_core::game_state::{choose_position, fallback_among, first_available, get_member, pick_position, JsonNode};

#[test]
fn picks_first_position_of_own_board() {
    let doc = r#"{"player_plateaus": {"alice": {"available_positions": [4, 7, 9]}, "bob": {"available_positions": [1]}}}"#;
    assert_eq!(pick_position(doc, "alice"), Ok(4));
    assert_eq!(pick_position(doc, "bob"), Ok(1));
}

#[test]
fn falls_back_to_another_human_board() {
    let doc = r#"{"player_plateaus": {"mcts_ai": {"available_positions": [0]}, "bob": {"available_positions": [12, 13]}}}"#;
    assert_eq!(pick_position(doc, "alice"), Ok(12));
}

#[test]
fn falls_back_when_own_board_is_full() {
    let doc = r#"{"player_plateaus": {"alice": {"available_positions": []}, "mcts_ai": {"available_positions": [3]}, "bob": {"available_positions": [18]}}}"#;
    assert_eq!(pick_position(doc, "alice"), Ok(18));
}

#[test]
fn never_plays_for_the_ai() {
    let doc = r#"{"player_plateaus": {"mcts_ai": {"available_positions": [5]}}}"#;
    assert_eq!(
        pick_position(doc, "alice"),
        Err("No available positions found for player 'alice' in game_state".to_string())
    );
}

#[test]
fn missing_plateaus_is_an_error() {
    assert_eq!(
        pick_position(r#"{"session": 1}"#, "p1"),
        Err("No available positions found for player 'p1' in game_state".to_string())
    );
    assert_eq!(
        pick_position(r#"{"player_plateaus": [1, 2]}"#, "p1"),
        Err("No available positions found for player 'p1' in game_state".to_string())
    );
}

#[test]
fn non_integer_positions_are_skipped() {
    let doc = r#"{"player_plateaus": {"alice": {"available_positions": ["x", 2]}, "bob": {"available_positions": [6]}}}"#;
    assert_eq!(pick_position(doc, "alice"), Ok(6));
}

#[test]
fn text_that_is_not_json_is_an_error() {
    let r = pick_position("not json", "alice");
    assert!(r.is_err());
    assert_ne!(r, Err("No available positions found for player 'alice' in game_state".to_string()));
}

#[test]
fn choose_from_parsed_top_node() {
    let boards = r#"{"mcts_ai": {"available_positions": [2]}, "carol": {"available_positions": []}, "dave": {"available_positions": [11]}}"#;
    let root = || Ok(JsonNode::Object(vec![("player_plateaus".to_string(), boards.to_string())]));
    assert_eq!(choose_position(root(), "carol"), Ok(11));
    assert_eq!(choose_position(root(), "mcts_ai"), Ok(2));
    assert_eq!(choose_position(Err("bad".to_string()), "carol"), Err("bad".to_string()));
    assert_eq!(
        choose_position(Ok(JsonNode::Array(vec!["1".to_string()])), "carol"),
        Err("No available positions found for player 'carol' in game_state".to_string())
    );
}

#[test]
fn members_and_first_entries_are_read_from_their_text() {
    assert_eq!(first_available(r#"{"available_positions": [7, 3]}"#), Some(7));
    assert_eq!(first_available(r#"{"available_positions": [1.5]}"#), None);
    assert_eq!(first_available(r#"{"other": [1]}"#), None);
    assert_eq!(fallback_among(&vec![("mcts_ai".to_string(), r#"{"available_positions": [0]}"#.to_string()), ("x".to_string(), r#"{"available_positions": [4]}"#.to_string())]), Some(4));
    let node = Ok(JsonNode::Object(vec![("k".to_string(), "[1, 2]".to_string())]));
    assert_eq!(get_member(&node, "k"), Some("[1, 2]".to_string()));
    assert_eq!(get_member(&node, "j"), None);
}
