use take_it_easy_core::datasets::{
    examples_from_lines, parse_example_line, read_examples, parse_sample_line, qvalue_row_start, qvalues_header, result_record,
    results_csv_header, results_csv_row, results_header, training_header, training_record, BadField, GameResult,
    MoveData, TileData,
};
use take_it_easy_core::recorded::parse_game_move_line;
use take_it_easy_core::stats::{LineCompletions, StrategyStats};

fn recorded_row(game: &str, turn: &str, score: &str, position: &str) -> String {
    let mut f: Vec<String> = vec![game.into(), turn.into(), "Human".into()];
    for k in 0..19 {
        f.push(format!("{}", if k == 4 { 963 } else { 0 }));
    }
    f.extend(["1".into(), "5".into(), "9".into(), position.into(), score.into(), "1".into()]);
    f.join(",")
}

#[test]
fn keeps_samples_of_good_games() {
    let line = recorded_row("g1", "6", "140", "11");
    let s = parse_sample_line(&line, 100).unwrap();
    assert_eq!(s.turn, 6);
    assert_eq!(s.position, 11);
    assert_eq!(s.tile, (1, 5, 9));
    assert_eq!(s.plateau[4], 963);
    assert_eq!(s.plateau[0], 0);
    assert!(parse_sample_line(&line, 141).is_none());
    assert!(parse_sample_line(&recorded_row("g1", "x", "140", "11"), 100).is_none());
    assert!(parse_sample_line(&recorded_row("g1", "6", "", "11"), 0).is_none());
    assert!(parse_sample_line(&recorded_row("g1", "6", "140", "-1"), 0).is_none());
    assert!(parse_sample_line("g1,6,Human", 0).is_none());
}

#[test]
fn arena_results_rows() {
    let header = results_header("gat", "cnn");
    assert_eq!(header, vec!["game_id", "gat_score", "cnn_score", "winner", "seed"]);
    let r = GameResult { game_id: 12, model_a_score: 163, model_b_score: -4, winner: "gat".to_string(), seed: 2025 };
    assert_eq!(result_record(&r), vec!["12", "163", "-4", "gat", "2025"]);
}

fn arena_move() -> MoveData {
    MoveData {
        game_id: 3,
        turn: 17,
        model_name: "gat_v2".to_string(),
        plateau: (0..19).map(|k| if k % 3 == 0 { 0 } else { 100 * (k % 9 + 1) + 51 }).collect(),
        tile: (5, 6, 3),
        position: 8,
        final_score: 171,
        won: true,
    }
}

#[test]
fn training_rows_match_the_recorded_format() {
    let h = training_header();
    assert_eq!(h.len(), 28);
    assert_eq!(h[0], "game_id");
    assert_eq!(h[3], "plateau_0");
    assert_eq!(h[21], "plateau_18");
    assert_eq!(h[22..], ["tile_0", "tile_1", "tile_2", "position", "final_score", "human_won"]);
    let m = arena_move();
    let rec = training_record(&m);
    assert_eq!(rec.len(), 28);
    assert_eq!(rec[..3], ["3", "17", "gat_v2"]);
    assert_eq!(rec[27], "1");
    let lost = MoveData { won: false, ..arena_move() };
    assert_eq!(training_record(&lost)[27], "0");
}

#[test]
fn training_row_reads_back_as_the_same_move() {
    let m = arena_move();
    let line = training_record(&m).join(",");
    let g = parse_game_move_line(&line).unwrap();
    assert_eq!(g.game_id, "3");
    assert_eq!(g.turn, m.turn);
    assert_eq!(g.player_type, m.model_name);
    assert_eq!(g.plateau.to_vec(), m.plateau);
    assert_eq!(g.tile, m.tile);
    assert_eq!(g.position, m.position);
    assert_eq!(g.final_score, m.final_score);
    assert_eq!(g.human_won, m.won);
}

fn strategy(name: &str, scores: &[i32]) -> StrategyStats {
    let mut s = StrategyStats::new(name);
    for &v in scores {
        s.push(v, LineCompletions { v1_cols: 0, v2_diags: 0, v3_diags: 0 });
    }
    s
}

#[test]
fn benchmark_results_file_lines() {
    let strategies = vec![strategy("GT Direct", &[120, 98]), strategy("V1 Beam (w=3, d=2)", &[131, -7])];
    assert_eq!(results_csv_header(&strategies), "game_id,gt_direct,v1_beam_w=3_d=2");
    assert_eq!(results_csv_row("game_a", &strategies, 0), "game_a,120,131");
    assert_eq!(results_csv_row("game_b", &strategies, 1), "game_b,98,-7");
    assert_eq!(results_csv_header(&Vec::new()), "game_id");
}

#[test]
fn qvalue_file_header_and_row_start() {
    let h = qvalues_header();
    assert!(h.starts_with("game_id,turn,plateau_0,plateau_1,"));
    assert!(h.contains(",plateau_18,tile_0,tile_1,tile_2,best_position,final_score,qvalue_0,"));
    assert!(h.ends_with(",qvalue_17,qvalue_18"));
    assert_eq!(h.split(',').count(), 2 + 19 + 5 + 19);
    let board: Vec<i32> = (0..19).map(|k| k - 1).collect();
    let start = qvalue_row_start(7, -2, &board, (1, 2, 3), 14, 155);
    let expected_board: String = board.iter().map(|v| format!("{},", v)).collect();
    assert_eq!(start, format!("7,-2,{}1,2,3,14,155,", expected_board));
}

fn example_line(fields: &[String]) -> String {
    fields.join(",")
}

fn example_fields(game: &str, position: &str, extra: &[&str]) -> Vec<String> {
    let mut f: Vec<String> = vec![game.into(), "4".into()];
    for k in 0..19 {
        f.push(format!("{}", k * 2));
    }
    f.extend(["9".into(), "2".into(), "8".into(), position.into()]);
    f.extend(extra.iter().map(|s| s.to_string()));
    f
}

#[test]
fn reads_q_value_inputs() {
    let line = example_line(&example_fields("11", "6", &["132"]));
    let e = parse_example_line(&line).unwrap().unwrap();
    assert_eq!((e.game_id, e.turn), (11, 4));
    assert_eq!(e.plateau_state, (0..19).map(|k| k * 2).collect::<Vec<i32>>());
    assert_eq!(e.tile, (9, 2, 8));
    assert_eq!(e.position, 6);
    assert_eq!(e.final_score, 132);
    let no_score = example_line(&example_fields("11", "6", &["zz", "x"]));
    assert_eq!(parse_example_line(&no_score).unwrap().unwrap().final_score, 0);
    assert_eq!(parse_example_line("1,2,3").unwrap().is_none(), true);
    assert_eq!(parse_example_line(&example_line(&example_fields("a", "6", &["1"]))).err(), Some(0));
    assert_eq!(parse_example_line(&example_line(&example_fields("1", "-6", &["1"]))).err(), Some(24));
}

#[test]
fn q_value_input_file() {
    let header = "game_id,turn,...".to_string();
    let good = |g: &str| example_line(&example_fields(g, "3", &["100"]));
    let lines = vec![header.clone(), good("1"), "short,row".to_string(), good("2"), good("3")];
    let all = examples_from_lines(&lines, 0).unwrap();
    assert_eq!(all.iter().map(|e| e.game_id).collect::<Vec<i32>>(), vec![1, 2, 3]);
    let two = examples_from_lines(&lines, 2).unwrap();
    assert_eq!(two.iter().map(|e| e.game_id).collect::<Vec<i32>>(), vec![1, 2]);
    let bad = vec![header.clone(), good("1"), example_line(&example_fields("1", "6", &[])).replace(",4,", ",x,")];
    assert_eq!(examples_from_lines(&bad, 0).err(), Some(BadField { line: 2, field: 1 }));
    let stops_before_bad = vec![header.clone(), good("1"), "oops".to_string() + &",x".repeat(30)];
    assert_eq!(examples_from_lines(&stops_before_bad, 1).unwrap().len(), 1);
    assert!(examples_from_lines(&vec![header], 0).unwrap().is_empty());
    assert!(examples_from_lines(&Vec::new(), 5).unwrap().is_empty());
}

#[test]
fn tile_data_copies_the_values() {
    let t = TileData::from_tile((9, 7, 3));
    assert_eq!(t, TileData { value1: 9, value2: 7, value3: 3 });
}

#[test]
fn row_without_final_score_is_refused() {
    let header = "game_id,turn,...".to_string();
    let complete = example_line(&example_fields("1", "3", &["100"]));
    let no_score = example_line(&example_fields("2", "3", &[]));
    assert!(read_examples(&vec![header.clone(), complete.clone(), no_score.clone()], 0).is_none());
    let r = read_examples(&vec![header.clone(), complete.clone(), no_score.clone()], 1).unwrap().unwrap();
    assert_eq!(r.len(), 1);
    let r = read_examples(&vec![header, complete], 0).unwrap().unwrap();
    assert_eq!(r[0].final_score, 100);
}

fn settled_move(turn: usize, model: &str) -> MoveData {
    MoveData {
        game_id: 3,
        turn,
        model_name: model.to_string(),
        plateau: vec![0; 19],
        tile: (1, 2, 3),
        position: turn,
        final_score: 0,
        won: false,
    }
}

#[test]
fn arena_outcome_names_the_winner_and_settles_moves() {
    let (r, moves) = take_it_easy_core::datasets::arena_outcome(3, "cnn", "gnn", 150, 120, 9, vec![settled_move(0, "cnn"), settled_move(1, "cnn")], vec![settled_move(0, "gnn")]);
    assert_eq!((r.game_id, r.model_a_score, r.model_b_score, r.winner.as_str(), r.seed), (3, 150, 120, "cnn", 9));
    assert_eq!(moves.len(), 3);
    assert!(moves[0].won && moves[1].won && !moves[2].won);
    assert_eq!((moves[0].final_score, moves[2].final_score, moves[2].model_name.as_str(), moves[1].turn), (150, 120, "gnn", 1));
    let (r, _) = take_it_easy_core::datasets::arena_outcome(1, "cnn", "gnn", 100, 110, 0, vec![], vec![]);
    assert_eq!(r.winner, "gnn");
    let (r, moves) = take_it_easy_core::datasets::arena_outcome(1, "cnn", "gnn", 100, 100, 0, vec![settled_move(0, "cnn")], vec![settled_move(0, "gnn")]);
    assert_eq!(r.winner, "Tie");
    assert!(!moves[0].won && !moves[1].won);
}
