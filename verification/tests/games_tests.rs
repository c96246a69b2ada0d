use take_it_easy_core::games::{parse_csv_move_line, recorded_games, CsvMove};

fn row(game: &str, turn: usize, player: &str, tile: (i32, i32, i32), score: i32, won: bool) -> CsvMove {
    CsvMove {
        game_id: game.to_string(),
        turn,
        player_type: player.to_string(),
        tile,
        position: turn % 19,
        final_score: score,
        human_won: won,
    }
}

fn csv_line(fields: &[&str]) -> String {
    fields.join(",")
}

#[test]
fn parses_a_recorded_row() {
    let mut f: Vec<String> = vec!["g7".into(), "3".into(), "Human".into()];
    for k in 0..19 {
        f.push(format!("{}", k * 10));
    }
    f.extend(["9".into(), "6".into(), "2".into(), "14".into(), "151".into(), "1".into()]);
    let line = f.join(",");
    let m = parse_csv_move_line(&line).unwrap();
    assert_eq!(m.game_id, "g7");
    assert_eq!(m.turn, 3);
    assert_eq!(m.player_type, "Human");
    assert_eq!(m.tile, (9, 6, 2));
    assert_eq!(m.position, 14);
    assert_eq!(m.final_score, 151);
    assert!(m.human_won);
}

#[test]
fn short_rows_and_bad_numbers() {
    assert!(parse_csv_move_line("g1,2,Human").is_none());
    let mut f: Vec<&str> = vec!["g1", "x", "AI"];
    f.extend(std::iter::repeat("0").take(19));
    f.extend(["a", "5", "-3", "", "77", "0"]);
    let m = parse_csv_move_line(&csv_line(&f)).unwrap();
    assert_eq!(m.turn, 0);
    assert_eq!(m.tile, (0, 5, -3));
    assert_eq!(m.position, 0);
    assert_eq!(m.final_score, 77);
    assert!(!m.human_won);
}

#[test]
fn groups_rows_into_sorted_complete_games() {
    let mut rows = Vec::new();
    // game "g2": 19 human rows listed in reverse turn order, two AI rows
    for t in (0..19).rev() {
        rows.push(row("g2", t, "Human", (t as i32, 0, 0), 120, true));
    }
    rows.push(row("g2", 4, "Zeta", (0, 0, 0), 90, false));
    rows.push(row("g2", 4, "Alpha", (0, 0, 0), 95, false));
    rows.push(row("g2", 7, "Alpha", (0, 0, 0), 80, false));
    // game "g1": only 18 human rows
    for t in 0..18 {
        rows.push(row("g1", t, "Human", (1, 1, 1), 50, false));
    }
    // game "g0": 19 human rows, no AI
    for t in 0..19 {
        rows.push(row("g0", t, "Human", (2, 2, 2), 70, false));
    }
    let games = recorded_games(&rows);
    assert_eq!(games.len(), 2);
    assert_eq!(games[0].game_id, "g0");
    assert_eq!(games[0].ai_score, 0);
    assert_eq!(games[0].human_score, 70);
    assert!(!games[0].human_won);
    assert_eq!(games[1].game_id, "g2");
    let expected: Vec<(i32, i32, i32)> = (0..19).map(|t| (t, 0, 0)).collect();
    assert_eq!(games[1].tile_sequence, expected);
    assert_eq!(games[1].human_score, 120);
    assert_eq!(games[1].ai_score, 95);
    assert!(games[1].human_won);
}

#[test]
fn no_rows_no_games() {
    assert!(recorded_games(&Vec::new()).is_empty());
}
