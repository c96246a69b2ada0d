use take_it_easy_core::board::{
    count_line_completions, decode_board, find_line_completing_positions, decode_tile, encoded_tile_value, line_cells, occupied_cells, position_distance_to_center,
    would_block_line, would_complete_line,
};
use take_it_easy_core::grid::{check_straight_line, hex_to_grid_idx, line_in_tensor_grid, pos_to_row, tensor_grid_cell};
use take_it_easy_core::recorded::{parse_game_move_line, split_commas};
use take_it_easy_core::stats::{
    count_wins, median, LineCompletions, NnArchitectureCli, StrategyStats, StressMetrics, TestResults,
};
use take_it_easy_core::text::{i64_text, parse_i32, parse_u16, parse_usize, u64_text};

#[test]
fn distance_to_center() {
    assert_eq!(position_distance_to_center(9), 0);
    assert_eq!(position_distance_to_center(4), 1);
    assert_eq!(position_distance_to_center(14), 1);
    assert_eq!(position_distance_to_center(0), 2);
    assert_eq!(position_distance_to_center(18), 2);
    let ring1: Vec<usize> = (0..19).filter(|&p| position_distance_to_center(p) == 1).collect();
    assert_eq!(ring1, vec![4, 5, 8, 10, 13, 14]);
}

#[test]
fn lines_cover_every_cell_three_times() {
    let mut count = [0usize; 19];
    for l in 0..15 {
        for c in line_cells(l) {
            count[c] += 1;
        }
    }
    assert!(count.iter().all(|&c| c == 3));
}

#[test]
fn completing_a_row() {
    let mut plateau = [0i32; 19];
    plateau[0] = 123; // tile (1, 2, 3)
    plateau[1] = 163; // tile (1, 6, 3)
    // Placing a tile whose first value is 1 at cell 2 completes row 0.
    assert!(would_complete_line(&plateau, 2, (1, 7, 4)));
    // A different first value does not.
    assert!(!would_complete_line(&plateau, 2, (5, 7, 4)));
    // Cell 2 also lies on diagonals that are still open.
    plateau[0] = 0;
    assert!(!would_complete_line(&plateau, 2, (1, 7, 4)));
}

#[test]
fn completing_a_diagonal_uses_the_matching_digit() {
    let mut plateau = [0i32; 19];
    plateau[2] = 928; // (9, 2, 8)
    plateau[6] = 524; // (5, 2, 4): third values 8 and 4 differ, second values agree
    // Line [2, 6, 11] runs along the third value: 8 vs 4, so no.
    assert!(!would_complete_line(&plateau, 11, (1, 2, 8)));
    plateau[6] = 568; // (5, 6, 8)
    assert!(would_complete_line(&plateau, 11, (1, 2, 8)));
}

#[test]
fn position_off_the_board_completes_nothing() {
    let plateau = [111i32; 19];
    assert!(!would_complete_line(&plateau, 19, (1, 1, 1)));
    assert!(would_complete_line(&plateau, 9, (1, 1, 1)));
}

#[test]
fn blocking_a_clean_line() {
    let mut plateau = [0i32; 19];
    plateau[0] = 123;
    plateau[1] = 163;
    assert!(would_block_line(&plateau, 2, (5, 7, 4)));
    assert!(!would_block_line(&plateau, 2, (1, 7, 4)));
    assert!(!would_block_line(&plateau, 2, (0, 7, 4)));
    assert!(would_block_line(&[975i32; 19], 9, (1, 2, 3)));
    assert!(!would_block_line(&[975i32; 19], 9, (9, 7, 5)));
    let mut mixed = [0i32; 19];
    mixed[0] = 123;
    mixed[1] = 264;
    assert!(!would_block_line(&mixed, 2, (5, 7, 4)));
    assert!(!would_block_line(&[0i32; 19], 9, (5, 7, 4)));
    let mut row = [0i32; 19];
    row[0] = 123;
    row[1] = 164;
    assert!(would_block_line(&row, 2, (5, 2, 8)));
}

#[test]
fn decoding_tiles() {
    assert_eq!(decode_tile(0), (0, 0, 0));
    assert_eq!(decode_tile(974), (9, 7, 4));
    assert_eq!(decode_tile(128), (1, 2, 8));
    assert_eq!(decode_tile(-123), (-1, -2, -3));
    assert_eq!(encoded_tile_value(563, 1), 6);
    let mut plateau = [0i32; 19];
    plateau[3] = 528;
    plateau[4] = -5;
    let tiles = decode_board(&plateau);
    assert_eq!(tiles[3], (5, 2, 8));
    assert_eq!(tiles[4], (0, 0, 0));
    assert_eq!(tiles[0], (0, 0, 0));
    let occupied = occupied_cells(&plateau);
    assert_eq!(occupied.iter().filter(|&&b| b).count(), 2);
    assert!(occupied[4]);
}

#[test]
fn grid_layouts() {
    assert_eq!(tensor_grid_cell(0), (1, 0));
    assert_eq!(tensor_grid_cell(7), (0, 2));
    assert_eq!(hex_to_grid_idx(0), 5);
    assert_eq!(hex_to_grid_idx(3), 1);
    assert_eq!(hex_to_grid_idx(18), 19);
    assert_eq!(pos_to_row(0), 0);
    assert_eq!(pos_to_row(6), 1);
    assert_eq!(pos_to_row(11), 2);
    assert_eq!(pos_to_row(12), 3);
    assert_eq!(pos_to_row(18), 4);
}

#[test]
fn straight_runs() {
    assert!(check_straight_line(&[]));
    assert!(check_straight_line(&[(3, 3)]));
    assert!(check_straight_line(&[(2, 4), (2, 2), (2, 3)]));
    assert!(!check_straight_line(&[(2, 1), (2, 3)]));
    assert!(!check_straight_line(&[(2, 1), (2, 1)]));
    assert!(check_straight_line(&[(3, 0), (1, 0), (2, 0)]));
    assert!(check_straight_line(&[(0, 0), (1, 1), (2, 2)]));
    assert!(check_straight_line(&[(2, 0), (1, 1), (0, 2)]));
    assert!(!check_straight_line(&[(0, 0), (1, 1), (2, 3)]));
    assert!(!check_straight_line(&[(0, 0), (1, 1), (1, 2)]));
}

#[test]
fn first_direction_lines_are_straight_in_the_tensor_grid() {
    for l in 0..5 {
        assert!(check_straight_line(&line_in_tensor_grid(l)), "line {}", l);
    }
    // Dir2-Diag0 = [0, 3, 7] maps to (1,0), (1,1), (0,2): broken.
    assert_eq!(line_in_tensor_grid(5), vec![(1, 0), (1, 1), (0, 2)]);
    assert!(!check_straight_line(&line_in_tensor_grid(5)));
    let straight = (0..15).filter(|&l| check_straight_line(&line_in_tensor_grid(l))).count();
    assert!(straight >= 5);
}

#[test]
fn medians_and_wins() {
    assert_eq!(median(&[]), 0);
    assert_eq!(median(&[5]), 5);
    assert_eq!(median(&[3, 1, 2]), 2);
    assert_eq!(median(&[4, 1, 3, 2]), 3);
    assert_eq!(median(&[-5, 10, 10, 0]), 10);
    assert_eq!(count_wins(&[10, 5, 7], &[9, 5, 8]), 1);
    assert_eq!(count_wins(&[10, 5, 7, 100], &[9, 1]), 2);
    assert_eq!(count_wins(&[], &[1]), 0);
}

#[test]
fn tallies() {
    let c = LineCompletions { v1_cols: 2, v2_diags: 1, v3_diags: 3 };
    assert_eq!(c.total(), 6);
    let mut s = StrategyStats::new("greedy");
    s.push(120, LineCompletions::default());
    s.push(95, c);
    assert_eq!(s.name, "greedy");
    assert_eq!(s.scores, vec![120, 95]);
    assert_eq!(s.completions.len(), 2);
    assert_eq!(NnArchitectureCli::Cnn.label(), "cnn");
    assert_eq!(NnArchitectureCli::Gnn.label(), "gnn");
}

#[test]
fn test_results_bookkeeping() {
    let mut r = TestResults::new();
    assert!(r.all_passed());
    r.pass("connect");
    assert!(r.all_passed());
    r.fail("join", "timeout");
    assert!(!r.all_passed());
    assert_eq!(r.passed, vec!["connect".to_string()]);
    assert_eq!(r.failed, vec![("join".to_string(), "timeout".to_string())]);
}

#[test]
fn stress_metrics() {
    let mut m = StressMetrics::new();
    assert_eq!(m.average_ms(), 0);
    m.record_success(30);
    m.record_success(10);
    m.record_failure();
    assert_eq!((m.completed, m.failed), (2, 1));
    assert_eq!((m.min_time_ms, m.max_time_ms), (10, 30));
    assert_eq!(m.average_ms(), 20);
    let mut w = StressMetrics::new();
    w.total_time_ms = u64::MAX;
    w.record_success(2);
    assert_eq!(w.total_time_ms, 1);
}

#[test]
fn csv_rows() {
    assert_eq!(split_commas(""), vec![""]);
    assert_eq!(split_commas("a,,b,"), vec!["a", "", "b", ""]);
    let mut fields = vec!["game-1".to_string(), "4".to_string(), "Human".to_string()];
    for k in 0..19 {
        fields.push(if k == 9 { "974".to_string() } else { "0".to_string() });
    }
    fields.extend(["5", "6", "3", "12", "-7", "1"].iter().map(|s| s.to_string()));
    let line = fields.join(",");
    let m = parse_game_move_line(&line).unwrap();
    assert_eq!(m.game_id, "game-1");
    assert_eq!(m.turn, 4);
    assert_eq!(m.player_type, "Human");
    assert_eq!(m.plateau[9], 974);
    assert_eq!(m.plateau[0], 0);
    assert_eq!(m.tile, (5, 6, 3));
    assert_eq!(m.position, 12);
    assert_eq!(m.final_score, -7);
    assert!(m.human_won);
    let bad = line.replace(",12,", ",x,");
    assert_eq!(parse_game_move_line(&bad).unwrap().position, 0);
    assert!(parse_game_move_line("a,b,c").is_none());
}

#[test]
fn integer_text() {
    assert_eq!(parse_u16("587"), Some(587));
    assert_eq!(parse_u16("+80"), Some(80));
    assert_eq!(parse_u16("65535"), Some(65535));
    assert_eq!(parse_u16("65536"), None);
    assert_eq!(parse_u16("-1"), None);
    assert_eq!(parse_u16("+"), None);
    assert_eq!(parse_u16(""), None);
    assert_eq!(parse_u16(" 1"), None);
    assert_eq!(parse_i32("-2147483648"), Some(i32::MIN));
    assert_eq!(parse_i32("2147483647"), Some(i32::MAX));
    assert_eq!(parse_i32("2147483648"), None);
    assert_eq!(parse_i32("-"), None);
    assert_eq!(parse_i32("007"), Some(7));
    assert_eq!(parse_usize("18446744073709551615"), Some(usize::MAX));
    for s in ["0", "42", "-17", "1a", "99999999999", "+5", "-0"] {
        assert_eq!(parse_i32(s), s.parse::<i32>().ok(), "{}", s);
        assert_eq!(parse_u16(s), s.parse::<u16>().ok(), "{}", s);
    }
    assert_eq!(u64_text(0), "0");
    assert_eq!(u64_text(u64::MAX), u64::MAX.to_string());
    assert_eq!(i64_text(-1), "-1");
    assert_eq!(i64_text(i64::MIN), i64::MIN.to_string());
}

#[test]
fn counts_complete_lines_per_direction() {
    let mut tiles = [(0, 0, 0); 19];
    tiles[0] = (5, 2, 3);
    tiles[1] = (5, 6, 7);
    tiles[2] = (5, 1, 8);
    tiles[3] = (1, 2, 4);
    tiles[7] = (9, 2, 3);
    let lc = count_line_completions(&tiles);
    assert_eq!((lc.v1_cols, lc.v2_diags, lc.v3_diags), (1, 1, 0));
    assert_eq!(lc.total(), 2);
    let empty = count_line_completions(&[(0, 0, 0); 19]);
    assert_eq!((empty.v1_cols, empty.v2_diags, empty.v3_diags), (0, 0, 0));
}

#[test]
fn full_board_of_one_tile_completes_every_line() {
    let lc = count_line_completions(&[(9, 7, 8); 19]);
    assert_eq!((lc.v1_cols, lc.v2_diags, lc.v3_diags), (5, 5, 5));
    let broken = {
        let mut t = [(9, 7, 8); 19];
        t[9] = (1, 7, 3);
        t
    };
    let lc = count_line_completions(&broken);
    assert_eq!((lc.v1_cols, lc.v2_diags, lc.v3_diags), (4, 5, 4));
}

#[test]
fn finds_each_completing_cell_once_in_line_order() {
    let mut tiles = [(0, 0, 0); 19];
    tiles[0] = (5, 2, 3);
    tiles[1] = (5, 6, 7);
    tiles[3] = (1, 2, 4);
    tiles[6] = (4, 4, 3);
    tiles[11] = (8, 8, 3);
    assert_eq!(find_line_completing_positions(&tiles, (5, 2, 3)), vec![2, 7]);
    assert_eq!(find_line_completing_positions(&tiles, (5, 9, 9)), vec![2]);
    assert_eq!(find_line_completing_positions(&tiles, (1, 9, 3)), vec![2]);
    assert_eq!(find_line_completing_positions(&tiles, (0, 0, 0)), Vec::<usize>::new());
    assert_eq!(find_line_completing_positions(&[(0, 0, 0); 19], (5, 2, 3)), Vec::<usize>::new());
}
