use take_it_easy_core::real_game::{draw_tiles, real_journey_start, real_journey_step, RealAction, RealEvent, RealStage};
use take_it_easy_core::solo_game::{solo_game_start, solo_game_step, GameAction, GameEvent, GameStage};

const TILES: [&str; 27] = [
    "123", "124", "128", "163", "164", "168", "173", "174", "178", "523", "524", "528", "563", "564", "568", "573",
    "574", "578", "923", "924", "928", "963", "964", "968", "973", "974", "978",
];

fn doc(pos: i64) -> String {
    format!("{{\"player_plateaus\": {{\"me\": {{\"available_positions\": [{}]}}}}}}", pos)
}

#[test]
fn solo_game_plays_nineteen_turns_and_sums_points() {
    let (g, a) = solo_game_start();
    assert!(matches!(a, GameAction::CreateSession { ref player_name, max_players: 2, ref game_mode }
        if player_name == "e2e-solo" && game_mode == "single-player"));
    let (g, a) = solo_game_step(g, GameEvent::Created { session_id: "s".into(), player_id: "me".into() });
    assert!(matches!(a, GameAction::SetReady));
    let (g, a) = solo_game_step(g, GameEvent::Answered);
    assert!(matches!(a, GameAction::GetSessionState));
    let (mut g, mut a) = solo_game_step(g, GameEvent::Answered);
    let mut played = Vec::new();
    loop {
        let ev = match a {
            GameAction::StartTurn => GameEvent::TurnStarted { success: true, error: None, game_state: doc(18 - g.turn as i64) },
            GameAction::GetGameState => GameEvent::Answered,
            GameAction::GetAvailableMoves => GameEvent::Answered,
            GameAction::MakeMove { position } => {
                played.push(position);
                GameEvent::MoveAccepted { points_earned: 3, game_over: false, players: None }
            }
            GameAction::Done(_) => break,
            _ => panic!("unexpected action"),
        };
        let next = solo_game_step(g, ev);
        g = next.0;
        a = next.1;
    }
    assert_eq!(played, (0..19).rev().collect::<Vec<i64>>());
    assert!(matches!(a, GameAction::Done(Ok(57))));
    assert_eq!(g.stage, GameStage::Done);
}

#[test]
fn solo_game_takes_the_final_score_at_game_over() {
    let (g, _) = solo_game_start();
    let (g, _) = solo_game_step(g, GameEvent::Created { session_id: "s".into(), player_id: "me".into() });
    let (g, _) = solo_game_step(g, GameEvent::Answered);
    let (g, _) = solo_game_step(g, GameEvent::Answered);
    let (g, _) = solo_game_step(g, GameEvent::TurnStarted { success: true, error: None, game_state: doc(4) });
    let (g, _) = solo_game_step(g, GameEvent::Answered);
    let (g, a) = solo_game_step(g, GameEvent::Answered);
    assert!(matches!(a, GameAction::MakeMove { position: 4 }));
    let players = vec![("other".to_string(), 10), ("me".to_string(), 140)];
    let (g, a) = solo_game_step(g, GameEvent::MoveAccepted { points_earned: 5, game_over: true, players: Some(players) });
    assert!(matches!(a, GameAction::GetGameState));
    assert_eq!(g.score, 140);
    let (_, a) = solo_game_step(g, GameEvent::Answered);
    assert!(matches!(a, GameAction::Done(Ok(140))));
}

#[test]
fn solo_game_errors_carry_their_messages() {
    let (g, _) = solo_game_start();
    let (_, a) = solo_game_step(g, GameEvent::Refused { code: "E1".into(), message: "full".into() });
    assert!(matches!(a, GameAction::Done(Err(ref m)) if m == "CreateSession error: E1 - full"));
    let (g, _) = solo_game_start();
    let (_, a) = solo_game_step(g, GameEvent::Empty);
    assert!(matches!(a, GameAction::Done(Err(ref m)) if m == "CreateSession: empty response"));
    let (g, _) = solo_game_start();
    let (g, _) = solo_game_step(g, GameEvent::Created { session_id: "s".into(), player_id: "me".into() });
    let (_, a) = solo_game_step(g, GameEvent::CallFailed("transport down".into()));
    assert!(matches!(a, GameAction::Done(Err(ref m)) if m == "transport down"));

    let (g, _) = solo_game_start();
    let (g, _) = solo_game_step(g, GameEvent::Created { session_id: "s".into(), player_id: "me".into() });
    let (g, _) = solo_game_step(g, GameEvent::Answered);
    let (g, _) = solo_game_step(g, GameEvent::Answered);
    let (_, a) = solo_game_step(g, GameEvent::TurnStarted {
        success: false,
        error: Some(("NOT_READY".into(), "wait".into())),
        game_state: String::new(),
    });
    assert!(matches!(a, GameAction::Done(Err(ref m)) if m == "StartTurn failed at turn 0: NOT_READY: wait"));

    let (g, _) = solo_game_start();
    let (g, _) = solo_game_step(g, GameEvent::Created { session_id: "s".into(), player_id: "me".into() });
    let (g, _) = solo_game_step(g, GameEvent::Answered);
    let (g, _) = solo_game_step(g, GameEvent::Answered);
    let (g, _) = solo_game_step(g, GameEvent::TurnStarted { success: true, error: None, game_state: doc(2) });
    let (g, _) = solo_game_step(g, GameEvent::Answered);
    let (g, _) = solo_game_step(g, GameEvent::Answered);
    let (_, a) = solo_game_step(g, GameEvent::Refused { code: "BAD".into(), message: "taken".into() });
    assert!(matches!(a, GameAction::Done(Err(ref m)) if m == "MakeMove error at turn 0: BAD - taken"));
}

#[test]
fn a_draw_is_nineteen_distinct_tiles() {
    let t = draw_tiles().expect("random source");
    assert_eq!(t.len(), 19);
    let mut seen = std::collections::HashSet::new();
    for code in &t {
        assert!(TILES.contains(&code.to_string().as_str()));
        assert!(seen.insert(*code));
    }
}

#[test]
fn real_game_fills_the_board_where_the_ai_says() {
    let s = real_journey_start(1);
    let (mut s, mut a) = real_journey_step(s, RealEvent::Connected);
    let mut turns = 0;
    let mut codes = Vec::new();
    while let RealAction::GetAiMove { ref tile_code, ref board_state, ref available_positions, turn_number } = a {
        assert_eq!(turn_number, turns);
        assert_eq!(board_state.len(), 19);
        assert_eq!(available_positions.len() as i32, 19 - turns);
        assert_eq!(board_state.iter().filter(|c| c.is_empty()).count() as i32, 19 - turns);
        codes.push(tile_code.clone());
        let last = *available_positions.last().unwrap();
        let next = real_journey_step(s, RealEvent::AiMove { success: true, recommended_position: last, error: None });
        s = next.0;
        a = next.1;
        turns += 1;
    }
    assert_eq!(turns, 19);
    assert_eq!(s.stage, RealStage::Finished);
    assert!(s.results.failed.is_empty());
    assert_eq!(s.results.passed, vec!["GetAiMove (first tile)".to_string(), "Game 1 complete (19/19 tiles)".to_string()]);
    codes.sort();
    codes.dedup();
    assert_eq!(codes.len(), 19);
}

#[test]
fn real_game_refuses_a_taken_cell() {
    let (s, a) = real_journey_step(real_journey_start(2), RealEvent::Connected);
    assert!(matches!(a, RealAction::GetAiMove { .. }));
    let (s, a) = real_journey_step(s, RealEvent::AiMove { success: true, recommended_position: 1, error: None });
    match &a {
        RealAction::GetAiMove { board_state, available_positions, .. } => {
            assert!(!board_state[1].is_empty());
            assert_eq!(available_positions.len(), 18);
            assert!(!available_positions.contains(&1));
        }
        _ => panic!("expected a second move"),
    }
    let (s, a) = real_journey_step(s, RealEvent::AiMove { success: true, recommended_position: 1, error: None });
    assert_eq!(s.game_num, 1);
    assert!(matches!(a, RealAction::GetAiMove { turn_number: 0, .. }));
    let free: Vec<String> = (0..19).filter(|i| *i != 1).map(|i| i.to_string()).collect();
    assert_eq!(
        s.results.failed,
        vec![("GetAiMove (game 1 turn 1)".to_string(), format!("pos 1 not in available [{}]", free.join(", ")))]
    );
    assert_eq!(s.results.passed, vec!["GetAiMove (first tile)".to_string()]);
    let (s, a) = real_journey_step(s, RealEvent::AiMove { success: false, recommended_position: 0, error: Some("model".into()) });
    assert!(matches!(a, RealAction::Finish));
    assert_eq!(s.results.failed.last().unwrap(), &("GetAiMove (game 2 turn 0)".to_string(), "model".to_string()));
    let (s, a) = real_journey_step(real_journey_start(1), RealEvent::ConnectFailed("refused".into()));
    assert!(matches!(a, RealAction::Finish));
    assert_eq!(s.results.failed, vec![("connect".to_string(), "refused".to_string())]);
}

use take_it_easy_core::oauth::{github_account, needs_email_list, GithubEmail};
use take_it_easy_core::stats::StressMetrics;

fn mail(e: &str, primary: bool, verified: bool) -> GithubEmail {
    GithubEmail { email: e.to_string(), primary, verified }
}

#[test]
fn github_account_prefers_the_profile_email() {
    assert!(!needs_email_list(&Some("me@x.io".to_string())));
    assert!(needs_email_list(&None));
    let u = github_account(42, "octo".into(), Some("me@x.io".into()), &vec![mail("other@x.io", true, true)]).unwrap();
    assert_eq!((u.provider_user_id.as_str(), u.username.as_str(), u.email.as_str()), ("42", "octo", "me@x.io"));
    let list = vec![mail("a@x.io", true, false), mail("b@x.io", false, true), mail("c@x.io", true, true), mail("d@x.io", true, true)];
    assert_eq!(github_account(-7, "octo".into(), None, &list).unwrap().email, "c@x.io");
    assert_eq!(github_account(-7, "octo".into(), None, &list).unwrap().provider_user_id, "-7");
    assert_eq!(
        github_account(1, "octo".into(), None, &vec![mail("a@x.io", true, false)]).unwrap_err(),
        "No verified primary email found"
    );
}

#[test]
fn metrics_after_a_run_hold_counts_sum_min_and_max() {
    let mut m = StressMetrics::new();
    for e in [30u64, 10, 50] {
        m.record_success(e);
    }
    m.record_failure();
    m.record_failure();
    assert_eq!((m.completed, m.failed, m.total_time_ms, m.min_time_ms, m.max_time_ms), (3, 2, 90, 10, 50));
    let mut w = StressMetrics::new();
    w.record_success(u64::MAX);
    w.record_success(2);
    assert_eq!(w.total_time_ms, 1);
}
