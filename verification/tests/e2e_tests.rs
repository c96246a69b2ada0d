use take_it_easy_core::e2e::{solo_start, solo_step, SoloAction, SoloEvent, SoloJourney, SoloStage};

fn state_doc(pos: i64) -> String {
    format!("{{\"player_plateaus\": {{\"p1\": {{\"available_positions\": [{}, 18]}}}}}}", pos)
}

fn step(s: SoloJourney, ev: SoloEvent) -> (SoloJourney, SoloAction) {
    solo_step(s, ev)
}

#[test]
fn full_solo_journey_passes_every_check() {
    let (s, a) = step(solo_start(), SoloEvent::Connected);
    assert!(matches!(a, SoloAction::CreateSession { ref player_name } if player_name == "e2e-solo"));
    let (s, a) = step(s, SoloEvent::Created { session_id: "s1".into(), player_id: "p1".into() });
    assert!(matches!(a, SoloAction::GetSessionState));
    let (s, a) = step(s, SoloEvent::SessionState { has_game_state: true, error: None });
    assert!(matches!(a, SoloAction::SetReady));
    let (s, a) = step(s, SoloEvent::Ready { success: true, game_started: true });
    assert!(matches!(a, SoloAction::GetSessionState));
    let (mut s, mut a) = step(s, SoloEvent::SessionState { has_game_state: false, error: None });
    let mut moves = Vec::new();
    let mut guard = 0;
    while !matches!(a, SoloAction::CreateSession { .. }) {
        guard += 1;
        assert!(guard < 200);
        let ev = match a {
            SoloAction::StartTurn => {
                SoloEvent::TurnStarted { success: true, error_message: None, game_state: state_doc(s.turn as i64) }
            }
            SoloAction::GetGameState => SoloEvent::GameState { success: true, finished: s.stage == SoloStage::ReadingFinalState },
            SoloAction::GetAvailableMoves => SoloEvent::Moves { error: None },
            SoloAction::MakeMove { position } => {
                moves.push(position);
                SoloEvent::MoveAccepted { game_over: false }
            }
            _ => panic!("unexpected action"),
        };
        let next = step(s, ev);
        s = next.0;
        a = next.1;
    }
    assert_eq!(moves, (0..19).collect::<Vec<i64>>());
    assert_eq!(s.turns_played, 19);
    let (s, a) = step(s, SoloEvent::Created { session_id: "s2".into(), player_id: "p2".into() });
    assert!(matches!(a, SoloAction::Finish));
    assert!(s.results.all_passed());
    assert!(s.results.passed.iter().any(|n| n == "Game loop (19 turns played)"));
    assert!(s.results.passed.iter().any(|n| n == "GetGameState (game over verification)"));
}

#[test]
fn refused_session_ends_the_journey() {
    let (s, _) = step(solo_start(), SoloEvent::Connected);
    let (s, a) = step(s, SoloEvent::Refused { code: "INVALID".into(), message: "no room".into() });
    assert!(matches!(a, SoloAction::Finish));
    assert_eq!(s.results.failed, vec![("CreateSession".to_string(), "INVALID: no room".to_string())]);
    let (s, a) = step(solo_start(), SoloEvent::CallFailed("refused".into()));
    assert!(matches!(a, SoloAction::Finish));
    assert_eq!(s.results.failed, vec![("connect".to_string(), "refused".to_string())]);
}

#[test]
fn game_over_and_refused_moves_leave_the_loop() {
    let (s, _) = step(solo_start(), SoloEvent::Connected);
    let (s, _) = step(s, SoloEvent::Created { session_id: "s".into(), player_id: "p1".into() });
    let (s, _) = step(s, SoloEvent::SessionState { has_game_state: true, error: None });
    let (s, _) = step(s, SoloEvent::Ready { success: false, game_started: false });
    let (s, a) = step(s, SoloEvent::CallFailed("timeout".into()));
    assert!(matches!(a, SoloAction::StartTurn));
    let (s, a) = step(s, SoloEvent::TurnStarted { success: true, error_message: None, game_state: state_doc(7) });
    assert!(matches!(a, SoloAction::GetGameState));
    let (s, a) = step(s, SoloEvent::GameState { success: true, finished: false });
    assert!(matches!(a, SoloAction::GetAvailableMoves));
    let (s, a) = step(s, SoloEvent::Moves { error: None });
    assert!(matches!(a, SoloAction::MakeMove { position: 7 }));
    let (s, a) = step(s, SoloEvent::Refused { code: "BAD".into(), message: "occupied".into() });
    assert!(matches!(a, SoloAction::GetGameState));
    assert_eq!(s.results.failed.last().unwrap(), &("MakeMove (turn 0)".to_string(), "BAD: occupied".to_string()));
    assert!(s.results.failed.iter().any(|f| f.0 == "SetReady"));
    assert!(s.results.failed.iter().any(|f| f.0 == "GetSessionState (post-ready)"));
    let (s, a) = step(s, SoloEvent::GameState { success: true, finished: false });
    assert!(matches!(a, SoloAction::CreateSession { .. }));
    assert_eq!(s.results.failed.last().unwrap().1, "is_game_finished=false");
}

#[test]
fn finished_game_stops_turns_without_failure() {
    let (s, _) = step(solo_start(), SoloEvent::Connected);
    let (s, _) = step(s, SoloEvent::Created { session_id: "s".into(), player_id: "p1".into() });
    let (s, _) = step(s, SoloEvent::SessionState { has_game_state: true, error: None });
    let (s, _) = step(s, SoloEvent::Ready { success: true, game_started: false });
    let (s, _) = step(s, SoloEvent::SessionState { has_game_state: true, error: None });
    let failed_before = s.results.failed.len();
    let (s, a) = step(s, SoloEvent::TurnStarted { success: false, error_message: Some("game is over".into()), game_state: String::new() });
    assert!(matches!(a, SoloAction::GetGameState));
    assert!(s.game_finished);
    assert_eq!(s.results.failed.len(), failed_before);
    let (s, _) = step(s, SoloEvent::GameState { success: true, finished: false });
    assert_eq!(s.results.failed.len(), failed_before);
}

use take_it_easy_core::e2e::{judge_probe, multi_start, multi_step, ErrorProbe, MultiAction, MultiEvent, MultiStage, ProbeReply};
use take_it_easy_core::stats::TestResults;

fn two_player_doc(a: i64, b: i64) -> String {
    format!(
        "{{\"player_plateaus\": {{\"a\": {{\"available_positions\": [{}, 18]}}, \"b\": {{\"available_positions\": [{}]}}}}}}",
        a, b
    )
}

#[test]
fn probes_record_the_reply_they_got() {
    let mut r = TestResults::new();
    judge_probe(&mut r, ErrorProbe::JoinInvalidCode, ProbeReply::Refused);
    judge_probe(&mut r, ErrorProbe::JoinInvalidCode, ProbeReply::Accepted);
    judge_probe(&mut r, ErrorProbe::SessionStateInvalid, ProbeReply::Status { success: true, has_error: false });
    judge_probe(&mut r, ErrorProbe::StartTurnInvalid, ProbeReply::Status { success: false, has_error: false });
    judge_probe(&mut r, ErrorProbe::GameStateInvalid, ProbeReply::CallFailed);
    judge_probe(&mut r, ErrorProbe::MakeMoveInvalid, ProbeReply::Empty);
    judge_probe(&mut r, ErrorProbe::MakeMoveWrongPlayer, ProbeReply::Accepted);
    judge_probe(&mut r, ErrorProbe::SetReadyInvalid, ProbeReply::Status { success: true, has_error: false });
    assert_eq!(
        r.passed,
        vec![
            "JoinSession (invalid code \u{2192} error)".to_string(),
            "StartTurn (invalid session \u{2192} error)".to_string(),
            "GetGameState (invalid session \u{2192} gRPC error)".to_string(),
            "MakeMove (invalid session \u{2192} empty = OK)".to_string(),
            "MakeMove (wrong player_id \u{2192} accepted)".to_string(),
        ]
    );
    assert_eq!(
        r.failed,
        vec![
            ("JoinSession (invalid code)".to_string(), "should have failed but succeeded".to_string()),
            ("GetSessionState (invalid session)".to_string(), "returned game_state for nonexistent session".to_string()),
            ("SetReady (invalid session)".to_string(), "should have failed".to_string()),
        ]
    );
}

#[test]
fn two_player_game_runs_to_completion() {
    let (s, a) = multi_step(multi_start(1), MultiEvent::Connected);
    assert!(matches!(a, MultiAction::CreateSession { ref player_name } if player_name == "e2e-p1-g1"));
    let (s, a) = multi_step(s, MultiEvent::Created { session_id: "s".into(), session_code: "ABC".into(), player_id: "a".into() });
    assert!(matches!(a, MultiAction::GetSessionState));
    let (s, a) = multi_step(s, MultiEvent::SessionState { players: Some(1) });
    assert!(matches!(a, MultiAction::JoinSession { ref session_code, ref player_name } if session_code == "ABC" && player_name == "e2e-p2-g1"));
    let (s, _) = multi_step(s, MultiEvent::Joined { player_id: "b".into() });
    let (s, a) = multi_step(s, MultiEvent::SessionState { players: Some(2) });
    assert!(matches!(a, MultiAction::SetReady { second_player: false }));
    let (s, a) = multi_step(s, MultiEvent::Answered);
    assert!(matches!(a, MultiAction::SetReady { second_player: true }));
    let (mut s, mut a) = multi_step(s, MultiEvent::Answered);
    let mut turns = 0;
    while matches!(a, MultiAction::StartTurn) {
        let (t, b) = multi_step(s, MultiEvent::TurnStarted { success: true, error_message: None, game_state: two_player_doc(turns, 18 - turns) });
        assert!(matches!(b, MultiAction::MakeMoves { position_1, position_2 } if position_1 == turns && position_2 == 18 - turns));
        let next = multi_step(t, MultiEvent::MovesPlayed { first: Some(false), second: Some(turns == 4) });
        s = next.0;
        a = next.1;
        turns += 1;
    }
    assert_eq!(turns, 5);
    assert!(matches!(a, MultiAction::GetGameState));
    let (s, a) = multi_step(s, MultiEvent::Answered);
    assert!(matches!(a, MultiAction::Finish));
    assert_eq!(s.stage, MultiStage::Finished);
    assert!(s.results.failed.is_empty());
    assert_eq!(s.results.passed.last().unwrap(), "Game 1 complete (5 turns)");
}

#[test]
fn refused_join_moves_on_to_the_next_game() {
    let (s, _) = multi_step(multi_start(2), MultiEvent::Connected);
    let (s, _) = multi_step(s, MultiEvent::Created { session_id: "s".into(), session_code: "C".into(), player_id: "a".into() });
    let (s, _) = multi_step(s, MultiEvent::SessionState { players: None });
    let (s, a) = multi_step(s, MultiEvent::Refused { code: "FULL".into(), message: "no seat".into() });
    assert!(matches!(a, MultiAction::CreateSession { ref player_name } if player_name == "e2e-p1-g2"));
    assert_eq!(s.game_num, 1);
    assert_eq!(s.results.failed, vec![("P2 JoinSession (game 1)".to_string(), "FULL: no seat".to_string())]);
    let (s, a) = multi_step(s, MultiEvent::CallFailed("down".into()));
    assert!(matches!(a, MultiAction::Finish));
    assert_eq!(s.results.failed.last().unwrap(), &("P1 CreateSession (game 2)".to_string(), "down".to_string()));
}

#[test]
fn turn_that_cannot_start_fails_only_the_first_turn() {
    let (s, _) = multi_step(multi_start(1), MultiEvent::Connected);
    let (s, _) = multi_step(s, MultiEvent::Created { session_id: "s".into(), session_code: "C".into(), player_id: "a".into() });
    let (s, _) = multi_step(s, MultiEvent::Empty);
    let (s, _) = multi_step(s, MultiEvent::Joined { player_id: "b".into() });
    let (s, _) = multi_step(s, MultiEvent::Empty);
    let (s, _) = multi_step(s, MultiEvent::Answered);
    let (s, _) = multi_step(s, MultiEvent::Answered);
    let (s, a) = multi_step(s, MultiEvent::TurnStarted { success: false, error_message: Some("not ready".into()), game_state: String::new() });
    assert!(matches!(a, MultiAction::GetGameState));
    assert!(s.game_failed);
    assert_eq!(s.results.failed.last().unwrap(), &("StartTurn (game 1 turn 0)".to_string(), "not ready".to_string()));
    let (s, a) = multi_step(s, MultiEvent::Answered);
    assert!(matches!(a, MultiAction::Finish));
    assert!(!s.results.passed.iter().any(|p| p.starts_with("Game 1 complete")));
}
