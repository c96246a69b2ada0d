//! One timed solo game against the game server, as the stress test plays it:
//! create a session, get ready, poll the lobby, play up to 19 turns (start
//! the turn, read the game state, list the moves, move), and read the final
//! state. The first call that fails ends the game with its error; otherwise
//! the game ends with the player's score.

use vstd::prelude::*;
use crate::e2e::refusal_text;
use crate::game_state::{pick_position, position_for};
use crate::text::{nat_text, str_eq, u64_text};

verus! {

/// Which reply the game waits for.
#[derive(Debug, Clone, Copy, PartialEq, Eq, Structural)]
pub enum GameStage {
    CreatingSession,
    SettingReady,
    PollingLobby,
    StartingTurn,
    ReadingState,
    ListingMoves,
    PlayingMove,
    ReadingFinalState,
    Done,
}

/// The game so far.
pub struct SoloGame {
    pub stage: GameStage,
    pub session_id: String,
    pub player_id: String,
    /// The turn being played (0 to 18).
    pub turn: u64,
    /// The points earned so far, or the final score once the server gave it.
    pub score: i32,
    /// The game-state document of the turn being played.
    pub game_state: String,
}

/// The call to make next.
#[derive(Debug)]
pub enum GameAction {
    CreateSession { player_name: String, max_players: i32, game_mode: String },
    SetReady,
    GetSessionState,
    StartTurn,
    GetGameState,
    GetAvailableMoves,
    /// Play the given position (sent as `{"position": ...}`).
    MakeMove { position: i64 },
    /// The game is over: the player's score, or the error that ended it.
    Done(Result<i32, String>),
}

/// The reply to the last call, in plain values.
#[derive(Debug)]
pub enum GameEvent {
    /// The call itself failed, with the transport's message.
    CallFailed(String),
    Created { session_id: String, player_id: String },
    /// The server answered with an error result.
    Refused { code: String, message: String },
    /// The server answered with no result.
    Empty,
    /// A reply whose content the game does not read.
    Answered,
    /// The turn reply: its error as `(code, message)` when it failed.
    TurnStarted { success: bool, error: Option<(String, String)>, game_state: String },
    /// An accepted move; at the end of the game, the players of the new
    /// game state as `(id, score)`, when the reply holds one.
    MoveAccepted { points_earned: i32, game_over: bool, players: Option<Vec<(String, i32)>> },
}

/// The score of the first player with the given id.
pub open spec fn score_of(players: Seq<(String, i32)>, id: Seq<char>) -> Option<i32>
    decreases players.len(),
{
    if players.len() == 0 {
        None
    } else if players[0].0@ == id {
        Some(players[0].1)
    } else {
        score_of(players.drop_first(), id)
    }
}

/// The score after an accepted move: the points are added (wrapping at the
/// bounds of `i32`), and at the end of the game the score the server gives
/// the player replaces it.
pub open spec fn score_after(
    score: i32,
    points: i32,
    game_over: bool,
    players: Option<Vec<(String, i32)>>,
    id: Seq<char>,
) -> i32 {
    let added = score.wrapping_add(points);
    if game_over {
        match players {
            Some(ps) => match score_of(ps@, id) {
                Some(s) => s,
                None => added,
            },
            None => added,
        }
    } else {
        added
    }
}

/// `"StartTurn failed at turn <t>: <code>: <message>"`, or `"unknown"` in
/// place of the error when the reply holds none.
pub open spec fn turn_failure(t: u64, error: Option<(String, String)>) -> Seq<char> {
    "StartTurn failed at turn "@ + nat_text(t as nat) + ": "@ + match error {
        Some(e) => refusal_text(e.0@, e.1@),
        None => "unknown"@,
    }
}

/// `"<call> error<at>: <code> - <message>"`
pub open spec fn refused_text(head: Seq<char>, code: Seq<char>, message: Seq<char>) -> Seq<char> {
    head + ": "@ + code + " - "@ + message
}

/// `" at turn <t>"`
pub open spec fn at_turn(t: u64) -> Seq<char> {
    " at turn "@ + nat_text(t as nat)
}

/// The action ends the game with an error whose text is `m`.
pub open spec fn ends_with_error(a: GameAction, m: Seq<char>) -> bool {
    a matches GameAction::Done(Err(e)) && e@ == m
}

/// A game before its first reply, and the call that starts it.
pub fn solo_game_start() -> (r: (SoloGame, GameAction))
    ensures
        r.0.stage == GameStage::CreatingSession,
        r.0.turn == 0,
        r.0.score == 0,
        r.1 matches GameAction::CreateSession { player_name, max_players, game_mode } && player_name@
            == "e2e-solo"@ && max_players == 2 && game_mode@ == "single-player"@,
{
    proof {
        reveal_strlit("e2e-solo");
        reveal_strlit("single-player");
    }
    let g = SoloGame {
        stage: GameStage::CreatingSession,
        session_id: String::new(),
        player_id: String::new(),
        turn: 0,
        score: 0,
        game_state: String::new(),
    };
    let a = GameAction::CreateSession {
        player_name: String::from_str("e2e-solo"),
        max_players: 2,
        game_mode: String::from_str("single-player"),
    };
    (g, a)
}

fn player_score(players: &Vec<(String, i32)>, id: &str) -> (r: Option<i32>)
    ensures
        r == score_of(players@, id@),
{
    let mut i: usize = 0;
    assert(players@.skip(0) =~= players@);
    while i < players.len()
        invariant
            i <= players@.len(),
            score_of(players@, id@) == score_of(players@.skip(i as int), id@),
        decreases players.len() - i,
    {
        let found = str_eq(players[i].0.as_str(), id);
        if found {
            assert(players@.skip(i as int)[0] == players@[i as int]);
            return Some(players[i].1);
        }
        assert(players@.skip(i as int).drop_first() =~= players@.skip(i + 1));
        i = i + 1;
    }
    assert(players@.skip(i as int).len() == 0);
    None
}

fn error_text(head: &str, code: &str, message: &str) -> (r: String)
    ensures
        r@ == refused_text(head@, code@, message@),
{
    proof {
        reveal_strlit(": ");
        reveal_strlit(" - ");
    }
    let mut s = String::from_str(head);
    s.append(": ");
    s.append(code);
    s.append(" - ");
    s.append(message);
    s
}

fn turn_text(head: &str, t: u64) -> (r: String)
    ensures
        r@ == head@ + at_turn(t),
{
    proof {
        reveal_strlit(" at turn ");
    }
    let mut s = String::from_str(head);
    s.append(" at turn ");
    let digits = u64_text(t);
    s.append(digits.as_str());
    s
}

fn failed_turn_text(t: u64, error: Option<(String, String)>) -> (r: String)
    ensures
        r@ == turn_failure(t, error),
{
    proof {
        reveal_strlit("StartTurn failed at turn ");
        reveal_strlit(": ");
        reveal_strlit("unknown");
    }
    let mut s = String::from_str("StartTurn failed at turn ");
    let digits = u64_text(t);
    s.append(digits.as_str());
    s.append(": ");
    match error {
        Some((code, message)) => {
            s.append(code.as_str());
            s.append(": ");
            s.append(message.as_str());
        },
        None => s.append("unknown"),
    }
    s
}

/// Ends the game with an error.
fn stop(mut g: SoloGame, e: String) -> (r: (SoloGame, GameAction))
    requires
        g.turn < 19,
    ensures
        r.0.stage == GameStage::Done,
        r.0.turn == g.turn,
        r.0.score == g.score,
        r.0.player_id == g.player_id,
        r.1 matches GameAction::Done(Err(m)) && m@ == e@,
{
    g.stage = GameStage::Done;
    (g, GameAction::Done(Err(e)))
}

/// One step of the game: from the reply to the last call, the game's next
/// state and the next call to make.
pub fn solo_game_step(g: SoloGame, ev: GameEvent) -> (r: (SoloGame, GameAction))
    requires
        g.turn < 19,
        g.stage != GameStage::Done,
    ensures
        r.0.turn < 19,
        r.0.stage == GameStage::Done <==> r.1 is Done,
        // A call that fails ends the game with the transport's message.
        ev matches GameEvent::CallFailed(e) ==> ends_with_error(r.1, e@),
        // A refused or empty session ends the game.
        g.stage == GameStage::CreatingSession ==> (ev matches GameEvent::Refused { code, message }
            ==> ends_with_error(r.1, refused_text("CreateSession error"@, code@, message@))),
        g.stage == GameStage::CreatingSession ==> (ev is Empty ==> ends_with_error(
            r.1,
            "CreateSession: empty response"@,
        )),
        g.stage == GameStage::CreatingSession ==> (ev matches GameEvent::Created { session_id, player_id } ==> (
        r.0.stage == GameStage::SettingReady && r.1 is SetReady && r.0.player_id@ == player_id@
            && r.0.session_id@ == session_id@)),
        // A turn that does not start ends the game.
        g.stage == GameStage::StartingTurn ==> (ev matches GameEvent::TurnStarted { success, error, game_state }
            ==> (!success ==> ends_with_error(r.1, turn_failure(g.turn, error)))),
        g.stage == GameStage::StartingTurn ==> (ev matches GameEvent::TurnStarted { success, error, game_state }
            ==> (success ==> (r.0.stage == GameStage::ReadingState && r.1 is GetGameState
            && r.0.game_state@ == game_state@))),
        // The position played is the one picked from the turn's game state.
        g.stage == GameStage::ListingMoves && !(ev is CallFailed) ==> match position_for(
            g.game_state@,
            g.player_id@,
        ) {
            Ok(p) => r.0.stage == GameStage::PlayingMove && r.1 == GameAction::MakeMove { position: p },
            Err(m) => ends_with_error(r.1, m),
        },
        // An accepted move adds its points; the turns stop at the end of the
        // game or after the 19th.
        g.stage == GameStage::PlayingMove ==> (ev matches GameEvent::MoveAccepted {
            points_earned,
            game_over,
            players,
        } ==> (r.0.score == score_after(g.score, points_earned, game_over, players, g.player_id@) && if game_over
            || g.turn + 1 == 19 {
            r.0.stage == GameStage::ReadingFinalState && r.1 is GetGameState
        } else {
            r.0.stage == GameStage::StartingTurn && r.1 is StartTurn && r.0.turn == g.turn + 1
        })),
        g.stage == GameStage::PlayingMove ==> (ev matches GameEvent::Refused { code, message } ==> ends_with_error(
            r.1,
            refused_text("MakeMove error"@ + at_turn(g.turn), code@, message@),
        )),
        g.stage == GameStage::PlayingMove ==> (ev is Empty ==> ends_with_error(
            r.1,
            "MakeMove: empty response"@ + at_turn(g.turn),
        )),
        // The final state read, the game ends with the score.
        g.stage == GameStage::ReadingFinalState && !(ev is CallFailed) ==> r.1 == GameAction::Done(
            Ok::<i32, String>(g.score),
        ),
        // The calls between are made in order, whatever they answer.
        g.stage == GameStage::SettingReady && !(ev is CallFailed) ==> (r.0.stage == GameStage::PollingLobby
            && r.1 is GetSessionState && r.0.player_id == g.player_id && r.0.score == g.score),
        g.stage == GameStage::PollingLobby && !(ev is CallFailed) ==> (r.0.stage == GameStage::StartingTurn
            && r.1 is StartTurn && r.0.turn == 0 && r.0.score == g.score && r.0.player_id == g.player_id),
        g.stage == GameStage::ReadingState && !(ev is CallFailed) ==> (r.0.stage == GameStage::ListingMoves
            && r.1 is GetAvailableMoves && r.0.turn == g.turn && r.0.score == g.score && r.0.player_id
            == g.player_id && r.0.game_state == g.game_state),
        // Every other step keeps the score, the player and the turn's state.
        g.stage != GameStage::PlayingMove ==> r.0.score == g.score,
        g.stage != GameStage::CreatingSession ==> r.0.player_id == g.player_id,
        g.stage != GameStage::PlayingMove && g.stage != GameStage::PollingLobby ==> r.0.turn == g.turn,
        g.stage == GameStage::StartingTurn && r.0.stage == GameStage::ReadingState ==> r.0.turn == g.turn,
{
    let mut g = g;
    if let GameEvent::CallFailed(e) = ev {
        return stop(g, e);
    }
    match g.stage {
        GameStage::CreatingSession => match ev {
            GameEvent::Created { session_id, player_id } => {
                g.session_id = session_id;
                g.player_id = player_id;
                g.stage = GameStage::SettingReady;
                (g, GameAction::SetReady)
            },
            GameEvent::Refused { code, message } => {
                proof {
                    reveal_strlit("CreateSession error");
                }
                let e = error_text("CreateSession error", code.as_str(), message.as_str());
                stop(g, e)
            },
            _ => {
                proof {
                    reveal_strlit("CreateSession: empty response");
                }
                stop(g, String::from_str("CreateSession: empty response"))
            },
        },
        GameStage::SettingReady => {
            g.stage = GameStage::PollingLobby;
            (g, GameAction::GetSessionState)
        },
        GameStage::PollingLobby => {
            g.turn = 0;
            g.stage = GameStage::StartingTurn;
            (g, GameAction::StartTurn)
        },
        GameStage::StartingTurn => match ev {
            GameEvent::TurnStarted { success, error, game_state } => {
                if !success {
                    let e = failed_turn_text(g.turn, error);
                    return stop(g, e);
                }
                g.game_state = game_state;
                g.stage = GameStage::ReadingState;
                (g, GameAction::GetGameState)
            },
            _ => {
                let e = failed_turn_text(g.turn, None);
                stop(g, e)
            },
        },
        GameStage::ReadingState => {
            g.stage = GameStage::ListingMoves;
            (g, GameAction::GetAvailableMoves)
        },
        GameStage::ListingMoves => {
            let picked = pick_position(g.game_state.as_str(), g.player_id.as_str());
            match picked {
                Ok(p) => {
                    g.stage = GameStage::PlayingMove;
                    (g, GameAction::MakeMove { position: p })
                },
                Err(m) => stop(g, m),
            }
        },
        GameStage::PlayingMove => match ev {
            GameEvent::MoveAccepted { points_earned, game_over, players } => {
                let mut score = g.score.wrapping_add(points_earned);
                if game_over {
                    if let Some(ps) = &players {
                        if let Some(s) = player_score(ps, g.player_id.as_str()) {
                            score = s;
                        }
                    }
                }
                g.score = score;
                if game_over || g.turn + 1 == 19 {
                    g.stage = GameStage::ReadingFinalState;
                    return (g, GameAction::GetGameState);
                }
                g.turn = g.turn + 1;
                g.stage = GameStage::StartingTurn;
                (g, GameAction::StartTurn)
            },
            GameEvent::Refused { code, message } => {
                proof {
                    reveal_strlit("MakeMove error");
                }
                let head = turn_text("MakeMove error", g.turn);
                let e = error_text(head.as_str(), code.as_str(), message.as_str());
                stop(g, e)
            },
            _ => {
                proof {
                    reveal_strlit("MakeMove: empty response");
                }
                let e = turn_text("MakeMove: empty response", g.turn);
                stop(g, e)
            },
        },
        GameStage::ReadingFinalState => {
            g.stage = GameStage::Done;
            let score = g.score;
            (g, GameAction::Done(Ok(score)))
        },
        GameStage::Done => {
            let score = g.score;
            (g, GameAction::Done(Ok(score)))
        },
    }
}

} // verus!
