//! The solo end-to-end journey against the game server: create a session,
//! poll the lobby, get ready, play up to 19 turns, check that the game is
//! over, and start a new session. Each step takes the server's reply to the
//! previous call and gives the next call to make; the checks passed and
//! failed along the way are recorded.

use vstd::prelude::*;
use crate::game_state::{pick_position, position_for, result_view};
use crate::stats::{keeps, TestResults};
use crate::text::{nat_text, u64_text};

verus! {

/// Where the journey stands: which call's reply it waits for.
#[derive(Debug, Clone, Copy, PartialEq, Eq, Structural)]
pub enum SoloStage {
    Connecting,
    CreatingSession,
    PollingLobby,
    SettingReady,
    PollingAfterReady,
    StartingTurn,
    ReadingMidGameState,
    ListingMoves,
    PlayingMove,
    ReadingFinalState,
    Replaying,
    Finished,
}

/// The journey so far.
pub struct SoloJourney {
    pub stage: SoloStage,
    pub session_id: String,
    pub player_id: String,
    /// The turn being played (0 to 18).
    pub turn: u64,
    pub turns_played: u64,
    pub game_finished: bool,
    pub moves_listed: bool,
    /// The game-state document of the turn being played.
    pub game_state: String,
    pub results: TestResults,
}

/// The call to make next.
#[derive(Debug)]
pub enum SoloAction {
    CreateSession { player_name: String },
    GetSessionState,
    SetReady,
    StartTurn,
    GetGameState,
    GetAvailableMoves,
    /// Play the given position (sent as `{"position": ...}`).
    MakeMove { position: i64 },
    /// The journey is over: report the results.
    Finish,
}

/// The reply to the last call, in plain values.
#[derive(Debug)]
pub enum SoloEvent {
    /// The clients are connected (answers `Connecting`).
    Connected,
    /// The call itself failed, with the transport's message.
    CallFailed(String),
    /// A session was created.
    Created { session_id: String, player_id: String },
    /// The server answered with an error result.
    Refused { code: String, message: String },
    /// The server answered with no result.
    Empty,
    /// The session state: whether it holds a game state, and the text of
    /// its error when it holds none.
    SessionState { has_game_state: bool, error: Option<String> },
    Ready { success: bool, game_started: bool },
    TurnStarted { success: bool, error_message: Option<String>, game_state: String },
    GameState { success: bool, finished: bool },
    Moves { error: Option<String> },
    MoveAccepted { game_over: bool },
}

/// `s` contains `p` as a contiguous part.
pub open spec fn has_infix(s: Seq<char>, p: Seq<char>) -> bool {
    exists|i: int| 0 <= i && i + p.len() <= s.len() && #[trigger] s.subrange(i, i + p.len()) == p
}

fn contains_text(s: &str, p: &str) -> (r: bool)
    ensures
        r == has_infix(s@, p@),
{
    let n = s.unicode_len();
    let m = p.unicode_len();
    if m > n {
        assert(!has_infix(s@, p@));
        return false;
    }
    let mut i: usize = 0;
    while i <= n - m
        invariant
            n == s@.len(),
            m == p@.len(),
            m <= n,
            i <= n - m + 1,
            forall|j: int| 0 <= j < i ==> #[trigger] s@.subrange(j, j + p@.len()) != p@,
        decreases n - m + 1 - i,
    {
        let mut k: usize = 0;
        let mut same = true;
        while k < m
            invariant
                n == s@.len(),
                m == p@.len(),
                i + m <= n,
                k <= m,
                same <==> forall|q: int| 0 <= q < k ==> s@[i + q] == p@[q],
            decreases m - k,
        {
            if s.get_char(i + k) != p.get_char(k) {
                same = false;
            }
            k = k + 1;
        }
        if same {
            assert(s@.subrange(i as int, i + m) =~= p@);
            return true;
        }
        assert(s@.subrange(i as int, i + m) != p@) by {
            let q = choose|q: int| 0 <= q < m && s@[i + q] != p@[q];
            assert(s@.subrange(i as int, i + m)[q] == s@[i + q]);
        }
        i = i + 1;
    }
    assert(!has_infix(s@, p@)) by {
        if has_infix(s@, p@) {
            let j = choose|j: int| 0 <= j && j + p@.len() <= s@.len() && #[trigger] s@.subrange(j, j + p@.len()) == p@;
            assert(j < i);
        }
    }
    false
}

/// `after` is `before` with one more failed check `(name, reason)`.
pub open spec fn failed_with(before: TestResults, after: TestResults, name: Seq<char>, reason: Seq<char>) -> bool {
    &&& after.failed@.len() == before.failed@.len() + 1
    &&& after.failed@.last().0@ == name
    &&& after.failed@.last().1@ == reason
    &&& after.failed@.drop_last() == before.failed@
    &&& after.passed@ == before.passed@
}

/// `after` has one more failed check than `before`, the last one being
/// `(name, reason)`; passed checks may have been added too.
pub open spec fn failure_added(before: TestResults, after: TestResults, name: Seq<char>, reason: Seq<char>) -> bool {
    &&& after.failed@.len() == before.failed@.len() + 1
    &&& after.failed@.last().0@ == name
    &&& after.failed@.last().1@ == reason
    &&& after.failed@.drop_last() == before.failed@
}

/// `after` is `before` with one more passed check `name`.
pub open spec fn passed_with(before: TestResults, after: TestResults, name: Seq<char>) -> bool {
    &&& after.passed@.len() == before.passed@.len() + 1
    &&& after.passed@.last()@ == name
    &&& after.passed@.drop_last() == before.passed@
    &&& after.failed@ == before.failed@
}

/// `"<check> (turn <t>)"`
pub open spec fn turn_check(check: Seq<char>, t: u64) -> Seq<char> {
    check + " (turn "@ + nat_text(t as nat) + ")"@
}

/// `"<code>: <message>"`
pub open spec fn refusal_text(code: Seq<char>, message: Seq<char>) -> Seq<char> {
    code + ": "@ + message
}

/// The event answers the call the journey waits for.
pub open spec fn answers(stage: SoloStage, ev: SoloEvent) -> bool {
    match stage {
        SoloStage::Connecting => ev is Connected || ev is CallFailed,
        SoloStage::CreatingSession | SoloStage::Replaying => ev is Created || ev is Refused || ev is Empty
            || ev is CallFailed,
        SoloStage::PollingLobby | SoloStage::PollingAfterReady => ev is SessionState || ev is CallFailed,
        SoloStage::SettingReady => ev is Ready || ev is CallFailed,
        SoloStage::StartingTurn => ev is TurnStarted || ev is CallFailed,
        SoloStage::ReadingMidGameState | SoloStage::ReadingFinalState => ev is GameState || ev is CallFailed,
        SoloStage::ListingMoves => ev is Moves || ev is CallFailed,
        SoloStage::PlayingMove => ev is MoveAccepted || ev is Refused || ev is Empty || ev is CallFailed,
        SoloStage::Finished => false,
    }
}

/// The journey's counters are consistent: the turn lies within the game,
/// and no more moves were played than turns were reached.
pub open spec fn solo_well_formed(s: SoloJourney) -> bool {
    &&& s.turn < 19
    &&& s.turns_played <= s.turn + 1
    &&& (s.stage == SoloStage::StartingTurn || s.stage == SoloStage::ReadingMidGameState || s.stage
        == SoloStage::ListingMoves || s.stage == SoloStage::PlayingMove) ==> s.turns_played <= s.turn
}

/// The text of an optional message, empty when there is none.
pub open spec fn text_or_empty(m: Option<String>) -> Seq<char> {
    match m {
        Some(t) => t@,
        None => Seq::empty(),
    }
}

/// The texts that mean a solo turn could not start because the game is over.
pub open spec fn solo_over_text(m: Seq<char>) -> bool {
    has_infix(m, "finished"@) || has_infix(m, "over"@)
}

/// `"Game loop (<n> turns played)"`
pub open spec fn loop_check(n: u64) -> Seq<char> {
    "Game loop ("@ + nat_text(n as nat) + " turns played)"@
}

/// After a turn has started and its reads are done, the journey lists the
/// moves once; once listed, it plays the position picked from the turn's
/// game state, or, when none can be picked, records that failure and
/// leaves the turn loop. `before` are the results when that choice is made.
pub open spec fn turn_goes_on(
    moves_listed: bool,
    game_state: Seq<char>,
    player: Seq<char>,
    turn: u64,
    before: TestResults,
    r: (SoloJourney, SoloAction),
) -> bool {
    if !moves_listed {
        r.0.stage == SoloStage::ListingMoves && r.1 is GetAvailableMoves && r.0.results == before
    } else {
        match position_for(game_state, player) {
            Ok(p) => r.0.stage == SoloStage::PlayingMove && r.1 == SoloAction::MakeMove { position: p }
                && r.0.results == before,
            Err(m) => r.0.stage == SoloStage::ReadingFinalState && r.1 is GetGameState && failure_added(
                before,
                r.0.results,
                turn_check("pick_position"@, turn),
                m,
            ),
        }
    }
}

/// The reply to a call at this stage says that the game is over: an
/// accepted move that ends the game, or a turn that cannot start because
/// the game is finished.
pub open spec fn says_game_over(stage: SoloStage, ev: SoloEvent) -> bool {
    ||| stage == SoloStage::PlayingMove && (ev matches SoloEvent::MoveAccepted { game_over } && game_over)
    ||| stage == SoloStage::StartingTurn && (ev matches SoloEvent::TurnStarted { success, error_message, game_state }
        && !success && solo_over_text(text_or_empty(error_message)))
}

/// How one step of the solo journey tracks the end of the game: the game
/// counts as finished once a reply has said so, and only then; the final
/// read passes when the game is finished by that read or by such a reply,
/// and fails otherwise.
pub open spec fn solo_step_rule(s: SoloJourney, ev: SoloEvent, t: SoloJourney) -> bool {
    &&& t.game_finished == (s.game_finished || says_game_over(s.stage, ev))
    &&& s.stage == SoloStage::ReadingFinalState ==> (ev matches SoloEvent::GameState { success, finished } ==> (
    if finished || s.game_finished {
        passed_with(s.results, t.results, "GetGameState (game over verification)"@)
    } else {
        failed_with(s.results, t.results, "GetGameState (game over verification)"@, "is_game_finished=false"@)
    }))
}

/// The solo journey does not decide on its own that the game is over: along
/// any run of steps from a journey whose game is not finished, where no reply
/// says the game is over, the game never counts as finished, and a final
/// read that answers "not finished" records the game-over verification as
/// failed.
pub proof fn lemma_solo_over_only_when_told(states: Seq<SoloJourney>, events: Seq<SoloEvent>)
    requires
        states.len() == events.len() + 1,
        !states[0].game_finished,
        forall|i: int| 0 <= i < events.len() ==> solo_step_rule(#[trigger] states[i], events[i], states[i + 1]),
        forall|i: int| 0 <= i < events.len() ==> !says_game_over(#[trigger] states[i].stage, events[i]),
    ensures
        forall|i: int| 0 <= i < states.len() ==> !(#[trigger] states[i].game_finished),
        forall|i: int|
            0 <= i < events.len() && #[trigger] states[i].stage == SoloStage::ReadingFinalState && (events[i] matches SoloEvent::GameState {
                success,
                finished,
            } && !finished) ==> failed_with(
                states[i].results,
                states[i + 1].results,
                "GetGameState (game over verification)"@,
                "is_game_finished=false"@,
            ),
{
    assert forall|i: int| 0 <= i < states.len() implies !(#[trigger] states[i].game_finished) by {
        lemma_solo_not_finished(states, events, i);
    }
    assert forall|i: int|
        0 <= i < events.len() && #[trigger] states[i].stage == SoloStage::ReadingFinalState && (events[i] matches SoloEvent::GameState {
            success,
            finished,
        } && !finished) implies failed_with(
            states[i].results,
            states[i + 1].results,
            "GetGameState (game over verification)"@,
            "is_game_finished=false"@,
        ) by {
        lemma_solo_not_finished(states, events, i);
        assert(solo_step_rule(states[i], events[i], states[i + 1]));
    }
}

proof fn lemma_solo_not_finished(states: Seq<SoloJourney>, events: Seq<SoloEvent>, n: int)
    requires
        states.len() == events.len() + 1,
        0 <= n < states.len(),
        !states[0].game_finished,
        forall|i: int| 0 <= i < events.len() ==> solo_step_rule(#[trigger] states[i], events[i], states[i + 1]),
        forall|i: int| 0 <= i < events.len() ==> !says_game_over(#[trigger] states[i].stage, events[i]),
    ensures
        !states[n].game_finished,
    decreases n,
{
    if n > 0 {
        lemma_solo_not_finished(states, events, n - 1);
        assert(solo_step_rule(states[n - 1], events[n - 1], states[n]));
        assert(!says_game_over(states[n - 1].stage, events[n - 1]));
    }
}

/// The journey before its first call.
pub fn solo_start() -> (r: SoloJourney)
    ensures
        r.stage == SoloStage::Connecting,
        r.turn == 0,
        r.turns_played == 0,
        !r.game_finished,
        !r.moves_listed,
        r.results.passed@.len() == 0,
        r.results.failed@.len() == 0,
{
    SoloJourney {
        stage: SoloStage::Connecting,
        session_id: String::new(),
        player_id: String::new(),
        turn: 0,
        turns_played: 0,
        game_finished: false,
        moves_listed: false,
        game_state: String::new(),
        results: TestResults::new(),
    }
}

fn turn_name(check: &str, t: u64) -> (r: String)
    ensures
        r@ == turn_check(check@, t),
{
    proof {
        reveal_strlit(" (turn ");
        reveal_strlit(")");
    }
    let mut s = String::from_str(check);
    s.append(" (turn ");
    let digits = u64_text(t);
    s.append(digits.as_str());
    s.append(")");
    s
}

fn refusal(code: &str, message: &str) -> (r: String)
    ensures
        r@ == refusal_text(code@, message@),
{
    proof {
        reveal_strlit(": ");
    }
    let mut s = String::from_str(code);
    s.append(": ");
    s.append(message);
    s
}

/// Leaves the turn loop: the loop is reported when a move was played, then
/// the final game state is read.
fn end_turns(mut s: SoloJourney) -> (r: (SoloJourney, SoloAction))
    requires
        s.turn < 19,
        s.turns_played <= s.turn + 1,
    ensures
        solo_well_formed(r.0),
        r.0.stage == SoloStage::ReadingFinalState,
        r.1 is GetGameState,
        r.0.turn == s.turn,
        r.0.turns_played == s.turns_played,
        r.0.game_finished == s.game_finished,
        r.0.player_id == s.player_id,
        r.0.game_state@ == s.game_state@,
        s.turns_played > 0 ==> passed_with(s.results, r.0.results, "Game loop ("@ + nat_text(
            s.turns_played as nat,
        ) + " turns played)"@),
        s.turns_played == 0 ==> r.0.results == s.results,
        r.0.results.failed@ == s.results.failed@,
        keeps(s.results, r.0.results),
        r.0.moves_listed == s.moves_listed,
{
    if s.turns_played > 0 {
        proof {
            reveal_strlit("Game loop (");
            reveal_strlit(" turns played)");
        }
        let mut name = String::from_str("Game loop (");
        let digits = u64_text(s.turns_played);
        name.append(digits.as_str());
        name.append(" turns played)");
        s.results.pass(name.as_str());
    }
    s.stage = SoloStage::ReadingFinalState;
    (s, SoloAction::GetGameState)
}

/// The call after the turn's start and its optional reads: list the moves
/// once, then play the position picked from the turn's game state, or
/// leave the loop when none can be picked.
fn play_or_list(mut s: SoloJourney) -> (r: (SoloJourney, SoloAction))
    requires
        s.turn < 19,
        s.turns_played <= s.turn,
    ensures
        solo_well_formed(r.0),
        r.0.turn == s.turn,
        r.0.turns_played == s.turns_played,
        r.0.player_id == s.player_id,
        r.0.game_state@ == s.game_state@,
        turn_goes_on(s.moves_listed, s.game_state@, s.player_id@, s.turn, s.results, r),
        keeps(s.results, r.0.results),
        r.0.moves_listed == s.moves_listed,
        r.0.game_finished == s.game_finished,
        r.0.stage == SoloStage::ReadingFinalState && r.0.turns_played > 0 ==> r.0.results.passed@.last()@
            == loop_check(r.0.turns_played),
{
    if !s.moves_listed {
        s.stage = SoloStage::ListingMoves;
        return (s, SoloAction::GetAvailableMoves);
    }
    let ghost before = s.game_state;
    let picked = pick_position(s.game_state.as_str(), s.player_id.as_str());
    match picked {
        Ok(p) => {
            s.stage = SoloStage::PlayingMove;
            assert(s.game_state == before);
            (s, SoloAction::MakeMove { position: p })
        },
        Err(e) => {
            let name = turn_name("pick_position", s.turn);
            s.results.fail(name.as_str(), e.as_str());
            end_turns(s)
        },
    }
}

/// One step of the solo journey: from the reply to the last call, the
/// journey's next state and the next call to make.
pub fn solo_step(s: SoloJourney, ev: SoloEvent) -> (r: (SoloJourney, SoloAction))
    requires
        answers(s.stage, ev),
        solo_well_formed(s),
    ensures
        solo_well_formed(r.0),
        r.1 is Finish <==> r.0.stage == SoloStage::Finished,
        solo_step_rule(s, ev, r.0),
        // No check is ever taken back.
        keeps(s.results, r.0.results),
        // Connecting: a failure ends the journey; else the session is created.
        s.stage == SoloStage::Connecting ==> (ev matches SoloEvent::CallFailed(e) ==> (r.1 is Finish && failed_with(
            s.results,
            r.0.results,
            "connect"@,
            e@,
        ))),
        s.stage == SoloStage::Connecting ==> (!(ev is CallFailed) ==> (r.0.stage == SoloStage::CreatingSession
            && r.0.results == s.results && (r.1 matches SoloAction::CreateSession { player_name } && player_name@
            == "e2e-solo"@))),
        // A refused, empty or failed session creation ends the journey.
        s.stage == SoloStage::CreatingSession ==> (ev matches SoloEvent::Refused { code, message } ==> (r.1 is Finish
            && failed_with(s.results, r.0.results, "CreateSession"@, refusal_text(code@, message@)))),
        s.stage == SoloStage::CreatingSession ==> (ev is Empty ==> (r.1 is Finish && failed_with(
            s.results,
            r.0.results,
            "CreateSession"@,
            "empty response"@,
        ))),
        s.stage == SoloStage::CreatingSession ==> (ev matches SoloEvent::CallFailed(e) ==> (r.1 is Finish
            && failed_with(s.results, r.0.results, "CreateSession"@, e@))),
        // A created session is kept, and the lobby is polled.
        s.stage == SoloStage::CreatingSession ==> (ev matches SoloEvent::Created { session_id, player_id } ==> (
        r.0.session_id == session_id && r.0.player_id == player_id && r.0.stage == SoloStage::PollingLobby
            && r.1 is GetSessionState && passed_with(s.results, r.0.results, "CreateSession"@))),
        // The lobby poll passes unless it answers an error without a game
        // state; then the player gets ready.
        s.stage == SoloStage::PollingLobby ==> (r.0.stage == SoloStage::SettingReady && r.1 is SetReady),
        s.stage == SoloStage::PollingLobby ==> (ev matches SoloEvent::SessionState { has_game_state, error } ==> (
        if has_game_state || error is None {
            passed_with(s.results, r.0.results, "GetSessionState (lobby)"@)
        } else {
            failed_with(s.results, r.0.results, "GetSessionState (lobby)"@, text_or_empty(error))
        })),
        s.stage == SoloStage::PollingLobby ==> (ev matches SoloEvent::CallFailed(e) ==> failed_with(
            s.results,
            r.0.results,
            "GetSessionState (lobby)"@,
            e@,
        )),
        // Getting ready passes when the reply reports success or a started
        // game; then the lobby is polled again.
        s.stage == SoloStage::SettingReady ==> (r.0.stage == SoloStage::PollingAfterReady && r.1 is GetSessionState),
        s.stage == SoloStage::SettingReady ==> (ev matches SoloEvent::Ready { success, game_started } ==> (
        if success || game_started {
            passed_with(s.results, r.0.results, "SetReady"@)
        } else {
            failed_with(s.results, r.0.results, "SetReady"@, "success=false, game_started=false"@)
        })),
        s.stage == SoloStage::SettingReady ==> (ev matches SoloEvent::CallFailed(e) ==> failed_with(
            s.results,
            r.0.results,
            "SetReady"@,
            e@,
        )),
        // The second poll passes unless the call fails; then turn 0 starts.
        s.stage == SoloStage::PollingAfterReady ==> (r.0.stage == SoloStage::StartingTurn && r.1 is StartTurn
            && r.0.turns_played == 0 && r.0.turn == 0),
        s.stage == SoloStage::PollingAfterReady ==> (ev matches SoloEvent::CallFailed(e) ==> failed_with(
            s.results,
            r.0.results,
            "GetSessionState (post-ready)"@,
            e@,
        )),
        s.stage == SoloStage::PollingAfterReady ==> (!(ev is CallFailed) ==> passed_with(
            s.results,
            r.0.results,
            "GetSessionState (post-ready)"@,
        )),
        // A turn that does not start ends the loop: as the end of the game
        // when its message says so, else as a failure.
        s.stage == SoloStage::StartingTurn ==> (ev matches SoloEvent::TurnStarted { success, error_message, game_state }
            ==> (!success ==> (r.0.stage == SoloStage::ReadingFinalState && r.1 is GetGameState && (solo_over_text(
            text_or_empty(error_message),
        ) ==> (r.0.game_finished && r.0.results.failed@ == s.results.failed@)) && (!solo_over_text(
            text_or_empty(error_message),
        ) ==> failure_added(s.results, r.0.results, turn_check("StartTurn"@, s.turn), text_or_empty(error_message)))))),
        s.stage == SoloStage::StartingTurn ==> (ev matches SoloEvent::CallFailed(e) ==> (r.0.stage
            == SoloStage::ReadingFinalState && failure_added(s.results, r.0.results, turn_check("StartTurn"@, s.turn), e@))),
        // A started turn keeps its game state; turns 0, 9 and 18 read the
        // game state first, the others go on with the turn.
        s.stage == SoloStage::StartingTurn ==> (ev matches SoloEvent::TurnStarted { success, error_message, game_state }
            ==> (success ==> (r.0.game_state@ == game_state@ && r.0.turn == s.turn && if s.turn == 0 || s.turn == 9
            || s.turn == 18 {
            r.0.stage == SoloStage::ReadingMidGameState && r.1 is GetGameState && (s.turn == 0 ==> passed_with(
                s.results,
                r.0.results,
                "StartTurn (first turn)"@,
            )) && (s.turn != 0 ==> r.0.results == s.results)
        } else {
            turn_goes_on(s.moves_listed, game_state@, s.player_id@, s.turn, s.results, r)
        }))),
        // The game-state read is checked at turn 0 only.
        s.stage == SoloStage::ReadingMidGameState ==> (exists|mid: TestResults|
            #[trigger] turn_goes_on(s.moves_listed, s.game_state@, s.player_id@, s.turn, mid, r) && if s.turn != 0 {
                mid == s.results
            } else {
                match ev {
                    SoloEvent::GameState { success, finished } => if success {
                        passed_with(s.results, mid, "GetGameState (mid-game)"@)
                    } else {
                        mid == s.results
                    },
                    SoloEvent::CallFailed(e) => failed_with(s.results, mid, "GetGameState (mid-game)"@, e@),
                    _ => mid == s.results,
                }
            }),
        // The move list passes unless it carries an error; the moves are
        // listed once per journey.
        s.stage == SoloStage::ListingMoves ==> (r.0.moves_listed && exists|mid: TestResults|
            #[trigger] turn_goes_on(true, s.game_state@, s.player_id@, s.turn, mid, r) && match ev {
                SoloEvent::Moves { error } => match error {
                    None => passed_with(s.results, mid, "GetAvailableMoves"@),
                    Some(t) => failed_with(s.results, mid, "GetAvailableMoves"@, t@),
                },
                SoloEvent::CallFailed(e) => failed_with(s.results, mid, "GetAvailableMoves"@, e@),
                _ => mid == s.results,
            }),
        // The move played is the position picked for the player.
        r.1 matches SoloAction::MakeMove { position } ==> (r.0.stage == SoloStage::PlayingMove && position_for(
            r.0.game_state@,
            r.0.player_id@,
        ) == Ok::<i64, Seq<char>>(position)),
        // A refused, empty or failed move leaves the turn loop with its failure.
        s.stage == SoloStage::PlayingMove ==> (ev matches SoloEvent::Refused { code, message } ==> (r.1 is GetGameState
            && r.0.stage == SoloStage::ReadingFinalState && r.0.turns_played == s.turns_played && failure_added(
            s.results,
            r.0.results,
            turn_check("MakeMove"@, s.turn),
            refusal_text(code@, message@),
        ))),
        s.stage == SoloStage::PlayingMove ==> (ev is Empty ==> (r.0.stage == SoloStage::ReadingFinalState
            && failure_added(s.results, r.0.results, turn_check("MakeMove"@, s.turn), "empty response"@))),
        s.stage == SoloStage::PlayingMove ==> (ev matches SoloEvent::CallFailed(e) ==> (r.0.stage
            == SoloStage::ReadingFinalState && failure_added(s.results, r.0.results, turn_check("MakeMove"@, s.turn), e@))),
        // An accepted move counts (the first one as a check); the loop stops
        // at the end of the game or after 19 turns.
        s.stage == SoloStage::PlayingMove ==> (ev matches SoloEvent::MoveAccepted { game_over } ==> (
        r.0.turns_played == s.turns_played + 1 && (game_over ==> r.0.game_finished) && r.0.results.failed@
            == s.results.failed@ && (s.turn == 0 ==> (r.0.results.passed@.len() > s.results.passed@.len()
            && r.0.results.passed@[s.results.passed@.len() as int]@ == "MakeMove (first turn)"@)) && if game_over
            || s.turn + 1 == 19 {
            r.0.stage == SoloStage::ReadingFinalState && r.1 is GetGameState
        } else {
            r.0.stage == SoloStage::StartingTurn && r.1 is StartTurn && r.0.turn == s.turn + 1 && (s.turn != 0
                ==> r.0.results == s.results)
        })),
        // Leaving the turn loop after a move reports the number of moves.
        s.stage != SoloStage::ReadingFinalState && r.0.stage == SoloStage::ReadingFinalState && r.0.turns_played > 0
            ==> r.0.results.passed@.last()@ == loop_check(r.0.turns_played),
        // The final read passes when the game is over, by the reply or by an
        // earlier answer; then a new session is created.
        s.stage == SoloStage::ReadingFinalState ==> (r.0.stage == SoloStage::Replaying && (r.1 matches SoloAction::CreateSession {
            player_name,
        } && player_name@ == "e2e-solo-replay"@)),
        s.stage == SoloStage::ReadingFinalState ==> (ev matches SoloEvent::GameState { success, finished } ==> (
        if finished || s.game_finished {
            passed_with(s.results, r.0.results, "GetGameState (game over verification)"@)
        } else {
            failed_with(
                s.results,
                r.0.results,
                "GetGameState (game over verification)"@,
                "is_game_finished=false"@,
            )
        })),
        s.stage == SoloStage::ReadingFinalState ==> (ev matches SoloEvent::CallFailed(e) ==> failed_with(
            s.results,
            r.0.results,
            "GetGameState (game over verification)"@,
            e@,
        )),
        // The new session passes when it is created; then the journey ends.
        s.stage == SoloStage::Replaying ==> (r.1 is Finish && if ev is Created {
            passed_with(s.results, r.0.results, "CreateSession (replay)"@)
        } else {
            failed_with(s.results, r.0.results, "CreateSession (replay)"@, match ev {
                SoloEvent::CallFailed(e) => e@,
                _ => "unexpected response"@,
            })
        }),
        s.stage != SoloStage::PlayingMove && s.stage != SoloStage::PollingAfterReady ==> r.0.turns_played
            == s.turns_played,
{
    let mut s = s;
    let stage = s.stage;
    match stage {
        SoloStage::Connecting => match ev {
            SoloEvent::CallFailed(e) => {
                s.results.fail("connect", e.as_str());
                s.stage = SoloStage::Finished;
                (s, SoloAction::Finish)
            },
            _ => {
                s.stage = SoloStage::CreatingSession;
                (s, SoloAction::CreateSession { player_name: String::from_str("e2e-solo") })
            },
        },
        SoloStage::CreatingSession => match ev {
            SoloEvent::Created { session_id, player_id } => {
                s.results.pass("CreateSession");
                s.session_id = session_id;
                s.player_id = player_id;
                s.stage = SoloStage::PollingLobby;
                (s, SoloAction::GetSessionState)
            },
            SoloEvent::Refused { code, message } => {
                let reason = refusal(code.as_str(), message.as_str());
                s.results.fail("CreateSession", reason.as_str());
                s.stage = SoloStage::Finished;
                (s, SoloAction::Finish)
            },
            SoloEvent::CallFailed(e) => {
                s.results.fail("CreateSession", e.as_str());
                s.stage = SoloStage::Finished;
                (s, SoloAction::Finish)
            },
            _ => {
                s.results.fail("CreateSession", "empty response");
                s.stage = SoloStage::Finished;
                (s, SoloAction::Finish)
            },
        },
        SoloStage::PollingLobby => {
            match ev {
                SoloEvent::SessionState { has_game_state, error } => {
                    if has_game_state {
                        s.results.pass("GetSessionState (lobby)");
                    } else {
                        match error {
                            Some(t) => s.results.fail("GetSessionState (lobby)", t.as_str()),
                            None => s.results.pass("GetSessionState (lobby)"),
                        }
                    }
                },
                SoloEvent::CallFailed(e) => s.results.fail("GetSessionState (lobby)", e.as_str()),
                _ => {},
            }
            s.stage = SoloStage::SettingReady;
            (s, SoloAction::SetReady)
        },
        SoloStage::SettingReady => {
            match ev {
                SoloEvent::Ready { success, game_started } => {
                    if success || game_started {
                        s.results.pass("SetReady");
                    } else {
                        s.results.fail("SetReady", "success=false, game_started=false");
                    }
                },
                SoloEvent::CallFailed(e) => s.results.fail("SetReady", e.as_str()),
                _ => {},
            }
            s.stage = SoloStage::PollingAfterReady;
            (s, SoloAction::GetSessionState)
        },
        SoloStage::PollingAfterReady => {
            match ev {
                SoloEvent::CallFailed(e) => s.results.fail("GetSessionState (post-ready)", e.as_str()),
                _ => s.results.pass("GetSessionState (post-ready)"),
            }
            s.stage = SoloStage::StartingTurn;
            s.turn = 0;
            s.turns_played = 0;
            (s, SoloAction::StartTurn)
        },
        SoloStage::StartingTurn => match ev {
            SoloEvent::TurnStarted { success, error_message, game_state } => {
                if !success {
                    let msg = match error_message {
                        Some(m) => m,
                        None => String::new(),
                    };
                    proof {
                        reveal_strlit("finished");
                        reveal_strlit("over");
                    }
                    if contains_text(msg.as_str(), "finished") || contains_text(msg.as_str(), "over") {
                        s.game_finished = true;
                    } else {
                        let name = turn_name("StartTurn", s.turn);
                        s.results.fail(name.as_str(), msg.as_str());
                    }
                    return end_turns(s);
                }
                if s.turn == 0 {
                    s.results.pass("StartTurn (first turn)");
                }
                s.game_state = game_state;
                if s.turn == 0 || s.turn == 9 || s.turn == 18 {
                    s.stage = SoloStage::ReadingMidGameState;
                    (s, SoloAction::GetGameState)
                } else {
                    play_or_list(s)
                }
            },
            SoloEvent::CallFailed(e) => {
                let name = turn_name("StartTurn", s.turn);
                s.results.fail(name.as_str(), e.as_str());
                end_turns(s)
            },
            _ => end_turns(s),
        },
        SoloStage::ReadingMidGameState => {
            match ev {
                SoloEvent::GameState { success, finished } => {
                    if success && s.turn == 0 {
                        s.results.pass("GetGameState (mid-game)");
                    }
                },
                SoloEvent::CallFailed(e) => {
                    if s.turn == 0 {
                        s.results.fail("GetGameState (mid-game)", e.as_str());
                    }
                },
                _ => {},
            }
            play_or_list(s)
        },
        SoloStage::ListingMoves => {
            match ev {
                SoloEvent::Moves { error } => match error {
                    None => s.results.pass("GetAvailableMoves"),
                    Some(t) => s.results.fail("GetAvailableMoves", t.as_str()),
                },
                SoloEvent::CallFailed(e) => s.results.fail("GetAvailableMoves", e.as_str()),
                _ => {},
            }
            s.moves_listed = true;
            play_or_list(s)
        },
        SoloStage::PlayingMove => match ev {
            SoloEvent::MoveAccepted { game_over } => {
                s.turns_played = s.turns_played + 1;
                if s.turn == 0 {
                    s.results.pass("MakeMove (first turn)");
                }
                if game_over {
                    s.game_finished = true;
                    return end_turns(s);
                }
                if s.turn + 1 == 19 {
                    return end_turns(s);
                }
                s.turn = s.turn + 1;
                s.stage = SoloStage::StartingTurn;
                (s, SoloAction::StartTurn)
            },
            SoloEvent::Refused { code, message } => {
                let name = turn_name("MakeMove", s.turn);
                let reason = refusal(code.as_str(), message.as_str());
                s.results.fail(name.as_str(), reason.as_str());
                end_turns(s)
            },
            SoloEvent::CallFailed(e) => {
                let name = turn_name("MakeMove", s.turn);
                s.results.fail(name.as_str(), e.as_str());
                end_turns(s)
            },
            _ => {
                let name = turn_name("MakeMove", s.turn);
                s.results.fail(name.as_str(), "empty response");
                end_turns(s)
            },
        },
        SoloStage::ReadingFinalState => {
            match ev {
                SoloEvent::GameState { success, finished } => {
                    if finished || s.game_finished {
                        s.results.pass("GetGameState (game over verification)");
                    } else {
                        s.results.fail("GetGameState (game over verification)", "is_game_finished=false");
                    }
                },
                SoloEvent::CallFailed(e) => s.results.fail("GetGameState (game over verification)", e.as_str()),
                _ => {},
            }
            s.stage = SoloStage::Replaying;
            (s, SoloAction::CreateSession { player_name: String::from_str("e2e-solo-replay") })
        },
        SoloStage::Replaying => {
            match ev {
                SoloEvent::Created { session_id, player_id } => s.results.pass("CreateSession (replay)"),
                SoloEvent::CallFailed(e) => s.results.fail("CreateSession (replay)", e.as_str()),
                _ => s.results.fail("CreateSession (replay)", "unexpected response"),
            }
            s.stage = SoloStage::Finished;
            (s, SoloAction::Finish)
        },
        SoloStage::Finished => {
            (s, SoloAction::Finish)
        },
    }
}

/// The probes of the error-path journey, in the order it makes them: calls
/// that must fail (an unknown session code, an unknown session) and a move
/// by a player who is not in the session.
#[derive(Debug, Clone, Copy, PartialEq, Eq, Structural)]
pub enum ErrorProbe {
    JoinInvalidCode,
    SessionStateInvalid,
    SetReadyInvalid,
    StartTurnInvalid,
    MakeMoveInvalid,
    GameStateInvalid,
    AvailableMovesInvalid,
    MakeMoveWrongPlayer,
}

/// The reply to a probe, in plain values.
#[derive(Debug)]
pub enum ProbeReply {
    /// The call failed at the transport (a gRPC error).
    CallFailed,
    /// A result that is an error.
    Refused,
    /// A result that is a success.
    Accepted,
    /// No result.
    Empty,
    /// A reply with a success flag and an error field. For the session
    /// state, `success` is whether it holds a game state; for the available
    /// moves, whether the list is not empty.
    Status { success: bool, has_error: bool },
}

/// The name under which a probe's check is recorded, and whether it passed;
/// a failed check's reason is `probe_reason`.
pub open spec fn probe_outcome(p: ErrorProbe, r: ProbeReply) -> (bool, Seq<char>) {
    match p {
        ErrorProbe::JoinInvalidCode => match r {
            ProbeReply::Refused => (true, "JoinSession (invalid code \u{2192} error)"@),
            ProbeReply::Accepted => (false, "JoinSession (invalid code)"@),
            ProbeReply::CallFailed => (true, "JoinSession (invalid code \u{2192} gRPC error)"@),
            _ => (true, "JoinSession (invalid code \u{2192} empty = OK)"@),
        },
        ErrorProbe::MakeMoveInvalid => match r {
            ProbeReply::Refused => (true, "MakeMove (invalid session \u{2192} error)"@),
            ProbeReply::Accepted => (false, "MakeMove (invalid session)"@),
            ProbeReply::CallFailed => (true, "MakeMove (invalid session \u{2192} gRPC error)"@),
            _ => (true, "MakeMove (invalid session \u{2192} empty = OK)"@),
        },
        ErrorProbe::MakeMoveWrongPlayer => match r {
            ProbeReply::Refused => (true, "MakeMove (wrong player_id \u{2192} error)"@),
            ProbeReply::CallFailed => (true, "MakeMove (wrong player_id \u{2192} gRPC error)"@),
            _ => (true, "MakeMove (wrong player_id \u{2192} accepted)"@),
        },
        _ => {
            let base = probe_base(p);
            match r {
                ProbeReply::CallFailed => (true, base + " (invalid session \u{2192} gRPC error)"@),
                ProbeReply::Status { success, has_error } => if !success || has_error {
                    (true, base + " (invalid session \u{2192} error)"@)
                } else {
                    (false, base + " (invalid session)"@)
                },
                _ => (true, base + " (invalid session \u{2192} error)"@),
            }
        },
    }
}

/// The call a status probe makes.
pub open spec fn probe_base(p: ErrorProbe) -> Seq<char> {
    match p {
        ErrorProbe::SessionStateInvalid => "GetSessionState"@,
        ErrorProbe::SetReadyInvalid => "SetReady"@,
        ErrorProbe::StartTurnInvalid => "StartTurn"@,
        ErrorProbe::GameStateInvalid => "GetGameState"@,
        _ => "GetAvailableMoves"@,
    }
}

/// Why a probe's check failed.
pub open spec fn probe_reason(p: ErrorProbe) -> Seq<char> {
    match p {
        ErrorProbe::JoinInvalidCode => "should have failed but succeeded"@,
        ErrorProbe::SessionStateInvalid => "returned game_state for nonexistent session"@,
        _ => "should have failed"@,
    }
}

fn probe_base_text(p: ErrorProbe) -> (r: &'static str)
    ensures
        r@ == probe_base(p),
{
    proof {
        reveal_strlit("GetSessionState");
        reveal_strlit("SetReady");
        reveal_strlit("StartTurn");
        reveal_strlit("GetGameState");
        reveal_strlit("GetAvailableMoves");
    }
    match p {
        ErrorProbe::SessionStateInvalid => "GetSessionState",
        ErrorProbe::SetReadyInvalid => "SetReady",
        ErrorProbe::StartTurnInvalid => "StartTurn",
        ErrorProbe::GameStateInvalid => "GetGameState",
        _ => "GetAvailableMoves",
    }
}

fn joined_text(a: &str, b: &str) -> (r: String)
    ensures
        r@ == a@ + b@,
{
    let mut s = String::from_str(a);
    s.append(b);
    s
}

/// Records the check of one error probe: a pass under the name its reply
/// gives, or a failure with its reason when the call that should have
/// failed succeeded.
pub fn judge_probe(results: &mut TestResults, probe: ErrorProbe, reply: ProbeReply)
    ensures
        probe_outcome(probe, reply).0 ==> passed_with(*old(results), *final(results), probe_outcome(probe, reply).1),
        !probe_outcome(probe, reply).0 ==> failed_with(
            *old(results),
            *final(results),
            probe_outcome(probe, reply).1,
            probe_reason(probe),
        ),
{
    proof {
        reveal_strlit("JoinSession (invalid code \u{2192} error)");
        reveal_strlit("JoinSession (invalid code)");
        reveal_strlit("JoinSession (invalid code \u{2192} gRPC error)");
        reveal_strlit("JoinSession (invalid code \u{2192} empty = OK)");
        reveal_strlit("MakeMove (invalid session \u{2192} error)");
        reveal_strlit("MakeMove (invalid session)");
        reveal_strlit("MakeMove (invalid session \u{2192} gRPC error)");
        reveal_strlit("MakeMove (invalid session \u{2192} empty = OK)");
        reveal_strlit("MakeMove (wrong player_id \u{2192} error)");
        reveal_strlit("MakeMove (wrong player_id \u{2192} gRPC error)");
        reveal_strlit("MakeMove (wrong player_id \u{2192} accepted)");
        reveal_strlit("should have failed but succeeded");
        reveal_strlit("returned game_state for nonexistent session");
        reveal_strlit("should have failed");
    }
    match probe {
        ErrorProbe::JoinInvalidCode => match reply {
            ProbeReply::Refused => results.pass("JoinSession (invalid code \u{2192} error)"),
            ProbeReply::Accepted => results.fail("JoinSession (invalid code)", "should have failed but succeeded"),
            ProbeReply::CallFailed => results.pass("JoinSession (invalid code \u{2192} gRPC error)"),
            _ => results.pass("JoinSession (invalid code \u{2192} empty = OK)"),
        },
        ErrorProbe::MakeMoveInvalid => match reply {
            ProbeReply::Refused => results.pass("MakeMove (invalid session \u{2192} error)"),
            ProbeReply::Accepted => results.fail("MakeMove (invalid session)", "should have failed"),
            ProbeReply::CallFailed => results.pass("MakeMove (invalid session \u{2192} gRPC error)"),
            _ => results.pass("MakeMove (invalid session \u{2192} empty = OK)"),
        },
        ErrorProbe::MakeMoveWrongPlayer => match reply {
            ProbeReply::Refused => results.pass("MakeMove (wrong player_id \u{2192} error)"),
            ProbeReply::CallFailed => results.pass("MakeMove (wrong player_id \u{2192} gRPC error)"),
            _ => results.pass("MakeMove (wrong player_id \u{2192} accepted)"),
        },
        _ => {
            let base = probe_base_text(probe);
            proof {
                reveal_strlit(" (invalid session \u{2192} gRPC error)");
                reveal_strlit(" (invalid session \u{2192} error)");
                reveal_strlit(" (invalid session)");
            }
            match reply {
                ProbeReply::CallFailed => {
                    let name = joined_text(base, " (invalid session \u{2192} gRPC error)");
                    results.pass(name.as_str());
                },
                ProbeReply::Status { success, has_error } => {
                    if !success || has_error {
                        let name = joined_text(base, " (invalid session \u{2192} error)");
                        results.pass(name.as_str());
                    } else {
                        let name = joined_text(base, " (invalid session)");
                        let reason = if probe == ErrorProbe::SessionStateInvalid {
                            "returned game_state for nonexistent session"
                        } else {
                            "should have failed"
                        };
                        results.fail(name.as_str(), reason);
                    }
                },
                _ => {
                    let name = joined_text(base, " (invalid session \u{2192} error)");
                    results.pass(name.as_str());
                },
            }
        },
    }
}

/// Where a multiplayer journey stands: which reply it waits for.
#[derive(Debug, Clone, Copy, PartialEq, Eq, Structural)]
pub enum MultiStage {
    Connecting,
    CreatingSession,
    PollingAlone,
    Joining,
    PollingTwo,
    FirstReady,
    SecondReady,
    StartingTurn,
    PlayingMoves,
    ReadingFinalState,
    Finished,
}

/// A multiplayer journey: games of two players, one after another.
pub struct MultiJourney {
    pub stage: MultiStage,
    pub total_games: u64,
    /// The game being played (counted from 0).
    pub game_num: u64,
    pub session_id: String,
    pub session_code: String,
    pub player_1: String,
    pub player_2: String,
    pub turn: u64,
    pub turns_played: u64,
    pub game_failed: bool,
    pub results: TestResults,
}

/// The call to make next in a multiplayer journey.
#[derive(Debug)]
pub enum MultiAction {
    /// Player 1 creates a session of up to 3 players in multiplayer mode.
    CreateSession { player_name: String },
    GetSessionState,
    /// Player 2 joins with the session code.
    JoinSession { session_code: String, player_name: String },
    /// Player 1, then player 2, gets ready.
    SetReady { second_player: bool },
    StartTurn,
    /// Both players move at once.
    MakeMoves { position_1: i64, position_2: i64 },
    GetGameState,
    Finish,
}

/// The reply to the last call of a multiplayer journey, in plain values.
#[derive(Debug)]
pub enum MultiEvent {
    /// All four clients are connected.
    Connected,
    /// Client `client` (0: P1 session, 1: P2 session, 2: game 1, 3: game 2)
    /// could not connect.
    ConnectFailed { client: u8, message: String },
    CallFailed(String),
    Created { session_id: String, session_code: String, player_id: String },
    Joined { player_id: String },
    Refused { code: String, message: String },
    Empty,
    /// The session state: its number of players, `None` when it holds no
    /// game state.
    SessionState { players: Option<u64> },
    /// Some reply to a call whose content is not checked.
    Answered,
    TurnStarted { success: bool, error_message: Option<String>, game_state: String },
    /// The two move replies: `Some(game_over)` for a success, `None` for
    /// anything else.
    MovesPlayed { first: Option<bool>, second: Option<bool> },
}

/// `"<check> (game <n>)"`
pub open spec fn game_check(check: Seq<char>, n: u64) -> Seq<char> {
    check + " (game "@ + nat_text(n as nat) + ")"@
}

/// The journey's counters are consistent.
pub open spec fn multi_well_formed(s: MultiJourney) -> bool {
    &&& s.turn < 19
    &&& s.turns_played <= s.turn + 1
    &&& (s.stage == MultiStage::StartingTurn || s.stage == MultiStage::PlayingMoves) ==> s.turns_played <= s.turn
    &&& s.game_num < s.total_games || s.stage == MultiStage::Finished || s.stage == MultiStage::Connecting
    &&& s.total_games < 0xffff_ffff
}

/// A multiplayer journey of `total_games` games before its first call.
pub fn multi_start(total_games: u64) -> (r: MultiJourney)
    requires
        total_games < 0xffff_ffff,
    ensures
        r.stage == MultiStage::Connecting,
        r.total_games == total_games,
        r.game_num == 0,
        multi_well_formed(r),
        r.results.passed@.len() == 0,
        r.results.failed@.len() == 0,
{
    MultiJourney {
        stage: MultiStage::Connecting,
        total_games,
        game_num: 0,
        session_id: String::new(),
        session_code: String::new(),
        player_1: String::new(),
        player_2: String::new(),
        turn: 0,
        turns_played: 0,
        game_failed: false,
        results: TestResults::new(),
    }
}

fn game_name(check: &str, n: u64) -> (r: String)
    ensures
        r@ == game_check(check@, n),
{
    proof {
        reveal_strlit(" (game ");
        reveal_strlit(")");
    }
    let mut s = String::from_str(check);
    s.append(" (game ");
    let digits = u64_text(n);
    s.append(digits.as_str());
    s.append(")");
    s
}

fn numbered_name(prefix: &str, n: u64) -> (r: String)
    ensures
        r@ == prefix@ + nat_text(n as nat),
{
    let mut s = String::from_str(prefix);
    let digits = u64_text(n);
    s.append(digits.as_str());
    s
}

/// Goes on with the next game, or finishes after the last one.
fn next_game(mut s: MultiJourney) -> (r: (MultiJourney, MultiAction))
    requires
        s.game_num < s.total_games,
        s.total_games < 0xffff_ffff,
    ensures
        multi_well_formed(r.0),
        r.0.results == s.results,
        r.0.game_num == s.game_num + 1,
        r.0.total_games == s.total_games,
        r.0.game_num == s.total_games ==> (r.0.stage == MultiStage::Finished && r.1 is Finish),
        r.0.game_num < s.total_games ==> (r.0.stage == MultiStage::CreatingSession && (r.1 matches MultiAction::CreateSession {
            player_name,
        } && player_name@ == "e2e-p1-g"@ + nat_text((s.game_num + 2) as nat))),
{
    s.game_num = s.game_num + 1;
    s.turn = 0;
    s.turns_played = 0;
    if s.game_num == s.total_games {
        s.stage = MultiStage::Finished;
        return (s, MultiAction::Finish);
    }
    proof {
        reveal_strlit("e2e-p1-g");
    }
    let name = numbered_name("e2e-p1-g", s.game_num + 1);
    s.stage = MultiStage::CreatingSession;
    (s, MultiAction::CreateSession { player_name: name })
}

/// Leaves the turn loop and reads the final game state.
fn end_multi_turns(mut s: MultiJourney) -> (r: (MultiJourney, MultiAction))
    requires
        s.turn < 19,
        s.total_games < 0xffff_ffff,
        s.game_num < s.total_games,
        s.turns_played <= s.turn + 1,
    ensures
        multi_well_formed(r.0),
        r.0.stage == MultiStage::ReadingFinalState,
        r.1 is GetGameState,
        r.0.results == s.results,
        r.0.turns_played == s.turns_played,
        r.0.game_failed == s.game_failed,
        r.0.game_num == s.game_num,
        r.0.total_games == s.total_games,
{
    s.stage = MultiStage::ReadingFinalState;
    (s, MultiAction::GetGameState)
}

/// The texts that mean a turn could not start because the game is over.
pub open spec fn game_over_text(m: Seq<char>) -> bool {
    has_infix(m, "finished"@) || has_infix(m, "over"@) || has_infix(m, "termin\u{e9}"@)
}

/// The check under which a failed connection of client `client` is
/// recorded.
pub open spec fn connect_check(client: u8) -> Seq<char> {
    if client == 0 {
        "connect P1"@
    } else if client == 1 {
        "connect P2"@
    } else if client == 2 {
        "connect game1"@
    } else {
        "connect game2"@
    }
}

/// `after` is `before` with the check `name` recorded as passed when the
/// journey is in its first game, and unchanged otherwise.
pub open spec fn first_game_pass(before: TestResults, after: TestResults, game_num: u64, name: Seq<char>) -> bool {
    if game_num == 0 {
        passed_with(before, after, name)
    } else {
        after == before
    }
}

/// The check of a lobby poll: passed when the session holds no game state
/// or at least `want` players, else failed with the count.
pub open spec fn lobby_checked(
    before: TestResults,
    after: TestResults,
    players: Option<u64>,
    want: u64,
    pass_name: Seq<char>,
    fail_name: Seq<char>,
    count_text: spec_fn(u64) -> Seq<char>,
) -> bool {
    match players {
        Some(n) => if n >= want {
            passed_with(before, after, pass_name)
        } else {
            failed_with(before, after, fail_name, count_text(n))
        },
        None => passed_with(before, after, pass_name),
    }
}

/// How one step of a multiplayer journey moves through the games: the
/// number of games never changes, the journey stays in its game or moves
/// to the next one, and it finishes only once every game is done, or when a
/// client cannot connect.
pub open spec fn multi_step_rule(s: MultiJourney, ev: MultiEvent, t: MultiJourney) -> bool {
    &&& t.total_games == s.total_games
    &&& t.game_num == s.game_num || t.game_num == s.game_num + 1
    &&& t.stage == MultiStage::Finished ==> (t.game_num == t.total_games || (s.stage == MultiStage::Connecting
        && ev is ConnectFailed))
}

/// A multiplayer journey plays all its games: along any run of steps from
/// the first game that finishes without a failed connection, the last state
/// has played every game, and every game in between was reached, in order.
pub proof fn lemma_multi_plays_every_game(states: Seq<MultiJourney>, events: Seq<MultiEvent>)
    requires
        states.len() == events.len() + 1,
        states[0].game_num == 0,
        forall|i: int| 0 <= i < events.len() ==> multi_step_rule(#[trigger] states[i], events[i], states[i + 1]),
        forall|i: int| 0 <= i < events.len() ==> !(#[trigger] events[i] is ConnectFailed),
        states.last().stage == MultiStage::Finished,
        events.len() > 0,
    ensures
        states.last().game_num == states[0].total_games,
        forall|g: u64| g <= states[0].total_games ==> #[trigger] game_reached(states, g),
{
    let n = events.len() as int;
    lemma_multi_prefix(states, events, n);
    assert(states.last() == states[n]);
    assert(multi_step_rule(states[n - 1], events[n - 1], states[n]));
    assert(!(events[n - 1] is ConnectFailed));
    assert forall|g: u64| g <= states[0].total_games implies #[trigger] game_reached(states, g) by {
        lemma_multi_reaches(states, events, events.len() as int, g);
    }
}

/// Some state of the run is in game `g`.
pub open spec fn game_reached(states: Seq<MultiJourney>, g: u64) -> bool {
    exists|i: int| 0 <= i < states.len() && #[trigger] states[i].game_num == g
}

proof fn lemma_multi_prefix(states: Seq<MultiJourney>, events: Seq<MultiEvent>, n: int)
    requires
        states.len() == events.len() + 1,
        0 <= n <= events.len(),
        forall|i: int| 0 <= i < events.len() ==> multi_step_rule(#[trigger] states[i], events[i], states[i + 1]),
    ensures
        states[n].total_games == states[0].total_games,
        states[n].game_num >= states[0].game_num,
    decreases n,
{
    if n > 0 {
        lemma_multi_prefix(states, events, n - 1);
        assert(multi_step_rule(states[n - 1], events[n - 1], states[n]));
    }
}

proof fn lemma_multi_reaches(states: Seq<MultiJourney>, events: Seq<MultiEvent>, n: int, g: u64)
    requires
        states.len() == events.len() + 1,
        0 <= n <= events.len(),
        states[0].game_num == 0,
        forall|i: int| 0 <= i < events.len() ==> multi_step_rule(#[trigger] states[i], events[i], states[i + 1]),
        g <= states[n].game_num,
    ensures
        exists|i: int| 0 <= i <= n && #[trigger] states[i].game_num == g,
    decreases n,
{
    if n == 0 {
        assert(states[0].game_num == g);
    } else {
        assert(multi_step_rule(states[n - 1], events[n - 1], states[n]));
        if states[n].game_num == g {
            assert(states[n].game_num == g);
        } else {
            lemma_multi_reaches(states, events, n - 1, g);
        }
    }
}

/// One step of a multiplayer journey: from the reply to the last call, the
/// journey's next state and the next call to make.
pub fn multi_step(s: MultiJourney, ev: MultiEvent) -> (r: (MultiJourney, MultiAction))
    requires
        multi_well_formed(s),
        s.stage != MultiStage::Finished,
        s.stage == MultiStage::Connecting ==> s.game_num == 0,
    ensures
        multi_well_formed(r.0),
        r.1 is Finish <==> r.0.stage == MultiStage::Finished,
        r.0.game_num >= s.game_num,
        multi_step_rule(s, ev, r.0),
        // After the final state of a game, the next game starts, unless it
        // was the last.
        s.stage == MultiStage::ReadingFinalState && s.game_num + 1 < s.total_games ==> (r.0.game_num == s.game_num + 1
            && r.0.stage == MultiStage::CreatingSession && (r.1 matches MultiAction::CreateSession { player_name }
            && player_name@ == "e2e-p1-g"@ + nat_text((s.game_num + 2) as nat))),
        s.stage == MultiStage::ReadingFinalState && s.game_num + 1 == s.total_games ==> (r.0.game_num == s.total_games
            && r.1 is Finish),
        // Whenever a game ends (played or failed), the next one starts with a
        // new session, unless it was the last.
        r.0.game_num == s.game_num + 1 && r.0.game_num < s.total_games ==> (r.0.stage == MultiStage::CreatingSession && (
        r.1 matches MultiAction::CreateSession { player_name } && player_name@ == "e2e-p1-g"@ + nat_text(
            (s.game_num + 2) as nat,
        ))),
        r.0.game_num == s.total_games && s.game_num < s.total_games ==> r.1 is Finish,
        // No check is ever taken back.
        keeps(s.results, r.0.results),
        // A client that cannot connect ends the journey with its failure;
        // else the first game starts.
        s.stage == MultiStage::Connecting ==> (ev matches MultiEvent::ConnectFailed { client, message } ==> (r.1 is Finish
            && failed_with(s.results, r.0.results, connect_check(client), message@))),
        s.stage == MultiStage::Connecting ==> (!(ev is ConnectFailed) ==> (r.0.results == s.results && (s.total_games
            == 0 ==> r.1 is Finish) && (s.total_games > 0 ==> (r.0.stage == MultiStage::CreatingSession && (
        r.1 matches MultiAction::CreateSession { player_name } && player_name@ == "e2e-p1-g"@ + nat_text(1)))))),
        // A created session is checked in the first game; player 2 joins
        // after the lobby poll of the first game, directly in later games.
        s.stage == MultiStage::CreatingSession ==> (ev matches MultiEvent::Created { session_id, session_code, player_id }
            ==> (r.0.player_1@ == player_id@ && first_game_pass(s.results, r.0.results, s.game_num, "P1 CreateSession"@)
            && (s.game_num == 0 ==> (r.0.stage == MultiStage::PollingAlone && r.1 is GetSessionState)) && (s.game_num
            != 0 ==> (r.0.stage == MultiStage::Joining && (r.1 matches MultiAction::JoinSession { session_code: c, player_name }
            && c@ == session_code@))))),
        s.stage == MultiStage::CreatingSession ==> (ev matches MultiEvent::CallFailed(e) ==> (r.0.game_num == s.game_num
            + 1 && failed_with(s.results, r.0.results, game_check("P1 CreateSession"@, (s.game_num + 1) as u64), e@))),
        s.stage == MultiStage::CreatingSession ==> ((ev is Empty || ev is Answered || ev is Connected) ==> (r.0.game_num
            == s.game_num + 1 && failed_with(
            s.results,
            r.0.results,
            game_check("P1 CreateSession"@, (s.game_num + 1) as u64),
            "empty"@,
        ))),
        // The lobby polls: player 1 alone, then both players.
        s.stage == MultiStage::PollingAlone ==> (r.0.stage == MultiStage::Joining && r.1 is JoinSession),
        s.stage == MultiStage::PollingAlone ==> (ev matches MultiEvent::SessionState { players } ==> lobby_checked(
            s.results,
            r.0.results,
            players,
            1,
            "GetSessionState (P1 alone in lobby)"@,
            "GetSessionState (P1 alone)"@,
            |n: u64| nat_text(n as nat) + " players"@,
        )),
        s.stage == MultiStage::PollingAlone ==> (ev matches MultiEvent::CallFailed(e) ==> failed_with(
            s.results,
            r.0.results,
            "GetSessionState (P1 alone)"@,
            e@,
        )),
        s.stage == MultiStage::PollingTwo ==> (r.0.stage == MultiStage::FirstReady && r.1 == MultiAction::SetReady {
            second_player: false,
        }),
        s.stage == MultiStage::PollingTwo ==> (ev matches MultiEvent::SessionState { players } ==> lobby_checked(
            s.results,
            r.0.results,
            players,
            2,
            "GetSessionState (2 players in lobby)"@,
            "GetSessionState (2 players)"@,
            |n: u64| "only "@ + nat_text(n as nat) + " players"@,
        )),
        s.stage == MultiStage::PollingTwo ==> (ev matches MultiEvent::CallFailed(e) ==> failed_with(
            s.results,
            r.0.results,
            "GetSessionState (2 players)"@,
            e@,
        )),
        s.stage == MultiStage::Joining ==> (ev matches MultiEvent::Joined { player_id } ==> (r.0.player_2@ == player_id@
            && first_game_pass(s.results, r.0.results, s.game_num, "P2 JoinSession"@))),
        s.stage == MultiStage::Joining ==> (ev matches MultiEvent::CallFailed(e) ==> (r.0.game_num == s.game_num + 1
            && failed_with(s.results, r.0.results, game_check("P2 JoinSession"@, (s.game_num + 1) as u64), e@))),
        // Getting ready: a failed call moves on to the next game; else the
        // check passes in the first game.
        s.stage == MultiStage::FirstReady ==> (ev matches MultiEvent::CallFailed(e) ==> (r.0.game_num == s.game_num + 1
            && failed_with(s.results, r.0.results, game_check("P1 SetReady"@, (s.game_num + 1) as u64), e@))),
        s.stage == MultiStage::FirstReady ==> (!(ev is CallFailed) ==> (r.0.stage == MultiStage::SecondReady && r.1
            == MultiAction::SetReady { second_player: true } && first_game_pass(
            s.results,
            r.0.results,
            s.game_num,
            "P1 SetReady"@,
        ))),
        s.stage == MultiStage::SecondReady ==> (ev matches MultiEvent::CallFailed(e) ==> (r.0.game_num == s.game_num + 1
            && failed_with(s.results, r.0.results, game_check("P2 SetReady"@, (s.game_num + 1) as u64), e@))),
        s.stage == MultiStage::SecondReady ==> (!(ev is CallFailed) ==> (r.0.stage == MultiStage::StartingTurn && r.1
            is StartTurn && r.0.turn == 0 && r.0.turns_played == 0 && !r.0.game_failed && first_game_pass(
            s.results,
            r.0.results,
            s.game_num,
            "P2 SetReady"@,
        ))),
        // The first turn of the first game is checked when it starts; a
        // failed call at turn 0 fails the game.
        s.stage == MultiStage::StartingTurn ==> (ev matches MultiEvent::TurnStarted { success, error_message, game_state }
            ==> (success && s.game_num == 0 && s.turn == 0 ==> (r.0.results.passed@.len() > s.results.passed@.len()
            && r.0.results.passed@[s.results.passed@.len() as int]@ == "StartTurn (multi first)"@))),
        s.stage == MultiStage::StartingTurn ==> (ev matches MultiEvent::CallFailed(e) ==> (r.0.stage
            == MultiStage::ReadingFinalState && (s.turn == 0 ==> (r.0.game_failed && failed_with(
            s.results,
            r.0.results,
            "StartTurn (game "@ + nat_text((s.game_num + 1) as nat) + " turn 0)"@,
            e@,
        ))) && (s.turn != 0 ==> r.0.results == s.results))),
        // The final read of the first game is checked.
        s.stage == MultiStage::ReadingFinalState && s.game_num == 0 ==> (ev matches MultiEvent::CallFailed(e) ==> (
        r.0.results.failed@.len() > s.results.failed@.len() && r.0.results.failed@[s.results.failed@.len() as int].0@
            == "GetGameState (multi final)"@ && r.0.results.failed@[s.results.failed@.len() as int].1@ == e@)),
        s.stage == MultiStage::ReadingFinalState && s.game_num == 0 ==> (!(ev is CallFailed) ==> (
        r.0.results.passed@.len() > s.results.passed@.len() && r.0.results.passed@[s.results.passed@.len() as int]@
            == "GetGameState (multi final)"@)),
        // A failed game start moves on to the next game with its failure.
        s.stage == MultiStage::CreatingSession ==> (ev matches MultiEvent::Refused { code, message } ==> (
        r.0.game_num == s.game_num + 1 && failed_with(
            s.results,
            r.0.results,
            game_check("P1 CreateSession"@, (s.game_num + 1) as u64),
            refusal_text(code@, message@),
        ))),
        s.stage == MultiStage::Joining ==> (ev matches MultiEvent::Refused { code, message } ==> (r.0.game_num
            == s.game_num + 1 && failed_with(
            s.results,
            r.0.results,
            game_check("P2 JoinSession"@, (s.game_num + 1) as u64),
            refusal_text(code@, message@),
        ))),
        // Both moves of a turn are counted; the loop stops at the end of the
        // game or after 19 turns.
        s.stage == MultiStage::PlayingMoves ==> (ev matches MultiEvent::MovesPlayed { first, second } ==> (
        r.0.turns_played == s.turns_played + 1 && if first == Some(true) || second == Some(true) || s.turn + 1
            == 19 {
            r.0.stage == MultiStage::ReadingFinalState && r.1 is GetGameState
        } else {
            r.0.stage == MultiStage::StartingTurn && r.1 is StartTurn && r.0.turn == s.turn + 1
        })),
        // The positions played are those picked for each player.
        r.1 matches MultiAction::MakeMoves { position_1, position_2 } ==> (ev matches MultiEvent::TurnStarted {
            success,
            error_message,
            game_state,
        } && position_for(game_state@, s.player_1@) == Ok::<i64, Seq<char>>(position_1)
            && position_for(game_state@, s.player_2@) == Ok::<i64, Seq<char>>(position_2)),
        // A turn that does not start ends the loop; only at the first turn
        // is it a failure, unless the game is over.
        s.stage == MultiStage::StartingTurn ==> (ev matches MultiEvent::TurnStarted {
            success,
            error_message,
            game_state,
        } ==> (!success ==> (r.0.stage == MultiStage::ReadingFinalState && (r.0.game_failed <==> (s.game_failed
            || (s.turn == 0 && !game_over_text(
            match error_message {
                Some(m) => m@,
                None => Seq::<char>::empty(),
            },
        ))))))),
        // After the final state, a game that did not fail is reported as
        // complete with its number of turns.
        s.stage == MultiStage::ReadingFinalState ==> (!s.game_failed ==> r.0.results.passed@.last()@ == "Game "@
            + nat_text((s.game_num + 1) as nat) + " complete ("@ + nat_text(s.turns_played as nat) + " turns)"@),
{
    let mut s = s;
    let stage = s.stage;
    match stage {
        MultiStage::Connecting => match ev {
            MultiEvent::ConnectFailed { client, message } => {
                let name = if client == 0 {
                    "connect P1"
                } else if client == 1 {
                    "connect P2"
                } else if client == 2 {
                    "connect game1"
                } else {
                    "connect game2"
                };
                s.results.fail(name, message.as_str());
                s.stage = MultiStage::Finished;
                (s, MultiAction::Finish)
            },
            _ => {
                if s.total_games == 0 {
                    s.stage = MultiStage::Finished;
                    return (s, MultiAction::Finish);
                }
                proof {
                    reveal_strlit("e2e-p1-g");
                }
                let name = numbered_name("e2e-p1-g", 1);
                s.stage = MultiStage::CreatingSession;
                (s, MultiAction::CreateSession { player_name: name })
            },
        },
        MultiStage::CreatingSession => match ev {
            MultiEvent::Created { session_id, session_code, player_id } => {
                if s.game_num == 0 {
                    s.results.pass("P1 CreateSession");
                }
                s.session_id = session_id;
                s.session_code = session_code;
                s.player_1 = player_id;
                if s.game_num == 0 {
                    s.stage = MultiStage::PollingAlone;
                    (s, MultiAction::GetSessionState)
                } else {
                    join_action(s)
                }
            },
            MultiEvent::Refused { code, message } => {
                let name = game_name("P1 CreateSession", s.game_num + 1);
                let reason = refusal(code.as_str(), message.as_str());
                s.results.fail(name.as_str(), reason.as_str());
                next_game(s)
            },
            MultiEvent::CallFailed(e) => {
                let name = game_name("P1 CreateSession", s.game_num + 1);
                s.results.fail(name.as_str(), e.as_str());
                next_game(s)
            },
            _ => {
                let name = game_name("P1 CreateSession", s.game_num + 1);
                s.results.fail(name.as_str(), "empty");
                next_game(s)
            },
        },
        MultiStage::PollingAlone => {
            match ev {
                MultiEvent::SessionState { players } => match players {
                    Some(n) => {
                        if n >= 1 {
                            s.results.pass("GetSessionState (P1 alone in lobby)");
                        } else {
                            proof {
                                reveal_strlit(" players");
                            }
                            let digits = u64_text(n);
                            let reason = joined_text(digits.as_str(), " players");
                            s.results.fail("GetSessionState (P1 alone)", reason.as_str());
                        }
                    },
                    None => s.results.pass("GetSessionState (P1 alone in lobby)"),
                },
                MultiEvent::CallFailed(e) => s.results.fail("GetSessionState (P1 alone)", e.as_str()),
                _ => {},
            }
            join_action(s)
        },
        MultiStage::Joining => match ev {
            MultiEvent::Joined { player_id } => {
                if s.game_num == 0 {
                    s.results.pass("P2 JoinSession");
                }
                s.player_2 = player_id;
                if s.game_num == 0 {
                    s.stage = MultiStage::PollingTwo;
                    (s, MultiAction::GetSessionState)
                } else {
                    s.stage = MultiStage::FirstReady;
                    (s, MultiAction::SetReady { second_player: false })
                }
            },
            MultiEvent::Refused { code, message } => {
                let name = game_name("P2 JoinSession", s.game_num + 1);
                let reason = refusal(code.as_str(), message.as_str());
                s.results.fail(name.as_str(), reason.as_str());
                next_game(s)
            },
            MultiEvent::CallFailed(e) => {
                let name = game_name("P2 JoinSession", s.game_num + 1);
                s.results.fail(name.as_str(), e.as_str());
                next_game(s)
            },
            _ => {
                let name = game_name("P2 JoinSession", s.game_num + 1);
                s.results.fail(name.as_str(), "empty");
                next_game(s)
            },
        },
        MultiStage::PollingTwo => {
            match ev {
                MultiEvent::SessionState { players } => match players {
                    Some(n) => {
                        if n >= 2 {
                            s.results.pass("GetSessionState (2 players in lobby)");
                        } else {
                            proof {
                                reveal_strlit("only ");
                                reveal_strlit(" players");
                            }
                            let head = numbered_name("only ", n);
                            let reason = joined_text(head.as_str(), " players");
                            s.results.fail("GetSessionState (2 players)", reason.as_str());
                        }
                    },
                    None => s.results.pass("GetSessionState (2 players in lobby)"),
                },
                MultiEvent::CallFailed(e) => s.results.fail("GetSessionState (2 players)", e.as_str()),
                _ => {},
            }
            s.stage = MultiStage::FirstReady;
            (s, MultiAction::SetReady { second_player: false })
        },
        MultiStage::FirstReady => match ev {
            MultiEvent::CallFailed(e) => {
                let name = game_name("P1 SetReady", s.game_num + 1);
                s.results.fail(name.as_str(), e.as_str());
                next_game(s)
            },
            _ => {
                if s.game_num == 0 {
                    s.results.pass("P1 SetReady");
                }
                s.stage = MultiStage::SecondReady;
                (s, MultiAction::SetReady { second_player: true })
            },
        },
        MultiStage::SecondReady => match ev {
            MultiEvent::CallFailed(e) => {
                let name = game_name("P2 SetReady", s.game_num + 1);
                s.results.fail(name.as_str(), e.as_str());
                next_game(s)
            },
            _ => {
                if s.game_num == 0 {
                    s.results.pass("P2 SetReady");
                }
                s.turn = 0;
                s.turns_played = 0;
                s.game_failed = false;
                s.stage = MultiStage::StartingTurn;
                (s, MultiAction::StartTurn)
            },
        },
        MultiStage::StartingTurn => match ev {
            MultiEvent::TurnStarted { success, error_message, game_state } => {
                if !success {
                    let msg = match error_message {
                        Some(m) => m,
                        None => String::new(),
                    };
                    proof {
                        reveal_strlit("finished");
                        reveal_strlit("over");
                        reveal_strlit("termin\u{e9}");
                    }
                    let over = contains_text(msg.as_str(), "finished") || contains_text(msg.as_str(), "over")
                        || contains_text(msg.as_str(), "termin\u{e9}");
                    if !over && s.turn == 0 {
                        let full = turn_zero_name(s.game_num + 1);
                        s.results.fail(full.as_str(), msg.as_str());
                        s.game_failed = true;
                    }
                    return end_multi_turns(s);
                }
                if s.game_num == 0 && s.turn == 0 {
                    s.results.pass("StartTurn (multi first)");
                }
                let first = pick_position(game_state.as_str(), s.player_1.as_str());
                let second = pick_position(game_state.as_str(), s.player_2.as_str());
                match (first, second) {
                    (Ok(p1), Ok(p2)) => {
                        s.stage = MultiStage::PlayingMoves;
                        (s, MultiAction::MakeMoves { position_1: p1, position_2: p2 })
                    },
                    _ => end_multi_turns(s),
                }
            },
            MultiEvent::CallFailed(e) => {
                if s.turn == 0 {
                    let full = turn_zero_name(s.game_num + 1);
                    s.results.fail(full.as_str(), e.as_str());
                    s.game_failed = true;
                }
                end_multi_turns(s)
            },
            _ => end_multi_turns(s),
        },
        MultiStage::PlayingMoves => match ev {
            MultiEvent::MovesPlayed { first, second } => {
                s.turns_played = s.turns_played + 1;
                let over = match first {
                    Some(true) => true,
                    _ => match second {
                        Some(true) => true,
                        _ => false,
                    },
                };
                if over || s.turn + 1 == 19 {
                    return end_multi_turns(s);
                }
                s.turn = s.turn + 1;
                s.stage = MultiStage::StartingTurn;
                (s, MultiAction::StartTurn)
            },
            _ => end_multi_turns(s),
        },
        MultiStage::ReadingFinalState => {
            match ev {
                MultiEvent::CallFailed(e) => {
                    if s.game_num == 0 {
                        s.results.fail("GetGameState (multi final)", e.as_str());
                    }
                },
                _ => {
                    if s.game_num == 0 {
                        s.results.pass("GetGameState (multi final)");
                    }
                },
            }
            if !s.game_failed {
                proof {
                    reveal_strlit("Game ");
                    reveal_strlit(" complete (");
                    reveal_strlit(" turns)");
                }
                let head = numbered_name("Game ", s.game_num + 1);
                let mid = joined_text(head.as_str(), " complete (");
                let with_turns = numbered_name(mid.as_str(), s.turns_played);
                let name = joined_text(with_turns.as_str(), " turns)");
                s.results.pass(name.as_str());
            }
            next_game(s)
        },
        MultiStage::Finished => (s, MultiAction::Finish),
    }
}

/// `"StartTurn (game <n> turn 0)"`
fn turn_zero_name(n: u64) -> (r: String)
    ensures
        r@ == "StartTurn (game "@ + nat_text(n as nat) + " turn 0)"@,
{
    proof {
        reveal_strlit("StartTurn (game ");
        reveal_strlit(" turn 0)");
    }
    let head = numbered_name("StartTurn (game ", n);
    joined_text(head.as_str(), " turn 0)")
}

/// Player 2 joins the session with its code.
fn join_action(mut s: MultiJourney) -> (r: (MultiJourney, MultiAction))
    requires
        multi_well_formed(s),
        s.game_num < s.total_games,
    ensures
        multi_well_formed(r.0),
        r.0.stage == MultiStage::Joining,
        r.0.results == s.results,
        r.0.game_num == s.game_num,
        r.0.total_games == s.total_games,
        r.0.player_1 == s.player_1,
        r.1 matches MultiAction::JoinSession { session_code, player_name } && session_code@ == s.session_code@
            && player_name@ == "e2e-p2-g"@ + nat_text((s.game_num + 1) as nat),
{
    proof {
        reveal_strlit("e2e-p2-g");
    }
    let name = numbered_name("e2e-p2-g", s.game_num + 1);
    let code = String::from_str(s.session_code.as_str());
    s.stage = MultiStage::Joining;
    (s, MultiAction::JoinSession { session_code: code, player_name: name })
}

} // verus!
