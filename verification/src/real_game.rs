//! The real-game journey: games in which the server's AI places each tile.
//! A game draws 19 of the 27 tiles at random, and for each one in turn asks
//! the AI where to put it, given the board and the free cells; the board
//! takes the tile where the AI says. A position that is not free, or an AI
//! that fails, ends the game.

use vstd::prelude::*;
use rand::seq::SliceRandom;
use rand::SeedableRng;
use crate::e2e::failed_with;
use crate::random::random_bytes;
use crate::stats::TestResults;
use crate::text::{i64_text, int_text, nat_text, u64_text};

verus! {

broadcast use vstd::seq_lib::group_to_multiset_ensures;

/// The 27 tiles, by their codes: the first digit is 1, 5 or 9, the second
/// 2, 6 or 7, the third 3, 4 or 8.
pub open spec fn all_tile_codes() -> Seq<u16> {
    seq![
        123u16, 124, 128, 163, 164, 168, 173, 174, 178,
        523, 524, 528, 563, 564, 568, 573, 574, 578,
        923, 924, 928, 963, 964, 968, 973, 974, 978,
    ]
}

fn tile_codes() -> (r: Vec<u16>)
    ensures
        r@ == all_tile_codes(),
{
    let r: Vec<u16> = vec![
        123, 124, 128, 163, 164, 168, 173, 174, 178,
        523, 524, 528, 563, 564, 568, 573, 574, 578,
        923, 924, 928, 963, 964, 968, 973, 974, 978,
    ];
    assert(r@ =~= all_tile_codes());
    r
}

/// Calls `SliceRandom::shuffle` of the `rand` crate on `deck`, with a
/// `StdRng` seeded from `seed`. Claimed: the result holds the same tiles as
/// `deck`, in some order; nothing is claimed of the order.
#[verifier::external_body]
fn shuffled(deck: Vec<u16>, seed: &Vec<u8>) -> (r: Vec<u16>)
    requires
        seed@.len() == 32,
    ensures
        r@.to_multiset() == deck@.to_multiset(),
{
    let mut key = [0u8; 32];
    key.copy_from_slice(seed.as_slice());
    let mut rng = rand::rngs::StdRng::from_seed(key);
    let mut d = deck;
    d.shuffle(&mut rng);
    d
}

/// `tiles` is a draw of the game: the first 19 of the 27 tiles in some order.
pub open spec fn is_draw(tiles: Seq<u16>) -> bool {
    exists|p: Seq<u16>| p.to_multiset() == all_tile_codes().to_multiset() && tiles == #[trigger] p.take(19)
}

/// A draw of 19 tiles, shuffled with a seed from the system's random
/// source; `None` when the source fails.
pub fn draw_tiles() -> (r: Option<Vec<u16>>)
    ensures
        r matches Some(t) ==> is_draw(t@),
{
    let seed = match random_bytes(32) {
        Some(b) => b,
        None => return None,
    };
    let deck = shuffled(tile_codes(), &seed);
    proof {
        assert(deck@.len() == 27) by {
            assert(deck@.to_multiset().len() == all_tile_codes().to_multiset().len());
        }
    }
    let mut t: Vec<u16> = Vec::new();
    let mut i: usize = 0;
    while i < 19
        invariant
            i <= 19,
            deck@.len() == 27,
            t@ == deck@.take(i as int),
        decreases 19 - i,
    {
        t.push(deck[i]);
        i = i + 1;
        assert(t@ =~= deck@.take(i as int));
    }
    assert(is_draw(t@));
    Some(t)
}

/// Where a real-game journey stands.
#[derive(Debug, Clone, Copy, PartialEq, Eq, Structural)]
pub enum RealStage {
    Connecting,
    Playing,
    Finished,
}

/// A real-game journey: its games one after another.
pub struct RealJourney {
    pub stage: RealStage,
    pub total_games: u64,
    /// The game being played (counted from 0).
    pub game_num: u64,
    /// The 19 tiles of the game, in the order they come.
    pub tiles: Vec<u16>,
    /// The 19 cells: 0 for a free cell, else the code of its tile.
    pub board: Vec<u16>,
    /// The turn being played: the tile `tiles[turn]` waits for its cell.
    pub turn: u64,
    pub results: TestResults,
}

/// The call to make next.
#[derive(Debug)]
pub enum RealAction {
    /// Ask the AI where to put the tile.
    GetAiMove { tile_code: String, board_state: Vec<String>, available_positions: Vec<i32>, turn_number: i32 },
    /// The journey is over: report the results.
    Finish,
}

/// The reply to the last call, in plain values.
#[derive(Debug)]
pub enum RealEvent {
    Connected,
    ConnectFailed(String),
    /// The call itself failed, with the transport's message.
    CallFailed(String),
    /// The AI's answer: its position, or the text of its error.
    AiMove { success: bool, recommended_position: i32, error: Option<String> },
}

/// The text of a cell on the board sent to the AI: empty when free, else
/// the tile's code.
pub open spec fn cell_text(c: u16) -> Seq<char> {
    if c == 0 {
        Seq::empty()
    } else {
        nat_text(c as nat)
    }
}

/// The free cells among the first `n` cells, in order.
pub open spec fn free_upto(b: Seq<u16>, n: int) -> Seq<i32>
    decreases n,
{
    if n <= 0 {
        Seq::empty()
    } else if b[n - 1] == 0 {
        free_upto(b, n - 1).push((n - 1) as i32)
    } else {
        free_upto(b, n - 1)
    }
}

/// The free cells of the board, in order.
pub open spec fn free_cells(b: Seq<u16>) -> Seq<i32> {
    free_upto(b, b.len() as int)
}

/// The number of taken cells among the first `n`.
pub open spec fn filled_upto(b: Seq<u16>, n: int) -> nat
    decreases n,
{
    if n <= 0 {
        0
    } else if b[n - 1] != 0 {
        filled_upto(b, n - 1) + 1
    } else {
        filled_upto(b, n - 1)
    }
}

/// The items of a list, separated by `", "`.
pub open spec fn items_text(s: Seq<i32>) -> Seq<char>
    decreases s.len(),
{
    if s.len() == 0 {
        Seq::empty()
    } else if s.len() == 1 {
        int_text(s[0] as int)
    } else {
        items_text(s.drop_last()) + ", "@ + int_text(s.last() as int)
    }
}

/// A list as Rust's `{:?}` writes it: `[a, b, c]`.
pub open spec fn list_text(s: Seq<i32>) -> Seq<char> {
    "["@ + items_text(s) + "]"@
}

/// `"GetAiMove (game <n> turn <t>)"`
pub open spec fn ai_check(n: nat, t: nat) -> Seq<char> {
    "GetAiMove (game "@ + nat_text(n) + " turn "@ + nat_text(t) + ")"@
}

/// `"pos <p> not in available <list>"`
pub open spec fn misplaced_text(p: i32, free: Seq<i32>) -> Seq<char> {
    "pos "@ + int_text(p as int) + " not in available "@ + list_text(free)
}

/// `"Game <n> complete (19/19 tiles)"`
pub open spec fn complete_text(n: nat) -> Seq<char> {
    "Game "@ + nat_text(n) + " complete (19/19 tiles)"@
}

/// `"Game <n> partial (<f>/19 tiles)"`
pub open spec fn partial_text(n: nat, f: nat) -> Seq<char> {
    "Game "@ + nat_text(n) + " partial ("@ + nat_text(f) + "/19 tiles)"@
}

/// The journey's state is consistent: a game in play has a drawn hand of
/// tiles, a board of 19 cells, and a turn within the game.
pub open spec fn real_well_formed(s: RealJourney) -> bool {
    &&& s.total_games < 0xffff_ffff
    &&& s.stage == RealStage::Connecting ==> s.game_num == 0
    &&& s.stage == RealStage::Playing ==> {
        &&& s.game_num < s.total_games
        &&& s.tiles@.len() == 19
        &&& s.board@.len() == 19
        &&& s.turn < 19
        &&& is_draw(s.tiles@)
    }
}

/// The action asks the AI for the cell of the turn's tile, with the board
/// and its free cells, of which there is at least one.
pub open spec fn asks_for_move(s: RealJourney, a: RealAction) -> bool {
    a matches RealAction::GetAiMove { tile_code, board_state, available_positions, turn_number } && {
        &&& tile_code@ == nat_text(s.tiles@[s.turn as int] as nat)
        &&& board_state@.len() == s.board@.len()
        &&& forall|i: int| 0 <= i < s.board@.len() ==> #[trigger] board_state@[i]@ == cell_text(s.board@[i])
        &&& available_positions@ == free_cells(s.board@)
        &&& available_positions@.len() > 0
        &&& turn_number == s.turn
    }
}

/// `after` holds the checks of `before` and then more; the first failure
/// added is `(name, reason)`.
pub open spec fn first_failure_added(before: TestResults, after: TestResults, name: Seq<char>, reason: Seq<char>) -> bool {
    &&& after.failed@.len() > before.failed@.len()
    &&& before.failed@.is_prefix_of(after.failed@)
    &&& after.failed@[before.failed@.len() as int].0@ == name
    &&& after.failed@[before.failed@.len() as int].1@ == reason
}

/// A real-game journey of `total_games` games before its first reply.
pub fn real_journey_start(total_games: u64) -> (r: RealJourney)
    requires
        total_games < 0xffff_ffff,
    ensures
        r.stage == RealStage::Connecting,
        r.total_games == total_games,
        r.game_num == 0,
        real_well_formed(r),
        r.results.passed@.len() == 0,
        r.results.failed@.len() == 0,
{
    RealJourney {
        stage: RealStage::Connecting,
        total_games,
        game_num: 0,
        tiles: Vec::new(),
        board: Vec::new(),
        turn: 0,
        results: TestResults::new(),
    }
}

fn free_cells_of(board: &Vec<u16>) -> (r: Vec<i32>)
    requires
        board@.len() <= 19,
    ensures
        r@ == free_cells(board@),
{
    let mut r: Vec<i32> = Vec::new();
    let mut i: usize = 0;
    while i < board.len()
        invariant
            i <= board@.len() <= 19,
            r@ == free_upto(board@, i as int),
        decreases board.len() - i,
    {
        if board[i] == 0 {
            r.push(i as i32);
        }
        i = i + 1;
    }
    r
}

fn filled_count(board: &Vec<u16>) -> (r: u64)
    requires
        board@.len() <= 19,
    ensures
        r == filled_upto(board@, board@.len() as int),
{
    let mut r: u64 = 0;
    let mut i: usize = 0;
    while i < board.len()
        invariant
            i <= board@.len() <= 19,
            r == filled_upto(board@, i as int),
            r <= i,
        decreases board.len() - i,
    {
        if board[i] != 0 {
            r = r + 1;
        }
        i = i + 1;
    }
    r
}

fn holds(v: &Vec<i32>, x: i32) -> (r: bool)
    ensures
        r == v@.contains(x),
{
    let mut i: usize = 0;
    while i < v.len()
        invariant
            i <= v@.len(),
            forall|j: int| 0 <= j < i ==> v@[j] != x,
        decreases v.len() - i,
    {
        if v[i] == x {
            return true;
        }
        i = i + 1;
    }
    false
}

fn list_of(v: &Vec<i32>) -> (r: String)
    ensures
        r@ == list_text(v@),
{
    proof {
        reveal_strlit("[");
        reveal_strlit("]");
        reveal_strlit(", ");
    }
    let mut items = String::new();
    let mut i: usize = 0;
    while i < v.len()
        invariant
            i <= v@.len(),
            items@ == items_text(v@.take(i as int)),
        decreases v.len() - i,
    {
        let item = i64_text(v[i] as i64);
        if i > 0 {
            items.append(", ");
        }
        items.append(item.as_str());
        proof {
            let t = v@.take(i + 1);
            assert(t.drop_last() =~= v@.take(i as int));
            assert(t.last() == v@[i as int]);
            if i == 0 {
                assert(items_text(v@.take(0)) =~= Seq::<char>::empty());
                assert(items@ =~= int_text(v@[0] as int));
            }
        }
        i = i + 1;
    }
    assert(v@.take(v@.len() as int) =~= v@);
    let mut r = String::from_str("[");
    r.append(items.as_str());
    r.append("]");
    r
}

fn cell_of(c: u16) -> (r: String)
    ensures
        r@ == cell_text(c),
{
    if c == 0 {
        String::new()
    } else {
        u64_text(c as u64)
    }
}

fn board_texts(board: &Vec<u16>) -> (r: Vec<String>)
    ensures
        r@.len() == board@.len(),
        forall|i: int| 0 <= i < board@.len() ==> #[trigger] r@[i]@ == cell_text(board@[i]),
{
    let mut r: Vec<String> = Vec::new();
    let mut i: usize = 0;
    while i < board.len()
        invariant
            i <= board@.len(),
            r@.len() == i,
            forall|j: int| 0 <= j < i ==> #[trigger] r@[j]@ == cell_text(board@[j]),
        decreases board.len() - i,
    {
        let c = cell_of(board[i]);
        r.push(c);
        i = i + 1;
    }
    r
}

proof fn lemma_free_cell(b: Seq<u16>, n: int, x: i32)
    requires
        0 <= n <= b.len() <= 19,
        free_upto(b, n).contains(x),
    ensures
        0 <= x < n,
        b[x as int] == 0,
    decreases n,
{
    if n > 0 {
        let prev = free_upto(b, n - 1);
        let last = (n - 1) as i32;
        if b[n - 1] == 0 && x != last {
            let k = choose|k: int| 0 <= k < prev.push(last).len() && #[trigger] prev.push(last)[k] == x;
            assert(k < prev.len());
            assert(prev[k] == x);
            lemma_free_cell(b, n - 1, x);
        } else if b[n - 1] != 0 {
            lemma_free_cell(b, n - 1, x);
        }
    }
}

proof fn lemma_empty_board_free(b: Seq<u16>, n: int)
    requires
        0 <= n <= b.len(),
        forall|i: int| 0 <= i < b.len() ==> b[i] == 0,
    ensures
        free_upto(b, n).len() == n,
    decreases n,
{
    if n > 0 {
        lemma_empty_board_free(b, n - 1);
    }
}

fn move_request(s: &RealJourney, free: Vec<i32>) -> (a: RealAction)
    requires
        real_well_formed(*s),
        s.stage == RealStage::Playing,
        free@ == free_cells(s.board@),
        free@.len() > 0,
    ensures
        asks_for_move(*s, a),
{
    let tile_code = u64_text(s.tiles[s.turn as usize] as u64);
    let board_state = board_texts(&s.board);
    RealAction::GetAiMove { tile_code, board_state, available_positions: free, turn_number: s.turn as i32 }
}

/// `"<head><n><tail>"`
fn numbered(head: &str, n: u64, tail: &str) -> (r: String)
    ensures
        r@ == head@ + nat_text(n as nat) + tail@,
{
    let mut r = String::from_str(head);
    let digits = u64_text(n);
    r.append(digits.as_str());
    r.append(tail);
    r
}

fn ai_check_name(n: u64, t: u64) -> (r: String)
    ensures
        r@ == ai_check(n as nat, t as nat),
{
    proof {
        reveal_strlit("GetAiMove (game ");
        reveal_strlit(" turn ");
        reveal_strlit(")");
    }
    let head = numbered("GetAiMove (game ", n, " turn ");
    numbered(head.as_str(), t, ")")
}

/// The journey stopped because the system's random source failed while the
/// tiles of its current game were drawn.
pub open spec fn deck_failed(t: RealJourney) -> bool {
    &&& t.results.failed@.len() > 0
    &&& t.results.failed@.last().0@ == "deck (game "@ + nat_text((t.game_num + 1) as nat) + ")"@
}

/// A game just started: its first tile is asked for, on an empty board.
pub open spec fn game_started(t: RealJourney, a: RealAction) -> bool {
    &&& t.stage == RealStage::Playing
    &&& t.turn == 0
    &&& forall|i: int| 0 <= i < t.board@.len() ==> #[trigger] t.board@[i] == 0
    &&& asks_for_move(t, a)
}

/// How one step of a real-game journey moves through the games: the number
/// of games never changes, the journey stays in its game or moves to the
/// next one, and it finishes only once every game is done, when the
/// connection fails, or when no tiles could be drawn.
pub open spec fn real_step_rule(s: RealJourney, ev: RealEvent, t: RealJourney) -> bool {
    &&& t.total_games == s.total_games
    &&& t.game_num == s.game_num || t.game_num == s.game_num + 1
    &&& t.stage == RealStage::Finished ==> (t.game_num == t.total_games || ev is ConnectFailed || deck_failed(t))
}

/// Some state of the run is in game `g`.
pub open spec fn real_game_reached(states: Seq<RealJourney>, g: u64) -> bool {
    exists|i: int| 0 <= i < states.len() && #[trigger] states[i].game_num == g
}

/// A real-game journey plays all its games, whether or not each one
/// completes: along any run of steps from the first game that finishes
/// without a failed connection or a failed draw, the last state has played
/// every game, and every game in between was reached, in order.
pub proof fn lemma_real_plays_every_game(states: Seq<RealJourney>, events: Seq<RealEvent>)
    requires
        states.len() == events.len() + 1,
        events.len() > 0,
        states[0].game_num == 0,
        forall|i: int| 0 <= i < events.len() ==> real_step_rule(#[trigger] states[i], events[i], states[i + 1]),
        forall|i: int| 0 <= i < events.len() ==> !(#[trigger] events[i] is ConnectFailed),
        states.last().stage == RealStage::Finished,
        !deck_failed(states.last()),
    ensures
        states.last().game_num == states[0].total_games,
        forall|g: u64| g <= states[0].total_games ==> #[trigger] real_game_reached(states, g),
{
    let n = events.len() as int;
    lemma_real_prefix(states, events, n);
    assert(states.last() == states[n]);
    assert(real_step_rule(states[n - 1], events[n - 1], states[n]));
    assert(!(events[n - 1] is ConnectFailed));
    assert forall|g: u64| g <= states[0].total_games implies #[trigger] real_game_reached(states, g) by {
        lemma_real_reaches(states, events, n, g);
    }
}

proof fn lemma_real_prefix(states: Seq<RealJourney>, events: Seq<RealEvent>, n: int)
    requires
        states.len() == events.len() + 1,
        0 <= n <= events.len(),
        forall|i: int| 0 <= i < events.len() ==> real_step_rule(#[trigger] states[i], events[i], states[i + 1]),
    ensures
        states[n].total_games == states[0].total_games,
    decreases n,
{
    if n > 0 {
        lemma_real_prefix(states, events, n - 1);
        assert(real_step_rule(states[n - 1], events[n - 1], states[n]));
    }
}

proof fn lemma_real_reaches(states: Seq<RealJourney>, events: Seq<RealEvent>, n: int, g: u64)
    requires
        states.len() == events.len() + 1,
        0 <= n <= events.len(),
        states[0].game_num == 0,
        forall|i: int| 0 <= i < events.len() ==> real_step_rule(#[trigger] states[i], events[i], states[i + 1]),
        g <= states[n].game_num,
    ensures
        exists|i: int| 0 <= i <= n && #[trigger] states[i].game_num == g,
    decreases n,
{
    if n == 0 {
        assert(states[0].game_num == g);
    } else {
        assert(real_step_rule(states[n - 1], events[n - 1], states[n]));
        if states[n].game_num == g {
            assert(states[n].game_num == g);
        } else {
            lemma_real_reaches(states, events, n - 1, g);
        }
    }
}

/// Draws the tiles of the next game and asks for its first move; without
/// tiles the journey ends.
fn begin_game(s: RealJourney) -> (r: (RealJourney, RealAction))
    requires
        s.game_num < s.total_games,
        s.total_games < 0xffff_ffff,
    ensures
        real_well_formed(r.0),
        r.1 is Finish <==> r.0.stage == RealStage::Finished,
        r.1 is GetAiMove ==> asks_for_move(r.0, r.1),
        r.0.total_games == s.total_games,
        r.0.game_num == s.game_num,
        r.0.results.passed@ == s.results.passed@,
        s.results.failed@.is_prefix_of(r.0.results.failed@),
        r.1 is Finish ==> deck_failed(r.0),
        r.1 is GetAiMove ==> game_started(r.0, r.1),
{
    let mut s = s;
    match draw_tiles() {
        None => {
            proof {
                reveal_strlit("deck (game ");
                reveal_strlit(")");
                reveal_strlit("Failed to generate random bytes");
            }
            let name = numbered("deck (game ", s.game_num + 1, ")");
            s.results.fail(name.as_str(), "Failed to generate random bytes");
            s.stage = RealStage::Finished;
            (s, RealAction::Finish)
        },
        Some(t) => {
            let mut board: Vec<u16> = Vec::new();
            let mut i: usize = 0;
            while i < 19
                invariant
                    i <= 19,
                    board@.len() == i,
                    forall|j: int| 0 <= j < i ==> board@[j] == 0,
                decreases 19 - i,
            {
                board.push(0);
                i = i + 1;
            }
            proof {
                lemma_empty_board_free(board@, 19);
                assert(t@.len() == 19) by {
                    let p = choose|p: Seq<u16>| p.to_multiset() == all_tile_codes().to_multiset() && t@ == #[trigger] p.take(19);
                    assert(p.len() == 27) by {
                        assert(p.to_multiset().len() == all_tile_codes().to_multiset().len());
                    }
                }
            }
            s.tiles = t;
            s.board = board;
            s.turn = 0;
            s.stage = RealStage::Playing;
            let free = free_cells_of(&s.board);
            let a = move_request(&s, free);
            (s, a)
        },
    }
}

/// Reports the game that ended (complete or partial, when no check of it
/// failed) and goes on with the next one, or finishes after the last.
fn end_game(s: RealJourney, ok: bool) -> (r: (RealJourney, RealAction))
    requires
        real_well_formed(s),
        s.stage == RealStage::Playing,
    ensures
        real_well_formed(r.0),
        r.1 is Finish <==> r.0.stage == RealStage::Finished,
        r.1 is GetAiMove ==> asks_for_move(r.0, r.1),
        r.0.game_num == s.game_num + 1,
        r.0.total_games == s.total_games,
        s.results.failed@.is_prefix_of(r.0.results.failed@),
        // The next game starts unless this was the last one or its tiles
        // could not be drawn.
        r.1 is Finish ==> (r.0.game_num == r.0.total_games || deck_failed(r.0)),
        r.0.game_num < r.0.total_games && !deck_failed(r.0) ==> game_started(r.0, r.1),
        ok && filled_upto(s.board@, 19) == 19 ==> r.0.results.passed@ == s.results.passed@.push(
            r.0.results.passed@.last(),
        ) && r.0.results.passed@.last()@ == complete_text((s.game_num + 1) as nat),
        ok && 0 < filled_upto(s.board@, 19) < 19 ==> r.0.results.passed@ == s.results.passed@.push(
            r.0.results.passed@.last(),
        ) && r.0.results.passed@.last()@ == partial_text(
            (s.game_num + 1) as nat,
            filled_upto(s.board@, 19),
        ),
        !ok || filled_upto(s.board@, 19) == 0 ==> r.0.results.passed@ == s.results.passed@,
{
    let mut s = s;
    let filled = filled_count(&s.board);
    proof {
        reveal_strlit("Game ");
        reveal_strlit(" complete (19/19 tiles)");
        reveal_strlit(" partial (");
        reveal_strlit("/19 tiles)");
    }
    if ok && filled == 19 {
        let name = numbered("Game ", s.game_num + 1, " complete (19/19 tiles)");
        s.results.pass(name.as_str());
    } else if ok && filled > 0 {
        let head = numbered("Game ", s.game_num + 1, " partial (");
        let name = numbered(head.as_str(), filled, "/19 tiles)");
        s.results.pass(name.as_str());
    }
    let ghost passed = s.results.passed@;
    let ghost failed = s.results.failed@;
    s.game_num = s.game_num + 1;
    if s.game_num == s.total_games {
        s.stage = RealStage::Finished;
        assert(failed.is_prefix_of(failed)) by {
            assert(failed.subrange(0, failed.len() as int) =~= failed);
        }
        return (s, RealAction::Finish);
    }
    let r = begin_game(s);
    proof {
        assert(passed.drop_last() =~= s.results.passed@.drop_last());
    }
    r
}

/// The reply fits the call the journey waits for.
pub open spec fn real_answers(stage: RealStage, ev: RealEvent) -> bool {
    match stage {
        RealStage::Connecting => ev is Connected || ev is ConnectFailed,
        RealStage::Playing => ev is AiMove || ev is CallFailed,
        RealStage::Finished => false,
    }
}

fn misplaced(p: i32, free: &Vec<i32>) -> (r: String)
    ensures
        r@ == misplaced_text(p, free@),
{
    proof {
        reveal_strlit("pos ");
        reveal_strlit(" not in available ");
    }
    let mut r = String::from_str("pos ");
    let digits = i64_text(p as i64);
    r.append(digits.as_str());
    r.append(" not in available ");
    let list = list_of(free);
    r.append(list.as_str());
    r
}

/// One step of a real-game journey: from the reply to the last call, the
/// journey's next state and the next call to make.
pub fn real_journey_step(s: RealJourney, ev: RealEvent) -> (r: (RealJourney, RealAction))
    requires
        real_well_formed(s),
        real_answers(s.stage, ev),
    ensures
        real_well_formed(r.0),
        r.1 is Finish <==> r.0.stage == RealStage::Finished,
        real_step_rule(s, ev, r.0),
        // When a game ends, the next one starts with a fresh draw, unless it
        // was the last one or its tiles could not be drawn.
        s.stage == RealStage::Playing && r.0.game_num == s.game_num + 1 && r.0.game_num < r.0.total_games
            && !deck_failed(r.0) ==> game_started(r.0, r.1),
        s.stage == RealStage::Connecting && !(ev is ConnectFailed) && s.total_games > 0 && !deck_failed(r.0)
            ==> (r.0.game_num == 0 && game_started(r.0, r.1)),
        // Each question to the AI carries the turn's tile, the board and its
        // free cells.
        r.1 is GetAiMove ==> asks_for_move(r.0, r.1),
        ev matches RealEvent::ConnectFailed(e) ==> failed_with(s.results, r.0.results, "connect"@, e@),
        // A position among the free cells takes the tile; the game goes on
        // while turns and free cells remain, and is reported when it ends.
        ev matches RealEvent::AiMove { success, recommended_position, error } ==> (success && free_cells(
            s.board@,
        ).contains(recommended_position) ==> ({
            let b = s.board@.update(recommended_position as int, s.tiles@[s.turn as int]);
            &&& (s.game_num == 0 && s.turn == 0) ==> r.0.results.passed@[s.results.passed@.len() as int]@
                == "GetAiMove (first tile)"@
            &&& (s.turn + 1 < 19 && free_cells(b).len() > 0) ==> (r.0.game_num == s.game_num && r.0.board@ == b
                && r.0.turn == s.turn + 1 && (r.0.results == s.results || (s.game_num == 0 && s.turn == 0)))
            &&& !(s.turn + 1 < 19 && free_cells(b).len() > 0) ==> (r.0.game_num == s.game_num + 1 && (
            filled_upto(b, 19) == 19 ==> r.0.results.passed@.last()@ == complete_text((s.game_num + 1) as nat))
                && (0 < filled_upto(b, 19) < 19 ==> r.0.results.passed@.last()@ == partial_text(
                (s.game_num + 1) as nat,
                filled_upto(b, 19),
            )))
        })),
        // A position that is not free, a failed AI or a failed call ends the
        // game with its failure, and the game is not reported.
        ev matches RealEvent::AiMove { success, recommended_position, error } ==> (success && !free_cells(
            s.board@,
        ).contains(recommended_position) ==> (r.0.game_num == s.game_num + 1 && r.0.results.passed@
            == s.results.passed@ && first_failure_added(
            s.results,
            r.0.results,
            ai_check((s.game_num + 1) as nat, s.turn as nat),
            misplaced_text(recommended_position, free_cells(s.board@)),
        ))),
        ev matches RealEvent::AiMove { success, recommended_position, error } ==> (!success ==> (r.0.game_num
            == s.game_num + 1 && r.0.results.passed@ == s.results.passed@ && first_failure_added(
            s.results,
            r.0.results,
            ai_check((s.game_num + 1) as nat, s.turn as nat),
            match error {
                Some(m) => m@,
                None => Seq::<char>::empty(),
            },
        ))),
        s.stage == RealStage::Playing ==> (ev matches RealEvent::CallFailed(e) ==> (r.0.game_num == s.game_num
            + 1 && r.0.results.passed@ == s.results.passed@ && first_failure_added(
            s.results,
            r.0.results,
            ai_check((s.game_num + 1) as nat, s.turn as nat),
            e@,
        ))),
{
    let mut s = s;
    match s.stage {
        RealStage::Connecting => match ev {
            RealEvent::ConnectFailed(e) => {
                proof {
                    reveal_strlit("connect");
                }
                s.results.fail("connect", e.as_str());
                s.stage = RealStage::Finished;
                (s, RealAction::Finish)
            },
            _ => {
                if s.total_games == 0 {
                    s.stage = RealStage::Finished;
                    return (s, RealAction::Finish);
                }
                begin_game(s)
            },
        },
        _ => {
            let name = ai_check_name(s.game_num + 1, s.turn);
            let ghost before = s.results;
            match ev {
                RealEvent::AiMove { success, recommended_position, error } => {
                    if !success {
                        let m = match error {
                            Some(m) => m,
                            None => String::new(),
                        };
                        s.results.fail(name.as_str(), m.as_str());
                        let r = end_game(s, false);
                        proof {
                            lemma_first_failure(before, s.results, r.0.results);
                        }
                        return r;
                    }
                    let free = free_cells_of(&s.board);
                    let p = recommended_position;
                    if !holds(&free, p) {
                        let reason = misplaced(p, &free);
                        s.results.fail(name.as_str(), reason.as_str());
                        let r = end_game(s, false);
                        proof {
                            lemma_first_failure(before, s.results, r.0.results);
                        }
                        return r;
                    }
                    proof {
                        lemma_free_cell(s.board@, 19, p);
                    }
                    let tile = s.tiles[s.turn as usize];
                    s.board.set(p as usize, tile);
                    if s.game_num == 0 && s.turn == 0 {
                        proof {
                            reveal_strlit("GetAiMove (first tile)");
                        }
                        s.results.pass("GetAiMove (first tile)");
                    }
                    if s.turn + 1 == 19 {
                        let ghost passed = s.results.passed@;
                        let r = end_game(s, true);
                        proof {
                            lemma_filled_bound(s.board@, 19);
                            assert(before.passed@.is_prefix_of(passed)) by {
                                assert(before.passed@ =~= passed.subrange(0, before.passed@.len() as int));
                            }
                            lemma_passed_prefix(before.passed@, passed, r.0.results.passed@);
                        }
                        return r;
                    }
                    let next = free_cells_of(&s.board);
                    if next.len() == 0 {
                        let ghost passed = s.results.passed@;
                        let r = end_game(s, true);
                        proof {
                            lemma_filled_bound(s.board@, 19);
                            assert(before.passed@.is_prefix_of(passed)) by {
                                assert(before.passed@ =~= passed.subrange(0, before.passed@.len() as int));
                            }
                            lemma_passed_prefix(before.passed@, passed, r.0.results.passed@);
                        }
                        return r;
                    }
                    s.turn = s.turn + 1;
                    let a = move_request(&s, next);
                    (s, a)
                },
                RealEvent::CallFailed(e) => {
                    s.results.fail(name.as_str(), e.as_str());
                    let r = end_game(s, false);
                    proof {
                        lemma_first_failure(before, s.results, r.0.results);
                    }
                    r
                },
                _ => end_game(s, false),
            }
        },
    }
}

proof fn lemma_first_failure(a: TestResults, b: TestResults, c: TestResults)
    requires
        b.failed@.len() == a.failed@.len() + 1,
        b.failed@.drop_last() == a.failed@,
        b.failed@.is_prefix_of(c.failed@),
    ensures
        c.failed@.len() > a.failed@.len(),
        a.failed@.is_prefix_of(c.failed@),
        c.failed@[a.failed@.len() as int] == b.failed@.last(),
{
    assert(c.failed@[a.failed@.len() as int] == b.failed@[a.failed@.len() as int]);
    assert forall|i: int| 0 <= i < a.failed@.len() implies a.failed@[i] == c.failed@[i] by {
        assert(b.failed@.drop_last()[i] == b.failed@[i]);
    }
}

proof fn lemma_passed_prefix(a: Seq<String>, b: Seq<String>, c: Seq<String>)
    requires
        a.is_prefix_of(b),
        c == b || c == b.push(c.last()),
    ensures
        a.is_prefix_of(c),
        forall|i: int| 0 <= i < b.len() ==> c[i] == b[i],
{
    assert forall|i: int| 0 <= i < a.len() implies a[i] == c[i] by {
        assert(a[i] == b.subrange(0, a.len() as int)[i]);
    }
    assert(a =~= c.subrange(0, a.len() as int));
}

proof fn lemma_filled_bound(b: Seq<u16>, n: int)
    requires
        0 <= n <= b.len(),
    ensures
        filled_upto(b, n) <= n,
    decreases n,
{
    if n > 0 {
        lemma_filled_bound(b, n - 1);
    }
}

} // verus!
