//! Rows of the training-data files: reading board samples from recorded
//! games, and the fields of the rows that the arena writes.

use vstd::prelude::*;
use crate::stats::StrategyStats;
use crate::recorded::{fields, i32_or_zero, joined, lemma_fields_of_joined, row_describes, split_commas, GameMove};
use crate::text::{
    all_digits, i64_text, int_text, is_digit, lemma_decimal_text_round_trip, lemma_nat_text_digits, nat_text,
    parse_i32, parse_usize, signed_text_value, u64_text, unsigned_text_value, within,
};

verus! {

/// The value of a field read strictly as an `i32`.
pub open spec fn strict_i32(f: Seq<char>) -> Option<int> {
    within(signed_text_value(f), i32::MIN as int, i32::MAX as int)
}

/// The value of a field read strictly as a `usize`.
pub open spec fn strict_usize(f: Seq<char>) -> Option<int> {
    within(unsigned_text_value(f), 0, usize::MAX as int)
}

/// A board seen before one move of a recorded game, with the tile placed
/// and where it went.
#[derive(Debug)]
pub struct Sample {
    pub plateau: [i32; 19],
    pub tile: (i32, i32, i32),
    pub position: usize,
    pub turn: usize,
}

/// Whether a row is kept as a sample: it has at least 28 fields, its final
/// score, turn and position read as numbers, and the score reaches
/// `min_score`.
pub open spec fn sample_kept(f: Seq<Seq<char>>, min_score: i32) -> bool {
    &&& f.len() >= 28
    &&& strict_i32(f[26]) is Some
    &&& strict_i32(f[26])->0 >= min_score
    &&& strict_usize(f[1]) is Some
    &&& strict_usize(f[25]) is Some
}

/// The sample a kept row gives: board cells and tile values that do not
/// parse count as 0.
pub open spec fn sample_of(f: Seq<Seq<char>>, s: Sample) -> bool {
    &&& s.turn as int == strict_usize(f[1])->0
    &&& s.position as int == strict_usize(f[25])->0
    &&& forall|k: int| 0 <= k < 19 ==> s.plateau@[k] as int == #[trigger] i32_or_zero(f[3 + k])
    &&& s.tile.0 as int == i32_or_zero(f[22])
    &&& s.tile.1 as int == i32_or_zero(f[23])
    &&& s.tile.2 as int == i32_or_zero(f[24])
}

fn or_zero(f: &str) -> (r: i32)
    ensures
        r as int == i32_or_zero(f@),
{
    match parse_i32(f) {
        Some(v) => v,
        None => 0,
    }
}

/// Reads one data row of a recorded-games file as a training sample, when
/// the game it comes from scored at least `min_score`.
pub fn parse_sample_line(line: &str, min_score: i32) -> (r: Option<Sample>)
    ensures
        r is Some <==> sample_kept(fields(line@), min_score),
        r matches Some(s) ==> sample_of(fields(line@), s),
{
    let parts = split_commas(line);
    if parts.len() < 28 {
        return None;
    }
    let ghost f = fields(line@);
    let final_score = match parse_i32(parts[26]) {
        Some(s) => s,
        None => return None,
    };
    if final_score < min_score {
        return None;
    }
    let turn = match parse_usize(parts[1]) {
        Some(t) => t,
        None => return None,
    };
    let mut plateau: [i32; 19] = [0; 19];
    let mut k: usize = 0;
    while k < 19
        invariant
            parts@.len() == f.len(),
            f.len() >= 28,
            forall|j: int| 0 <= j < parts@.len() ==> (#[trigger] parts@[j])@ == f[j],
            k <= 19,
            plateau@.len() == 19,
            forall|j: int| 0 <= j < k ==> plateau@[j] as int == #[trigger] i32_or_zero(f[3 + j]),
        decreases 19 - k,
    {
        plateau[k] = or_zero(parts[3 + k]);
        k = k + 1;
    }
    let tile = (or_zero(parts[22]), or_zero(parts[23]), or_zero(parts[24]));
    let position = match parse_usize(parts[25]) {
        Some(p) => p,
        None => return None,
    };
    Some(Sample { plateau, tile, position, turn })
}

/// The outcome of one arena game.
#[derive(Debug)]
pub struct GameResult {
    pub game_id: usize,
    pub model_a_score: i32,
    pub model_b_score: i32,
    pub winner: String,
    pub seed: u64,
}

/// One move played in the arena, as written to the training-data file.
#[derive(Debug)]
pub struct MoveData {
    pub game_id: usize,
    pub turn: usize,
    pub model_name: String,
    pub plateau: Vec<i32>,
    pub tile: (i32, i32, i32),
    pub position: usize,
    pub final_score: i32,
    pub won: bool,
}

/// The winner of an arena game: the name of the model with the higher
/// score, or `Tie`.
pub open spec fn winner_name(name_a: Seq<char>, name_b: Seq<char>, score_a: i32, score_b: i32) -> Seq<char> {
    if score_a > score_b {
        name_a
    } else if score_b > score_a {
        name_b
    } else {
        "Tie"@
    }
}

/// A move as it is recorded once its game is over: with its side's final
/// score and whether that side won.
pub open spec fn settled(before: MoveData, after: MoveData, score: i32, other: i32) -> bool {
    &&& after.final_score == score
    &&& after.won == (score > other)
    &&& after.game_id == before.game_id
    &&& after.turn == before.turn
    &&& after.model_name == before.model_name
    &&& after.plateau == before.plateau
    &&& after.tile == before.tile
    &&& after.position == before.position
}

/// Records on each move of one side the side's final score and whether it
/// beat the other side's score.
pub fn settle_moves(moves: Vec<MoveData>, score: i32, other: i32) -> (r: Vec<MoveData>)
    ensures
        r@.len() == moves@.len(),
        forall|i: int| 0 <= i < moves@.len() ==> settled(moves@[i], #[trigger] r@[i], score, other),
{
    let ghost original = moves@;
    let mut rest = moves;
    let mut out: Vec<MoveData> = Vec::new();
    while rest.len() > 0
        invariant
            out@.len() + rest@.len() == original.len(),
            forall|i: int| 0 <= i < out@.len() ==> settled(original[i], #[trigger] out@[i], score, other),
            forall|j: int| 0 <= j < rest@.len() ==> #[trigger] rest@[j] == original[out@.len() + j],
        decreases rest@.len(),
    {
        let m = rest.remove(0);
        assert(m == original[out@.len() as int]);
        out.push(MoveData { final_score: score, won: score > other, ..m });
    }
    out
}

/// The outcome of an arena game from the two sides' final scores, and the
/// moves of both sides (first side first), each with its side's score and
/// whether that side won.
pub fn arena_outcome(
    game_id: usize,
    name_a: &str,
    name_b: &str,
    score_a: i32,
    score_b: i32,
    seed: u64,
    moves_a: Vec<MoveData>,
    moves_b: Vec<MoveData>,
) -> (r: (GameResult, Vec<MoveData>))
    ensures
        r.0.game_id == game_id,
        r.0.model_a_score == score_a,
        r.0.model_b_score == score_b,
        r.0.seed == seed,
        r.0.winner@ == winner_name(name_a@, name_b@, score_a, score_b),
        r.1@.len() == moves_a@.len() + moves_b@.len(),
        forall|i: int| 0 <= i < moves_a@.len() ==> settled(moves_a@[i], #[trigger] r.1@[i], score_a, score_b),
        forall|i: int|
            0 <= i < moves_b@.len() ==> settled(moves_b@[i], #[trigger] r.1@[moves_a@.len() + i], score_b, score_a),
{
    proof {
        reveal_strlit("Tie");
    }
    let winner = if score_a > score_b {
        String::from_str(name_a)
    } else if score_b > score_a {
        String::from_str(name_b)
    } else {
        String::from_str("Tie")
    };
    let mut all = settle_moves(moves_a, score_a, score_b);
    let mut rest = settle_moves(moves_b, score_b, score_a);
    let ghost first = all@;
    let ghost second = rest@;
    all.append(&mut rest);
    assert forall|i: int| 0 <= i < second.len() implies #[trigger] all@[first.len() + i] == second[i] by {}
    (GameResult { game_id, model_a_score: score_a, model_b_score: score_b, winner, seed }, all)
}

/// The views of a list of strings.
pub open spec fn texts(v: Seq<String>) -> Seq<Seq<char>> {
    v.map_values(|s: String| s@)
}

/// Header of the arena's results file.
pub open spec fn results_header_fields(name_a: Seq<char>, name_b: Seq<char>) -> Seq<Seq<char>> {
    seq!["game_id"@, name_a + "_score"@, name_b + "_score"@, "winner"@, "seed"@]
}

/// Fields of one row of the arena's results file.
pub open spec fn result_fields(r: GameResult) -> Seq<Seq<char>> {
    seq![
        nat_text(r.game_id as nat),
        int_text(r.model_a_score as int),
        int_text(r.model_b_score as int),
        r.winner@,
        nat_text(r.seed as nat),
    ]
}

fn str_owned(s: &str) -> (r: String)
    ensures
        r@ == s@,
{
    String::from_str(s)
}

fn suffixed(name: &str, suffix: &str) -> (r: String)
    ensures
        r@ == name@ + suffix@,
{
    let mut s = String::from_str(name);
    s.append(suffix);
    s
}

/// The header of the arena's results file for models `name_a` and `name_b`.
pub fn results_header(name_a: &str, name_b: &str) -> (r: Vec<String>)
    ensures
        texts(r@) == results_header_fields(name_a@, name_b@),
{
    proof {
        reveal_strlit("game_id");
        reveal_strlit("_score");
        reveal_strlit("winner");
        reveal_strlit("seed");
    }
    let r = vec![
        str_owned("game_id"),
        suffixed(name_a, "_score"),
        suffixed(name_b, "_score"),
        str_owned("winner"),
        str_owned("seed"),
    ];
    assert(texts(r@) =~= results_header_fields(name_a@, name_b@));
    r
}

/// The fields of the results-file row of one game.
pub fn result_record(result: &GameResult) -> (r: Vec<String>)
    ensures
        texts(r@) == result_fields(*result),
{
    let r = vec![
        u64_text(result.game_id as u64),
        i64_text(result.model_a_score as i64),
        i64_text(result.model_b_score as i64),
        String::from_str(result.winner.as_str()),
        u64_text(result.seed),
    ];
    assert(texts(r@) =~= result_fields(*result));
    r
}

/// `"plateau_0"` to `"plateau_18"`.
pub open spec fn plateau_columns() -> Seq<Seq<char>> {
    Seq::new(19, |k: int| "plateau_"@ + nat_text(k as nat))
}

/// Header of the training-data file, as the recorded-games files have it.
pub open spec fn training_header_fields() -> Seq<Seq<char>> {
    seq!["game_id"@, "turn"@, "player_type"@] + plateau_columns() + seq![
        "tile_0"@,
        "tile_1"@,
        "tile_2"@,
        "position"@,
        "final_score"@,
        "human_won"@,
    ]
}

/// Fields of the training-data row of one move: the won column is `1` when
/// the model that played the move won its game.
pub open spec fn training_fields(m: MoveData) -> Seq<Seq<char>> {
    seq![nat_text(m.game_id as nat), nat_text(m.turn as nat), m.model_name@] + m.plateau@.map_values(
        |v: i32| int_text(v as int),
    ) + seq![
        int_text(m.tile.0 as int),
        int_text(m.tile.1 as int),
        int_text(m.tile.2 as int),
        nat_text(m.position as nat),
        int_text(m.final_score as int),
        if m.won { "1"@ } else { "0"@ },
    ]
}

fn push_all(v: &mut Vec<String>, items: Vec<String>)
    ensures
        texts(final(v)@) == texts(old(v)@) + texts(items@),
{
    let ghost start = texts(v@);
    let mut k: usize = 0;
    while k < items.len()
        invariant
            k <= items@.len(),
            texts(v@) == start + texts(items@.take(k as int)),
        decreases items@.len() - k,
    {
        let ghost prev = texts(v@);
        let item = String::from_str(items[k].as_str());
        v.push(item);
        assert(texts(v@) =~= prev.push(items@[k as int]@));
        assert(texts(items@.take(k + 1)) =~= texts(items@.take(k as int)).push(items@[k as int]@));
        k = k + 1;
        assert(texts(v@) =~= start + texts(items@.take(k as int)));
    }
    assert(items@.take(items@.len() as int) =~= items@);
}

/// The header of the training-data file.
pub fn training_header() -> (r: Vec<String>)
    ensures
        texts(r@) == training_header_fields(),
{
    proof {
        reveal_strlit("game_id");
        reveal_strlit("turn");
        reveal_strlit("player_type");
        reveal_strlit("plateau_");
    }
    let mut r: Vec<String> = vec![str_owned("game_id"), str_owned("turn"), str_owned("player_type")];
    let mut k: u64 = 0;
    while k < 19
        invariant
            k <= 19,
            texts(r@) == seq!["game_id"@, "turn"@, "player_type"@] + plateau_columns().take(k as int),
        decreases 19 - k,
    {
        let digits = u64_text(k);
        let ghost prev = texts(r@);
        let col = suffixed("plateau_", digits.as_str());
        r.push(col);
        assert(texts(r@) =~= prev.push("plateau_"@ + nat_text(k as nat)));
        assert(plateau_columns().take(k + 1) =~= plateau_columns().take(k as int).push(
            "plateau_"@ + nat_text(k as nat),
        ));
        k = k + 1;
        assert(texts(r@) =~= seq!["game_id"@, "turn"@, "player_type"@] + plateau_columns().take(k as int));
    }
    proof {
        reveal_strlit("tile_0");
        reveal_strlit("tile_1");
        reveal_strlit("tile_2");
        reveal_strlit("position");
        reveal_strlit("final_score");
        reveal_strlit("human_won");
    }
    let tail = vec![
        str_owned("tile_0"),
        str_owned("tile_1"),
        str_owned("tile_2"),
        str_owned("position"),
        str_owned("final_score"),
        str_owned("human_won"),
    ];
    push_all(&mut r, tail);
    assert(plateau_columns().take(19) =~= plateau_columns());
    assert(texts(r@) =~= training_header_fields());
    r
}

/// The fields of the training-data row of one move.
pub fn training_record(m: &MoveData) -> (r: Vec<String>)
    ensures
        texts(r@) == training_fields(*m),
{
    let mut r: Vec<String> = vec![
        u64_text(m.game_id as u64),
        u64_text(m.turn as u64),
        String::from_str(m.model_name.as_str()),
    ];
    let ghost head = texts(r@);
    let mut k: usize = 0;
    while k < m.plateau.len()
        invariant
            k <= m.plateau@.len(),
            texts(r@) == head + m.plateau@.take(k as int).map_values(|v: i32| int_text(v as int)),
        decreases m.plateau@.len() - k,
    {
        let ghost prev = texts(r@);
        let cell = i64_text(m.plateau[k] as i64);
        r.push(cell);
        assert(texts(r@) =~= prev.push(int_text(m.plateau@[k as int] as int)));
        assert(m.plateau@.take(k + 1).map_values(|v: i32| int_text(v as int)) =~= m.plateau@.take(
            k as int,
        ).map_values(|v: i32| int_text(v as int)).push(int_text(m.plateau@[k as int] as int)));
        k = k + 1;
        assert(texts(r@) =~= head + m.plateau@.take(k as int).map_values(|v: i32| int_text(v as int)));
    }
    proof {
        reveal_strlit("1");
        reveal_strlit("0");
    }
    let won = if m.won { "1" } else { "0" };
    let tail = vec![
        i64_text(m.tile.0 as i64),
        i64_text(m.tile.1 as i64),
        i64_text(m.tile.2 as i64),
        u64_text(m.position as u64),
        i64_text(m.final_score as i64),
        str_owned(won),
    ];
    push_all(&mut r, tail);
    assert(m.plateau@.take(m.plateau@.len() as int) =~= m.plateau@);
    assert(texts(r@) =~= training_fields(*m));
    r
}

proof fn lemma_number_text_plain(n: nat, i: int)
    ensures
        !nat_text(n).contains(','),
        !int_text(i).contains(','),
{
    lemma_nat_text_digits(n);
    assert(!nat_text(n).contains(',')) by {
        if nat_text(n).contains(',') {
            let k = choose|k: int| 0 <= k < nat_text(n).len() && nat_text(n)[k] == ',';
            assert(is_digit(nat_text(n)[k]));
        }
    }
    let m: nat = if i < 0 { (-i) as nat } else { i as nat };
    lemma_nat_text_digits(m);
    assert(!int_text(i).contains(',')) by {
        if int_text(i).contains(',') {
            let k = choose|k: int| 0 <= k < int_text(i).len() && int_text(i)[k] == ',';
            if i < 0 {
                if k > 0 {
                    assert(int_text(i)[k] == nat_text(m)[k - 1]);
                    assert(is_digit(nat_text(m)[k - 1]));
                }
            } else {
                assert(is_digit(nat_text(m)[k]));
            }
        }
    }
}

/// A row that the arena writes to its training-data file, once its fields
/// are put on one line with commas between them, reads back through the
/// recorded-games reader as the move it was written from, its game number
/// given as decimal text. This holds when the board has 19 cells and the
/// model's name holds no comma.
pub proof fn lemma_training_row_reads_back(m: MoveData, g: GameMove)
    requires
        m.plateau@.len() == 19,
        !m.model_name@.contains(','),
        row_describes(fields(joined(training_fields(m))), g),
    ensures
        fields(joined(training_fields(m))) == training_fields(m),
        training_fields(m).len() == 28,
        g.game_id@ == nat_text(m.game_id as nat),
        g.turn == m.turn,
        g.player_type@ == m.model_name@,
        g.plateau@ == m.plateau@,
        g.tile == m.tile,
        g.position == m.position,
        g.final_score == m.final_score,
        g.human_won == m.won,
{
    let f = training_fields(m);
    reveal_strlit("1");
    reveal_strlit("0");
    assert(f.len() == 28);
    assert forall|k: int| 0 <= k < f.len() implies !(#[trigger] f[k]).contains(',') by {
        if k == 0 {
            lemma_number_text_plain(m.game_id as nat, 0);
        } else if k == 1 {
            lemma_number_text_plain(m.turn as nat, 0);
        } else if k == 2 {
        } else if k < 22 {
            assert(f[k] == int_text(m.plateau@[k - 3] as int));
            lemma_number_text_plain(0, m.plateau@[k - 3] as int);
        } else if k == 22 {
            lemma_number_text_plain(0, m.tile.0 as int);
        } else if k == 23 {
            lemma_number_text_plain(0, m.tile.1 as int);
        } else if k == 24 {
            lemma_number_text_plain(0, m.tile.2 as int);
        } else if k == 25 {
            lemma_number_text_plain(m.position as nat, 0);
        } else if k == 26 {
            lemma_number_text_plain(0, m.final_score as int);
        } else {
            assert(!f[k].contains(',')) by {
                if f[k].contains(',') {
                    let j = choose|j: int| 0 <= j < f[k].len() && f[k][j] == ',';
                }
            }
        }
    }
    lemma_fields_of_joined(f);
    lemma_decimal_text_round_trip(m.turn as nat, 0);
    lemma_decimal_text_round_trip(m.position as nat, 0);
    lemma_decimal_text_round_trip(0, m.tile.0 as int);
    lemma_decimal_text_round_trip(0, m.tile.1 as int);
    lemma_decimal_text_round_trip(0, m.tile.2 as int);
    lemma_decimal_text_round_trip(0, m.final_score as int);
    lemma_decimal_text_round_trip(1, 1);
    lemma_decimal_text_round_trip(0, 0);
    assert(nat_text(1) =~= "1"@);
    assert(nat_text(0) =~= "0"@);
    assert(int_text(1) == nat_text(1));
    assert forall|k: int| 0 <= k < 19 implies g.plateau@[k] == m.plateau@[k] by {
        assert(f[3 + k] == int_text(m.plateau@[k] as int));
        lemma_decimal_text_round_trip(0, m.plateau@[k] as int);
        assert(g.plateau@[k] as int == i32_or_zero(fields(joined(f))[3 + k]));
    }
    assert(g.plateau@ =~= m.plateau@);
}

/// What `str::to_lowercase` makes of a text.
pub uninterp spec fn lowercase(s: Seq<char>) -> Seq<char>;

/// Calls `str::to_lowercase`. Claimed: the result is `lowercase` of the text.
#[verifier::external_body]
fn to_lowercase(s: &str) -> (r: String)
    ensures
        r@ == lowercase(s@),
{
    s.to_lowercase()
}

/// `s` with each space turned into `_` and each `(`, `)` and `,` removed.
pub open spec fn column_chars(s: Seq<char>) -> Seq<char>
    decreases s.len(),
{
    if s.len() == 0 {
        s
    } else {
        let init = column_chars(s.drop_last());
        let c = s.last();
        if c == ' ' {
            init.push('_')
        } else if c == '(' || c == ')' || c == ',' {
            init
        } else {
            init.push(c)
        }
    }
}

/// The results-file column of a strategy: its name in lower case, spaces
/// as underscores, without brackets or commas.
pub open spec fn column_name(name: Seq<char>) -> Seq<char> {
    column_chars(lowercase(name))
}

fn column_of(name: &str) -> (r: String)
    ensures
        r@ == column_name(name@),
{
    let low = to_lowercase(name);
    let t = low.as_str();
    let n = t.unicode_len();
    let mut r = String::new();
    let mut k: usize = 0;
    proof {
        reveal_strlit("_");
    }
    while k < n
        invariant
            n == t@.len(),
            t@ == lowercase(name@),
            k <= n,
            r@ == column_chars(t@.take(k as int)),
        decreases n - k,
    {
        proof {
            reveal_strlit("_");
        }
        let c = t.get_char(k);
        assert(t@.take(k + 1).drop_last() =~= t@.take(k as int));
        assert(t@.take(k + 1).last() == c);
        if c == ' ' {
            r.append("_");
        } else if c == '(' || c == ')' || c == ',' {
        } else {
            let one = t.substring_char(k, k + 1);
            assert(one@ =~= seq![c]);
            r.append(one);
        }
        k = k + 1;
    }
    assert(t@.take(n as int) =~= t@);
    r
}

/// `game_id` followed by one column per strategy, comma-separated.
pub open spec fn results_csv_header_text(names: Seq<Seq<char>>) -> Seq<char>
    decreases names.len(),
{
    if names.len() == 0 {
        "game_id"@
    } else {
        results_csv_header_text(names.drop_last()) + ","@ + column_name(names.last())
    }
}

/// The names of the strategies.
pub open spec fn strategy_names(s: Seq<StrategyStats>) -> Seq<Seq<char>> {
    s.map_values(|t: StrategyStats| t.name@)
}

/// The header line of the per-game benchmark results file.
pub fn results_csv_header(strategies: &Vec<StrategyStats>) -> (r: String)
    ensures
        r@ == results_csv_header_text(strategy_names(strategies@)),
{
    proof {
        reveal_strlit("game_id");
        reveal_strlit(",");
    }
    let mut r = String::from_str("game_id");
    let mut k: usize = 0;
    while k < strategies.len()
        invariant
            k <= strategies@.len(),
            r@ == results_csv_header_text(strategy_names(strategies@.take(k as int))),
        decreases strategies@.len() - k,
    {
        let col = column_of(strategies[k].name.as_str());
        r.append(",");
        r.append(col.as_str());
        assert(strategy_names(strategies@.take(k + 1)).drop_last() =~= strategy_names(strategies@.take(k as int)));
        k = k + 1;
    }
    assert(strategies@.take(strategies@.len() as int) =~= strategies@);
    r
}

/// The game id followed by each strategy's score in game `i`,
/// comma-separated.
pub open spec fn results_csv_row_text(game_id: Seq<char>, s: Seq<StrategyStats>, i: int) -> Seq<char>
    decreases s.len(),
{
    if s.len() == 0 {
        game_id
    } else {
        results_csv_row_text(game_id, s.drop_last(), i) + ","@ + int_text(s.last().scores@[i] as int)
    }
}

/// The line of the per-game benchmark results file for game `i`.
pub fn results_csv_row(game_id: &str, strategies: &Vec<StrategyStats>, i: usize) -> (r: String)
    requires
        forall|k: int| 0 <= k < strategies@.len() ==> i < (#[trigger] strategies@[k]).scores@.len(),
    ensures
        r@ == results_csv_row_text(game_id@, strategies@, i as int),
{
    proof {
        reveal_strlit(",");
    }
    let mut r = String::from_str(game_id);
    let mut k: usize = 0;
    while k < strategies.len()
        invariant
            k <= strategies@.len(),
            forall|q: int| 0 <= q < strategies@.len() ==> i < (#[trigger] strategies@[q]).scores@.len(),
            r@ == results_csv_row_text(game_id@, strategies@.take(k as int), i as int),
        decreases strategies@.len() - k,
    {
        let score = i64_text(strategies[k].scores[i] as i64);
        r.append(",");
        r.append(score.as_str());
        assert(strategies@.take(k + 1).drop_last() =~= strategies@.take(k as int));
        k = k + 1;
    }
    assert(strategies@.take(strategies@.len() as int) =~= strategies@);
    r
}

/// `prefix` followed by `0,`, then `prefix` followed by `1,`, up to `n - 1`.
pub open spec fn numbered(prefix: Seq<char>, n: nat) -> Seq<char>
    decreases n,
{
    if n == 0 {
        Seq::<char>::empty()
    } else {
        numbered(prefix, (n - 1) as nat) + prefix + nat_text((n - 1) as nat) + ","@
    }
}

/// Header line of the Q-value file.
pub open spec fn qvalues_header_text() -> Seq<char> {
    "game_id,turn,"@ + numbered("plateau_"@, 19) + "tile_0,tile_1,tile_2,best_position,final_score,"@ + numbered(
        "qvalue_"@,
        18,
    ) + "qvalue_18"@
}

fn append_numbered(r: &mut String, prefix: &str, n: u64)
    requires
        n <= 19,
    ensures
        final(r)@ == old(r)@ + numbered(prefix@, n as nat),
{
    let ghost start = r@;
    let mut k: u64 = 0;
    while k < n
        invariant
            k <= n,
            r@ == start + numbered(prefix@, k as nat),
        decreases n - k,
    {
        proof {
            reveal_strlit(",");
        }
        let digits = u64_text(k);
        r.append(prefix);
        r.append(digits.as_str());
        r.append(",");
        k = k + 1;
        assert(r@ =~= start + numbered(prefix@, k as nat));
    }
}

/// The header line of the Q-value file.
pub fn qvalues_header() -> (r: String)
    ensures
        r@ == qvalues_header_text(),
{
    proof {
        reveal_strlit("game_id,turn,");
        reveal_strlit("plateau_");
        reveal_strlit("tile_0,tile_1,tile_2,best_position,final_score,");
        reveal_strlit("qvalue_");
        reveal_strlit("qvalue_18");
    }
    let mut r = String::from_str("game_id,turn,");
    append_numbered(&mut r, "plateau_", 19);
    r.append("tile_0,tile_1,tile_2,best_position,final_score,");
    append_numbered(&mut r, "qvalue_", 18);
    r.append("qvalue_18");
    assert(r@ =~= qvalues_header_text());
    r
}

/// Each value of `s` followed by a comma.
pub open spec fn values_with_commas(s: Seq<i32>) -> Seq<char>
    decreases s.len(),
{
    if s.len() == 0 {
        Seq::<char>::empty()
    } else {
        values_with_commas(s.drop_last()) + int_text(s.last() as int) + ","@
    }
}

/// The whole-number columns that open a line of the Q-value file, each
/// followed by a comma.
pub open spec fn qvalue_row_start_text(
    game_id: i32,
    turn: i32,
    plateau: Seq<i32>,
    tile: (i32, i32, i32),
    best_position: usize,
    final_score: i32,
) -> Seq<char> {
    int_text(game_id as int) + ","@ + int_text(turn as int) + ","@ + values_with_commas(plateau) + int_text(
        tile.0 as int,
    ) + ","@ + int_text(tile.1 as int) + ","@ + int_text(tile.2 as int) + ","@ + nat_text(best_position as nat)
        + ","@ + int_text(final_score as int) + ","@
}

fn append_number(r: &mut String, v: i64)
    ensures
        final(r)@ == old(r)@ + int_text(v as int) + ","@,
{
    proof {
        reveal_strlit(",");
    }
    let t = i64_text(v);
    r.append(t.as_str());
    r.append(",");
}

/// The opening, whole-number part of a line of the Q-value file; the line
/// goes on with the nineteen Q-values.
pub fn qvalue_row_start(
    game_id: i32,
    turn: i32,
    plateau: &Vec<i32>,
    tile: (i32, i32, i32),
    best_position: usize,
    final_score: i32,
) -> (r: String)
    ensures
        r@ == qvalue_row_start_text(game_id, turn, plateau@, tile, best_position, final_score),
{
    let mut r = String::new();
    append_number(&mut r, game_id as i64);
    append_number(&mut r, turn as i64);
    let ghost head = r@;
    let mut k: usize = 0;
    while k < plateau.len()
        invariant
            k <= plateau@.len(),
            r@ == head + values_with_commas(plateau@.take(k as int)),
        decreases plateau@.len() - k,
    {
        append_number(&mut r, plateau[k] as i64);
        assert(plateau@.take(k + 1).drop_last() =~= plateau@.take(k as int));
        k = k + 1;
        assert(r@ =~= head + values_with_commas(plateau@.take(k as int)));
    }
    assert(plateau@.take(plateau@.len() as int) =~= plateau@);
    append_number(&mut r, tile.0 as i64);
    append_number(&mut r, tile.1 as i64);
    append_number(&mut r, tile.2 as i64);
    proof {
        reveal_strlit(",");
    }
    let best = u64_text(best_position as u64);
    r.append(best.as_str());
    r.append(",");
    append_number(&mut r, final_score as i64);
    assert(r@ =~= qvalue_row_start_text(game_id, turn, plateau@, tile, best_position, final_score));
    r
}

/// One input row of the Q-value generator.
#[derive(Debug)]
pub struct InputExample {
    pub game_id: i32,
    pub turn: i32,
    pub plateau_state: Vec<i32>,
    pub tile: (i32, i32, i32),
    pub position: usize,
    pub final_score: i32,
}

/// Field `k` of an input row reads as the number it must hold: the
/// position (field 24) as a `usize`, the fields before it as `i32`s.
pub open spec fn example_field_ok(f: Seq<Seq<char>>, k: int) -> bool {
    if k == 24 {
        strict_usize(f[24]) is Some
    } else {
        strict_i32(f[k]) is Some
    }
}

/// The first of the fields `k..25` of an input row that does not read as
/// its number.
pub open spec fn first_bad_field(f: Seq<Seq<char>>, k: int) -> Option<int>
    decreases 25 - k,
{
    if k >= 25 {
        None
    } else if !example_field_ok(f, k) {
        Some(k)
    } else {
        first_bad_field(f, k + 1)
    }
}

/// The example an input row whose first 25 fields read gives: game id,
/// turn, 19 board cells, three tile values and position, then the final
/// score, 0 when it does not parse.
pub open spec fn example_of(f: Seq<Seq<char>>, e: InputExample) -> bool {
    &&& e.game_id as int == strict_i32(f[0])->0
    &&& e.turn as int == strict_i32(f[1])->0
    &&& e.plateau_state@.len() == 19
    &&& forall|k: int| 0 <= k < 19 ==> e.plateau_state@[k] as int == #[trigger] strict_i32(f[2 + k])->0
    &&& e.tile.0 as int == strict_i32(f[21])->0
    &&& e.tile.1 as int == strict_i32(f[22])->0
    &&& e.tile.2 as int == strict_i32(f[23])->0
    &&& e.position as int == strict_usize(f[24])->0
    &&& e.final_score as int == i32_or_zero(f[25])
}

/// Which field of which line could not be read.
#[derive(Debug, PartialEq, Eq, Structural)]
pub struct BadField {
    pub line: usize,
    pub field: usize,
}

/// Reads one input row of the Q-value generator: `Ok(None)` for a row of
/// fewer than 25 fields, the first field that does not read as its number
/// as `Err`. A row of exactly 25 readable fields has no final score, which
/// the reader does not accept.
pub fn parse_example_line(line: &str) -> (r: Result<Option<InputExample>, usize>)
    requires
        fields(line@).len() == 25 ==> first_bad_field(fields(line@), 0) is Some,
    ensures
        match r {
            Ok(None) => fields(line@).len() < 25,
            Ok(Some(e)) => fields(line@).len() >= 25 && first_bad_field(fields(line@), 0) is None && example_of(
                fields(line@),
                e,
            ),
            Err(k) => fields(line@).len() >= 25 && first_bad_field(fields(line@), 0) == Some(k as int),
        },
{
    let parts = split_commas(line);
    if parts.len() < 25 {
        return Ok(None);
    }
    let ghost f = fields(line@);
    let mut nums: Vec<i32> = Vec::new();
    let mut k: usize = 0;
    while k < 24
        invariant
            f == fields(line@),
            parts@.len() == f.len(),
            f.len() >= 25,
            forall|j: int| 0 <= j < parts@.len() ==> (#[trigger] parts@[j])@ == f[j],
            k <= 24,
            nums@.len() == k,
            first_bad_field(f, 0) == first_bad_field(f, k as int),
            forall|j: int| 0 <= j < k ==> strict_i32(f[j]) == Some(#[trigger] nums@[j] as int),
        decreases 24 - k,
    {
        match parse_i32(parts[k]) {
            Some(v) => {
                nums.push(v);
            },
            None => {
                assert(parts@[k as int]@ == f[k as int]);
                assert(!example_field_ok(f, k as int));
                return Err(k);
            },
        }
        assert(parts@[k as int]@ == f[k as int]);
        assert(example_field_ok(f, k as int));
        k = k + 1;
    }
    assert(parts@[24]@ == f[24]);
    let position = match parse_usize(parts[24]) {
        Some(p) => p,
        None => {
            assert(!example_field_ok(f, 24));
            return Err(24);
        },
    };
    assert(example_field_ok(f, 24));
    assert(first_bad_field(f, 25) is None);
    let final_score = or_zero(parts[25]);
    let mut plateau_state: Vec<i32> = Vec::new();
    let mut j: usize = 0;
    while j < 19
        invariant
            nums@.len() == 24,
            j <= 19,
            plateau_state@.len() == j,
            forall|q: int| 0 <= q < j ==> plateau_state@[q] == #[trigger] nums@[2 + q],
        decreases 19 - j,
    {
        plateau_state.push(nums[2 + j]);
        j = j + 1;
    }
    let e = InputExample {
        game_id: nums[0],
        turn: nums[1],
        plateau_state,
        tile: (nums[21], nums[22], nums[23]),
        position,
        final_score,
    };
    assert forall|q: int| 0 <= q < 19 implies e.plateau_state@[q] as int == #[trigger] strict_i32(f[2 + q])->0 by {
        assert(e.plateau_state@[q] == nums@[2 + q]);
    }
    Ok(Some(e))
}

/// Where reading the input lines stands after the lines before `n`: the
/// indices of the lines that gave examples, the first unreadable field
/// met, and whether `max` examples (when `max` is not 0) were reached.
pub open spec fn examples_state(lines: Seq<Seq<char>>, max: nat, n: int) -> (Seq<int>, Option<(int, int)>, bool)
    decreases n,
{
    if n <= 1 {
        (seq![], None, false)
    } else {
        let st = examples_state(lines, max, n - 1);
        let f = fields(lines[n - 1]);
        if st.1 is Some || st.2 || f.len() < 25 {
            st
        } else {
            match first_bad_field(f, 0) {
                Some(b) => (st.0, Some((n - 1, b)), false),
                None => {
                    let taken = st.0.push(n - 1);
                    (taken, None, max > 0 && taken.len() >= max)
                },
            }
        }
    }
}

/// Line `n` is read: the lines before it met no unreadable field and did
/// not yet give `max` examples.
pub open spec fn line_reached(lines: Seq<Seq<char>>, max: nat, n: int) -> bool {
    examples_state(lines, max, n).1 is None && !examples_state(lines, max, n).2
}

pub open spec fn line_texts(v: Seq<String>) -> Seq<Seq<char>> {
    v.map_values(|s: String| s@)
}

/// Line `n` is read and holds exactly 25 fields that all read: it has no
/// final-score field, which the reader does not accept.
pub open spec fn stops_without_score(lines: Seq<Seq<char>>, max: nat, n: int) -> bool {
    &&& line_reached(lines, max, n)
    &&& fields(lines[n]).len() == 25
    &&& first_bad_field(fields(lines[n]), 0) is None
}

/// What reading all the lines gives, when no read line lacks its final score.
pub open spec fn examples_read(lines: Seq<String>, max: nat, r: Result<Vec<InputExample>, BadField>) -> bool {
    let st = examples_state(line_texts(lines), max, lines.len() as int);
    match r {
        Err(e) => st.1 == Some((e.line as int, e.field as int)),
        Ok(v) => st.1 is None && v@.len() == st.0.len() && forall|j: int|
            0 <= j < v@.len() ==> example_of(fields(lines[st.0[j]]@), #[trigger] v@[j]),
    }
}

/// The lines hold a read line of exactly 25 readable fields.
pub open spec fn some_line_lacks_score(lines: Seq<String>, max: nat) -> bool {
    exists|n: int| 1 <= n < lines.len() && stops_without_score(line_texts(lines), max, n)
}

fn lacks_score(line: &str) -> (r: bool)
    ensures
        r == (fields(line@).len() == 25 && first_bad_field(fields(line@), 0) is None),
{
    let parts = split_commas(line);
    if parts.len() != 25 {
        return false;
    }
    let ghost f = fields(line@);
    let mut k: usize = 0;
    while k < 24
        invariant
            f == fields(line@),
            parts@.len() == f.len(),
            f.len() == 25,
            forall|j: int| 0 <= j < parts@.len() ==> (#[trigger] parts@[j])@ == f[j],
            k <= 24,
            first_bad_field(f, 0) == first_bad_field(f, k as int),
        decreases 24 - k,
    {
        assert(parts@[k as int]@ == f[k as int]);
        if parse_i32(parts[k]).is_none() {
            return false;
        }
        k = k + 1;
    }
    assert(parts@[24]@ == f[24]);
    assert(first_bad_field(f, 25) is None);
    parse_usize(parts[24]).is_some()
}

/// Reads the input rows of the Q-value generator from the lines of its
/// file, the first line being the header: stops after `max_examples`
/// examples when that is not 0, and at the first field that does not read.
/// `None` when a line that is read holds exactly 25 readable fields, a row
/// without its final score.
pub fn read_examples(lines: &Vec<String>, max_examples: usize) -> (r: Option<Result<Vec<InputExample>, BadField>>)
    ensures
        r is None <==> some_line_lacks_score(lines@, max_examples as nat),
        r matches Some(res) ==> examples_read(lines@, max_examples as nat, res),
{
    let ghost t = line_texts(lines@);
    let ghost mx = max_examples as nat;
    let mut out: Vec<InputExample> = Vec::new();
    if lines.len() <= 1 {
        return Some(Ok(out));
    }
    let mut n: usize = 1;
    while n < lines.len()
        invariant_except_break
            1 <= n <= lines@.len(),
            t == line_texts(lines@),
            mx == max_examples as nat,
            line_reached(t, mx, n as int),
            forall|q: int| 1 <= q < n ==> !stops_without_score(t, mx, q),
            out@.len() == examples_state(t, mx, n as int).0.len(),
            forall|j: int|
                0 <= j < out@.len() ==> example_of(
                    fields(lines@[examples_state(t, mx, n as int).0[j]]@),
                    #[trigger] out@[j],
                ),
        ensures
            !some_line_lacks_score(lines@, mx),
            examples_read(lines@, mx, Ok(out)),
        decreases lines@.len() - n,
    {
        assert(t[n as int] == lines@[n as int]@);
        let ghost st = examples_state(t, mx, n as int);
        if lacks_score(lines[n].as_str()) {
            assert(stops_without_score(t, mx, n as int));
            return None;
        }
        assert(!stops_without_score(t, mx, n as int));
        match parse_example_line(lines[n].as_str()) {
            Err(field) => {
                assert(examples_state(t, mx, n + 1).1 == Some((n as int, field as int)));
                proof {
                    lemma_failed_stays(t, mx, n + 1, lines@.len() as int);
                    lemma_no_stop_after(t, mx, n + 1, lines@.len() as int);
                }
                let bad = BadField { line: n, field };
                assert(!some_line_lacks_score(lines@, mx)) by {
                    if some_line_lacks_score(lines@, mx) {
                        let q = choose|q: int| 1 <= q < lines@.len() && stops_without_score(line_texts(lines@), mx, q);
                        if q > n {
                            lemma_failed_stays(t, mx, n + 1, q);
                        }
                    }
                }
                return Some(Err(bad));
            },
            Ok(None) => {
                assert(examples_state(t, mx, n + 1) == st);
            },
            Ok(Some(e)) => {
                let ghost prev = out@;
                out.push(e);
                let ghost st2 = examples_state(t, mx, n + 1);
                assert(st2.0 == st.0.push(n as int));
                assert forall|j: int| 0 <= j < out@.len() implies example_of(
                    fields(lines@[st2.0[j]]@),
                    #[trigger] out@[j],
                ) by {
                    if j < prev.len() {
                        assert(out@[j] == prev[j]);
                        assert(st2.0[j] == st.0[j]);
                    }
                }
                if max_examples > 0 && out.len() >= max_examples {
                    proof {
                        lemma_stopped_stays(t, mx, n + 1, lines@.len() as int);
                    }
                    assert(!some_line_lacks_score(lines@, mx)) by {
                        if some_line_lacks_score(lines@, mx) {
                            let q = choose|q: int| 1 <= q < lines@.len() && stops_without_score(line_texts(lines@), mx, q);
                            if q > n {
                                lemma_stopped_stays(t, mx, n + 1, q);
                            }
                        }
                    }
                    break;
                }
            },
        }
        n = n + 1;
    }
    Some(Ok(out))
}

proof fn lemma_no_stop_after(t: Seq<Seq<char>>, mx: nat, a: int, b: int)
    requires
        1 <= a <= b,
        examples_state(t, mx, a).1 is Some,
    ensures
        !line_reached(t, mx, b),
{
    lemma_failed_stays(t, mx, a, b);
}

/// Reads the input rows of the Q-value generator from the lines of its
/// file, the first line being the header: stops after `max_examples`
/// examples when that is not 0, and at the first field that does not read.
pub fn examples_from_lines(lines: &Vec<String>, max_examples: usize) -> (r: Result<Vec<InputExample>, BadField>)
    requires
        !some_line_lacks_score(lines@, max_examples as nat),
    ensures
        examples_read(lines@, max_examples as nat, r),
{
    match read_examples(lines, max_examples) {
        Some(r) => r,
        None => {
            assert(false);
            Ok(Vec::new())
        },
    }
}

proof fn lemma_failed_stays(t: Seq<Seq<char>>, mx: nat, a: int, b: int)
    requires
        1 <= a <= b,
        examples_state(t, mx, a).1 is Some,
    ensures
        examples_state(t, mx, b) == examples_state(t, mx, a),
    decreases b - a,
{
    if a < b {
        lemma_failed_stays(t, mx, a, b - 1);
    }
}

proof fn lemma_stopped_stays(t: Seq<Seq<char>>, mx: nat, a: int, b: int)
    requires
        1 <= a <= b,
        examples_state(t, mx, a).2,
    ensures
        examples_state(t, mx, b) == examples_state(t, mx, a),
    decreases b - a,
{
    if a < b {
        lemma_stopped_stays(t, mx, a, b - 1);
    }
}

/// The three values of a tile, as the expert-move files name them.
#[derive(Debug, Clone, Copy, PartialEq, Eq, Structural)]
pub struct TileData {
    pub value1: i32,
    pub value2: i32,
    pub value3: i32,
}

impl TileData {
    pub fn from_tile(tile: (i32, i32, i32)) -> (r: TileData)
        ensures
            r.value1 == tile.0,
            r.value2 == tile.1,
            r.value3 == tile.2,
    {
        TileData { value1: tile.0, value2: tile.1, value3: tile.2 }
    }
}

} // verus!
