//! Whole recorded games put together from the rows of the recorded-games
//! files: each game's human tile sequence in turn order, with the scores of
//! the human and of the AI.

use vstd::prelude::*;
use crate::recorded::{fields, i32_or_zero, split_commas, usize_or_zero};
use crate::text::{parse_i32, parse_usize, str_eq};

verus! {

/// One row of a recorded-games file, without the board.
#[derive(Debug)]
pub struct CsvMove {
    pub game_id: String,
    pub turn: usize,
    pub player_type: String,
    pub tile: (i32, i32, i32),
    pub position: usize,
    pub final_score: i32,
    pub human_won: bool,
}

/// The fields of a row describe the move `m` (numbers that do not parse
/// count as 0, and the won flag is set when its field reads 1).
pub open spec fn row_gives_move(f: Seq<Seq<char>>, m: CsvMove) -> bool {
    &&& m.game_id@ == f[0]
    &&& m.turn as int == usize_or_zero(f[1])
    &&& m.player_type@ == f[2]
    &&& m.tile.0 as int == i32_or_zero(f[22])
    &&& m.tile.1 as int == i32_or_zero(f[23])
    &&& m.tile.2 as int == i32_or_zero(f[24])
    &&& m.position as int == usize_or_zero(f[25])
    &&& m.final_score as int == i32_or_zero(f[26])
    &&& m.human_won == (i32_or_zero(f[27]) == 1)
}

fn usize_field(f: &str) -> (r: usize)
    ensures
        r as int == usize_or_zero(f@),
{
    match parse_usize(f) {
        Some(v) => v,
        None => 0,
    }
}

fn i32_field(f: &str) -> (r: i32)
    ensures
        r as int == i32_or_zero(f@),
{
    match parse_i32(f) {
        Some(v) => v,
        None => 0,
    }
}

/// Reads one data row; rows with fewer than 28 fields are skipped (`None`).
pub fn parse_csv_move_line(line: &str) -> (r: Option<CsvMove>)
    ensures
        r is Some <==> fields(line@).len() >= 28,
        r matches Some(m) ==> row_gives_move(fields(line@), m),
{
    let parts = split_commas(line);
    if parts.len() < 28 {
        return None;
    }
    let tile = (i32_field(parts[22]), i32_field(parts[23]), i32_field(parts[24]));
    Some(CsvMove {
        game_id: String::from_str(parts[0]),
        turn: usize_field(parts[1]),
        player_type: String::from_str(parts[2]),
        tile,
        position: usize_field(parts[25]),
        final_score: i32_field(parts[26]),
        human_won: i32_field(parts[27]) == 1,
    })
}

/// Strict lexicographic order on strings, character by character; for
/// UTF-8 text this is the order of `String`'s `Ord`.
#[verifier::opaque]
pub open spec fn str_lt(a: Seq<char>, b: Seq<char>) -> bool
    decreases a.len(),
{
    if a.len() == 0 {
        b.len() > 0
    } else if b.len() == 0 {
        false
    } else if a[0] != b[0] {
        (a[0] as int) < (b[0] as int)
    } else {
        str_lt(a.drop_first(), b.drop_first())
    }
}

/// `str_lt` is a strict total order.
pub proof fn lemma_str_lt_order(a: Seq<char>, b: Seq<char>)
    ensures
        !str_lt(a, a),
        str_lt(a, b) ==> !str_lt(b, a),
        a != b ==> str_lt(a, b) || str_lt(b, a),
    decreases a.len(),
{
    reveal(str_lt);
    if a.len() > 0 && b.len() > 0 {
        lemma_str_lt_order(a.drop_first(), b.drop_first());
        if a[0] == b[0] && a.drop_first() == b.drop_first() {
            assert(a =~= seq![a[0]] + a.drop_first());
            assert(b =~= seq![b[0]] + b.drop_first());
        }
    }
    if a.len() > 0 {
        lemma_str_lt_order(a.drop_first(), a.drop_first());
    }
    if a.len() == 0 && b.len() == 0 {
        assert(a =~= b);
    }
}

pub proof fn lemma_str_lt_transitive(a: Seq<char>, b: Seq<char>, c: Seq<char>)
    requires
        str_lt(a, b),
        str_lt(b, c),
    ensures
        str_lt(a, c),
    decreases a.len(),
{
    reveal(str_lt);
    if a.len() > 0 && b.len() > 0 && c.len() > 0 && a[0] == b[0] && b[0] == c[0] {
        lemma_str_lt_transitive(a.drop_first(), b.drop_first(), c.drop_first());
    }
}

fn str_less(a: &str, b: &str) -> (r: bool)
    ensures
        r == str_lt(a@, b@),
{
    reveal(str_lt);
    let n = a.unicode_len();
    let m = b.unicode_len();
    let mut i: usize = 0;
    assert(a@.skip(0) =~= a@ && b@.skip(0) =~= b@);
    while i < n && i < m
        invariant
            n == a@.len(),
            m == b@.len(),
            i <= n,
            i <= m,
            str_lt(a@, b@) == str_lt(a@.skip(i as int), b@.skip(i as int)),
        decreases n - i,
    {
        proof {
            reveal(str_lt);
        }
        let c = a.get_char(i);
        let d = b.get_char(i);
        assert(a@.skip(i as int)[0] == c && b@.skip(i as int)[0] == d);
        if c != d {
            return (c as u32) < (d as u32);
        }
        assert(a@.skip(i as int).drop_first() =~= a@.skip(i + 1));
        assert(b@.skip(i as int).drop_first() =~= b@.skip(i + 1));
        i = i + 1;
    }
    i == n && i < m
}

/// A row played by the human player.
pub open spec fn is_human(m: CsvMove) -> bool {
    m.player_type@ == "Human"@
}

fn row_is_human(m: &CsvMove) -> (r: bool)
    ensures
        r == is_human(*m),
{
    proof {
        reveal_strlit("Human");
    }
    str_eq(m.player_type.as_str(), "Human")
}

/// What a human row of game `g` contributes: turn, tile, final score and
/// won flag, in the order of the rows.
pub open spec fn human_entries(ms: Seq<CsvMove>, g: Seq<char>) -> Seq<(usize, (i32, i32, i32), i32, bool)>
    decreases ms.len(),
{
    if ms.len() == 0 {
        seq![]
    } else {
        let before = human_entries(ms.drop_last(), g);
        let m = ms.last();
        if m.game_id@ == g && is_human(m) {
            before.push((m.turn, m.tile, m.final_score, m.human_won))
        } else {
            before
        }
    }
}

/// `e` inserted into `s` after every entry whose turn is not later.
pub open spec fn insert_by_turn(
    s: Seq<(usize, (i32, i32, i32), i32, bool)>,
    e: (usize, (i32, i32, i32), i32, bool),
) -> Seq<(usize, (i32, i32, i32), i32, bool)>
    decreases s.len(),
{
    if s.len() == 0 || s.last().0 <= e.0 {
        s.push(e)
    } else {
        insert_by_turn(s.drop_last(), e).push(s.last())
    }
}

/// The entries in turn order; entries of the same turn keep their order.
pub open spec fn sort_by_turn(s: Seq<(usize, (i32, i32, i32), i32, bool)>) -> Seq<(usize, (i32, i32, i32), i32, bool)>
    decreases s.len(),
{
    if s.len() == 0 {
        s
    } else {
        insert_by_turn(sort_by_turn(s.drop_last()), s.last())
    }
}

/// Among the AI rows of game `g`, the first one with the least turn and,
/// within that turn, the least player type: its turn, player type and
/// final score.
pub open spec fn ai_lead(ms: Seq<CsvMove>, g: Seq<char>) -> Option<(usize, Seq<char>, i32)>
    decreases ms.len(),
{
    if ms.len() == 0 {
        None
    } else {
        let b = ai_lead(ms.drop_last(), g);
        let m = ms.last();
        if m.game_id@ == g && !is_human(m) {
            match b {
                None => Some((m.turn, m.player_type@, m.final_score)),
                Some(x) => if m.turn < x.0 || (m.turn == x.0 && str_lt(m.player_type@, x.1)) {
                    Some((m.turn, m.player_type@, m.final_score))
                } else {
                    b
                },
            }
        } else {
            b
        }
    }
}

/// One complete recorded game.
#[derive(Debug)]
pub struct RecordedGame {
    pub game_id: String,
    /// The tiles the human placed, in turn order.
    pub tile_sequence: Vec<(i32, i32, i32)>,
    pub human_score: i32,
    pub ai_score: i32,
    pub human_won: bool,
}

/// Game `g` has a full human tile sequence of 19 rows.
pub open spec fn qualifies(ms: Seq<CsvMove>, g: Seq<char>) -> bool {
    human_entries(ms, g).len() == 19
}

/// `r` is game `g` put together from the rows `ms`: the human tiles in turn
/// order, the human's score and won flag from the earliest human row, and
/// the AI's score from its leading row (0 when it has none).
pub open spec fn describes_game(r: RecordedGame, ms: Seq<CsvMove>, g: Seq<char>) -> bool {
    let h = sort_by_turn(human_entries(ms, g));
    &&& r.game_id@ == g
    &&& r.tile_sequence@ == h.map_values(|e: (usize, (i32, i32, i32), i32, bool)| e.1)
    &&& r.human_score == h[0].2
    &&& r.human_won == h[0].3
    &&& r.ai_score == match ai_lead(ms, g) {
        Some(x) => x.2,
        None => 0,
    }
}

fn human_entries_of(ms: &Vec<CsvMove>, g: &str) -> (r: Vec<(usize, (i32, i32, i32), i32, bool)>)
    ensures
        r@ == human_entries(ms@, g@),
{
    let mut r: Vec<(usize, (i32, i32, i32), i32, bool)> = Vec::new();
    let mut k: usize = 0;
    while k < ms.len()
        invariant
            k <= ms@.len(),
            r@ == human_entries(ms@.take(k as int), g@),
        decreases ms@.len() - k,
    {
        assert(ms@.take(k + 1).drop_last() =~= ms@.take(k as int));
        assert(ms@.take(k + 1).last() == ms@[k as int]);
        let m = &ms[k];
        if str_eq(m.game_id.as_str(), g) && row_is_human(m) {
            r.push((m.turn, m.tile, m.final_score, m.human_won));
        }
        k = k + 1;
    }
    assert(ms@.take(ms@.len() as int) =~= ms@);
    r
}

proof fn lemma_insert_at(
    s: Seq<(usize, (i32, i32, i32), i32, bool)>,
    e: (usize, (i32, i32, i32), i32, bool),
    j: int,
)
    requires
        0 <= j <= s.len(),
        forall|i: int| j <= i < s.len() ==> (#[trigger] s[i]).0 > e.0,
        j > 0 ==> s[j - 1].0 <= e.0,
    ensures
        insert_by_turn(s, e) == s.insert(j, e),
    decreases s.len() - j,
{
    if j < s.len() {
        lemma_insert_at(s.drop_last(), e, j);
        assert(s.insert(j, e) =~= s.drop_last().insert(j, e).push(s.last()));
    } else {
        assert(s.insert(j, e) =~= s.push(e));
    }
}

proof fn lemma_insert_keeps_order(
    s: Seq<(usize, (i32, i32, i32), i32, bool)>,
    e: (usize, (i32, i32, i32), i32, bool),
)
    requires
        forall|a: int, b: int| 0 <= a < b < s.len() ==> (#[trigger] s[a]).0 <= (#[trigger] s[b]).0,
    ensures
        insert_by_turn(s, e).len() == s.len() + 1,
        forall|a: int, b: int|
            0 <= a < b < s.len() + 1 ==> (#[trigger] insert_by_turn(s, e)[a]).0 <= (#[trigger] insert_by_turn(
                s,
                e,
            )[b]).0,
    decreases s.len(),
{
    if s.len() > 0 && s.last().0 > e.0 {
        lemma_insert_keeps_order(s.drop_last(), e);
        let t = insert_by_turn(s.drop_last(), e);
        assert(forall|a: int| 0 <= a < t.len() ==> (#[trigger] t[a]).0 <= s.last().0) by {
            assert forall|a: int| 0 <= a < t.len() implies (#[trigger] t[a]).0 <= s.last().0 by {
                lemma_insert_member(s.drop_last(), e, a);
            }
        }
    }
}

proof fn lemma_insert_member(
    s: Seq<(usize, (i32, i32, i32), i32, bool)>,
    e: (usize, (i32, i32, i32), i32, bool),
    a: int,
)
    requires
        0 <= a < insert_by_turn(s, e).len(),
    ensures
        insert_by_turn(s, e).len() == s.len() + 1,
        insert_by_turn(s, e)[a] == e || exists|i: int| 0 <= i < s.len() && insert_by_turn(s, e)[a] == s[i],
    decreases s.len(),
{
    if s.len() > 0 && s.last().0 > e.0 {
        let t = insert_by_turn(s.drop_last(), e);
        lemma_insert_member(s.drop_last(), e, 0);
        if a < t.len() {
            lemma_insert_member(s.drop_last(), e, a);
            if t[a] != e {
                let i = choose|i: int| 0 <= i < s.drop_last().len() && t[a] == s.drop_last()[i];
                assert(s[i] == t[a]);
            }
        } else {
            assert(insert_by_turn(s, e)[a] == s[s.len() - 1]);
        }
    }
}

fn sort_entries_by_turn(v: &Vec<(usize, (i32, i32, i32), i32, bool)>) -> (r: Vec<(usize, (i32, i32, i32), i32, bool)>)
    ensures
        r@ == sort_by_turn(v@),
{
    let mut r: Vec<(usize, (i32, i32, i32), i32, bool)> = Vec::new();
    let mut k: usize = 0;
    while k < v.len()
        invariant
            k <= v@.len(),
            r@ == sort_by_turn(v@.take(k as int)),
            r@.len() == k,
            forall|a: int, b: int| 0 <= a < b < r@.len() ==> (#[trigger] r@[a]).0 <= (#[trigger] r@[b]).0,
        decreases v@.len() - k,
    {
        assert(v@.take(k + 1).drop_last() =~= v@.take(k as int));
        assert(v@.take(k + 1).last() == v@[k as int]);
        let e = v[k];
        proof {
            lemma_insert_keeps_order(r@, e);
        }
        let mut j: usize = r.len();
        while j > 0 && r[j - 1].0 > e.0
            invariant
                j <= r@.len(),
                forall|i: int| j <= i < r@.len() ==> (#[trigger] r@[i]).0 > e.0,
            decreases j,
        {
            j = j - 1;
        }
        proof {
            lemma_insert_at(r@, e, j as int);
        }
        r.insert(j, e);
        k = k + 1;
    }
    assert(v@.take(v@.len() as int) =~= v@);
    r
}

fn ai_score_of(ms: &Vec<CsvMove>, g: &str) -> (r: i32)
    ensures
        r == match ai_lead(ms@, g@) {
            Some(x) => x.2,
            None => 0,
        },
{
    let mut best: Option<(usize, &str, i32)> = None;
    let mut k: usize = 0;
    while k < ms.len()
        invariant
            k <= ms@.len(),
            match ai_lead(ms@.take(k as int), g@) {
                Some(x) => best matches Some(b) && b.0 == x.0 && b.1@ == x.1 && b.2 == x.2,
                None => best is None,
            },
        decreases ms@.len() - k,
    {
        assert(ms@.take(k + 1).drop_last() =~= ms@.take(k as int));
        assert(ms@.take(k + 1).last() == ms@[k as int]);
        let m = &ms[k];
        if str_eq(m.game_id.as_str(), g) && !row_is_human(m) {
            match best {
                None => {
                    best = Some((m.turn, m.player_type.as_str(), m.final_score));
                },
                Some(b) => {
                    if m.turn < b.0 || (m.turn == b.0 && str_less(m.player_type.as_str(), b.1)) {
                        best = Some((m.turn, m.player_type.as_str(), m.final_score));
                    }
                },
            }
        }
        k = k + 1;
    }
    assert(ms@.take(ms@.len() as int) =~= ms@);
    match best {
        Some(b) => b.2,
        None => 0,
    }
}

/// Finds `id` in the strictly increasing list `r`, inserting it where it
/// belongs when it is not there; returns its index and whether it was added.
fn add_id(r: &mut Vec<String>, id: &str) -> (res: (usize, bool))
    requires
        forall|i: int, j: int| 0 <= i < j < old(r)@.len() ==> str_lt(old(r)@[i]@, old(r)@[j]@),
    ensures
        forall|i: int, j: int| 0 <= i < j < final(r)@.len() ==> str_lt(final(r)@[i]@, final(r)@[j]@),
        res.0 < final(r)@.len(),
        final(r)@[res.0 as int]@ == id@,
        !res.1 ==> final(r)@ == old(r)@,
        res.1 ==> final(r)@.len() == old(r)@.len() + 1,
        res.1 ==> forall|i: int| 0 <= i < res.0 ==> #[trigger] final(r)@[i] == old(r)@[i],
        res.1 ==> forall|i: int| res.0 < i < final(r)@.len() ==> #[trigger] final(r)@[i] == old(r)@[i - 1],
{
    let ghost old_r = r@;
    let mut j: usize = 0;
    while j < r.len() && str_less(r[j].as_str(), id)
        invariant
            r@ == old_r,
            j <= r@.len(),
            forall|i: int| 0 <= i < j ==> str_lt((#[trigger] r@[i])@, id@),
        decreases r@.len() - j,
    {
        j = j + 1;
    }
    if j < r.len() && str_eq(r[j].as_str(), id) {
        return (j, false);
    }
    proof {
        if j < old_r.len() {
            lemma_str_lt_order(old_r[j as int]@, id@);
            assert forall|i: int| j <= i < old_r.len() implies str_lt(id@, (#[trigger] old_r[i])@) by {
                if i > j {
                    lemma_str_lt_transitive(id@, old_r[j as int]@, old_r[i]@);
                }
            }
        }
    }
    let copy = String::from_str(id);
    let ghost c = copy;
    r.insert(j, copy);
    assert(r@ == old_r.insert(j as int, c));
    assert forall|a: int, b: int| 0 <= a < b < r@.len() implies str_lt(r@[a]@, r@[b]@) by {
        if a < j && b > j {
            lemma_str_lt_transitive(r@[a]@, id@, r@[b]@);
        }
    }
    (j, true)
}

/// The views of a list of strings.
pub open spec fn id_views(r: Seq<String>) -> Seq<Seq<char>> {
    r.map_values(|s: String| s@)
}

/// The game ids of the rows, each once, in increasing order.
fn sorted_game_ids(ms: &Vec<CsvMove>) -> (r: Vec<String>)
    ensures
        forall|i: int, j: int| 0 <= i < j < r@.len() ==> str_lt(r@[i]@, r@[j]@),
        forall|q: int| 0 <= q < ms@.len() ==> #[trigger] id_views(r@).contains(ms@[q].game_id@),
{
    let mut r: Vec<String> = Vec::new();
    let ghost mut src: Seq<int> = seq![];
    let ghost mut pos: Seq<int> = seq![];
    let mut k: usize = 0;
    while k < ms.len()
        invariant
            k <= ms@.len(),
            forall|i: int, j: int| 0 <= i < j < r@.len() ==> str_lt(r@[i]@, r@[j]@),
            src.len() == r@.len(),
            pos.len() == k,
            forall|i: int|
                0 <= i < r@.len() ==> 0 <= #[trigger] src[i] < k && ms@[src[i]].game_id@ == r@[i]@,
            forall|q: int|
                0 <= q < k ==> 0 <= #[trigger] pos[q] < r@.len() && r@[pos[q]]@ == ms@[q].game_id@,
        decreases ms@.len() - k,
    {
        let ghost old_r = r@;
        let (j, added) = add_id(&mut r, ms[k].game_id.as_str());
        proof {
            if added {
                src = src.insert(j as int, k as int);
                pos = pos.map_values(|p: int| if p >= j { p + 1 } else { p }).push(j as int);
                assert forall|i: int| 0 <= i < r@.len() implies 0 <= #[trigger] src[i] < k + 1
                    && ms@[src[i]].game_id@ == r@[i]@ by {
                    if i < j {
                        assert(r@[i] == old_r[i]);
                    } else if i > j {
                        assert(r@[i] == old_r[i - 1]);
                    }
                }
                assert forall|q: int| 0 <= q < k + 1 implies 0 <= #[trigger] pos[q] < r@.len()
                    && r@[pos[q]]@ == ms@[q].game_id@ by {
                    if q < k {
                        let p = pos[q];
                        if p >= j + 1 {
                            assert(r@[p] == old_r[p - 1]);
                        } else {
                            assert(r@[p] == old_r[p]);
                        }
                    }
                }
            } else {
                pos = pos.push(j as int);
            }
        }
        k = k + 1;
    }
    assert forall|q: int| 0 <= q < ms@.len() implies #[trigger] id_views(r@).contains(ms@[q].game_id@) by {
        assert(id_views(r@)[pos[q]] == ms@[q].game_id@);
    }
    r
}

fn tiles_of(v: &Vec<(usize, (i32, i32, i32), i32, bool)>) -> (r: Vec<(i32, i32, i32)>)
    ensures
        r@ == v@.map_values(|e: (usize, (i32, i32, i32), i32, bool)| e.1),
{
    let mut r: Vec<(i32, i32, i32)> = Vec::new();
    let mut k: usize = 0;
    while k < v.len()
        invariant
            k <= v@.len(),
            r@ == v@.take(k as int).map_values(|e: (usize, (i32, i32, i32), i32, bool)| e.1),
        decreases v@.len() - k,
    {
        r.push(v[k].1);
        k = k + 1;
        assert(r@ =~= v@.take(k as int).map_values(|e: (usize, (i32, i32, i32), i32, bool)| e.1));
    }
    assert(v@.take(v@.len() as int) =~= v@);
    r
}

/// Game `g` put together from the rows, when it has 19 human rows.
fn game_for(moves: &Vec<CsvMove>, g: &str) -> (r: Option<RecordedGame>)
    ensures
        r is Some <==> qualifies(moves@, g@),
        r matches Some(game) ==> describes_game(game, moves@, g@),
{
    let humans = human_entries_of(moves, g);
    if humans.len() != 19 {
        return None;
    }
    let sorted = sort_entries_by_turn(&humans);
    proof {
        lemma_sort_len(humans@);
    }
    Some(RecordedGame {
        game_id: String::from_str(g),
        tile_sequence: tiles_of(&sorted),
        human_score: sorted[0].2,
        ai_score: ai_score_of(moves, g),
        human_won: sorted[0].3,
    })
}

/// Puts the rows of recorded-games files together into games, in
/// increasing order of game id: one per game with exactly 19 human rows.
pub fn recorded_games(moves: &Vec<CsvMove>) -> (r: Vec<RecordedGame>)
    ensures
        forall|i: int, j: int| 0 <= i < j < r@.len() ==> str_lt(r@[i].game_id@, r@[j].game_id@),
        forall|i: int|
            0 <= i < r@.len() ==> qualifies(moves@, r@[i].game_id@) && describes_game(
                #[trigger] r@[i],
                moves@,
                r@[i].game_id@,
            ),
        forall|k: int|
            0 <= k < moves@.len() && qualifies(moves@, #[trigger] moves@[k].game_id@) ==> exists|i: int|
                0 <= i < r@.len() && r@[i].game_id@ == moves@[k].game_id@,
{
    let ids = sorted_game_ids(moves);
    let mut games: Vec<RecordedGame> = Vec::new();
    let ghost mut from: Seq<int> = seq![];
    let mut k: usize = 0;
    while k < ids.len()
        invariant
            k <= ids@.len(),
            forall|i: int, j: int| 0 <= i < j < ids@.len() ==> str_lt(ids@[i]@, ids@[j]@),
            forall|i: int, j: int| 0 <= i < j < games@.len() ==> str_lt(games@[i].game_id@, games@[j].game_id@),
            from.len() == games@.len(),
            forall|i: int| 0 <= i < games@.len() ==> 0 <= #[trigger] from[i] < k && ids@[from[i]]@ == games@[i].game_id@,
            forall|i: int|
                0 <= i < games@.len() ==> qualifies(moves@, games@[i].game_id@) && describes_game(
                    #[trigger] games@[i],
                    moves@,
                    games@[i].game_id@,
                ),
            forall|j: int|
                0 <= j < k && qualifies(moves@, (#[trigger] ids@[j])@) ==> exists|i: int|
                    0 <= i < games@.len() && games@[i].game_id@ == ids@[j]@,
        decreases ids@.len() - k,
    {
        let id = ids[k].as_str();
        if let Some(game) = game_for(moves, id) {
            let ghost old_games = games@;
            assert forall|i: int| 0 <= i < old_games.len() implies str_lt(old_games[i].game_id@, id@) by {
                assert(ids@[from[i]]@ == old_games[i].game_id@);
            }
            games.push(game);
            proof {
                from = from.push(k as int);
            }
            assert forall|j: int| 0 <= j < k + 1 && qualifies(moves@, (#[trigger] ids@[j])@) implies exists|i: int|
                0 <= i < games@.len() && games@[i].game_id@ == ids@[j]@ by {
                if j < k {
                    let i0 = choose|i: int| 0 <= i < old_games.len() && old_games[i].game_id@ == ids@[j]@;
                    assert(games@[i0] == old_games[i0]);
                } else {
                    assert(games@[games@.len() - 1].game_id@ == ids@[j]@);
                }
            }
        }
        k = k + 1;
    }
    assert forall|q: int| 0 <= q < moves@.len() && qualifies(moves@, #[trigger] moves@[q].game_id@) implies exists|i: int|
        0 <= i < games@.len() && games@[i].game_id@ == moves@[q].game_id@ by {
        assert(id_views(ids@).contains(moves@[q].game_id@));
        let j = choose|j: int| 0 <= j < id_views(ids@).len() && id_views(ids@)[j] == moves@[q].game_id@;
        assert(ids@[j]@ == moves@[q].game_id@);
        assert(qualifies(moves@, ids@[j]@));
    }
    games
}

proof fn lemma_sort_len(s: Seq<(usize, (i32, i32, i32), i32, bool)>)
    ensures
        sort_by_turn(s).len() == s.len(),
    decreases s.len(),
{
    if s.len() > 0 {
        lemma_sort_len(s.drop_last());
        lemma_insert_member(sort_by_turn(s.drop_last()), s.last(), 0);
    }
}

} // verus!
