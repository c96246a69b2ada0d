//! Rows of the recorded-games CSV files: one move per line, with the board
//! before the move encoded cell by cell.

use vstd::prelude::*;
use crate::text::{parse_i32, parse_usize, signed_text_value, unsigned_text_value, within};

verus! {

/// The comma-separated fields of a line, as `str::split(',')` yields them
/// (an empty line is one empty field).
pub open spec fn fields(s: Seq<char>) -> Seq<Seq<char>>
    decreases s.len(),
{
    if s.len() == 0 {
        seq![Seq::<char>::empty()]
    } else {
        let init = fields(s.drop_last());
        if s.last() == ',' {
            init.push(Seq::<char>::empty())
        } else {
            init.update(init.len() - 1, init.last().push(s.last()))
        }
    }
}

pub proof fn lemma_fields_nonempty(s: Seq<char>)
    ensures
        fields(s).len() >= 1,
    decreases s.len(),
{
    if s.len() > 0 {
        lemma_fields_nonempty(s.drop_last());
    }
}

/// The fields `parts` written one after another with a comma between each
/// two.
pub open spec fn joined(parts: Seq<Seq<char>>) -> Seq<char>
    decreases parts.len(),
{
    if parts.len() <= 1 {
        if parts.len() == 0 {
            Seq::<char>::empty()
        } else {
            parts[0]
        }
    } else {
        joined(parts.drop_last()) + seq![','] + parts.last()
    }
}

proof fn lemma_fields_append_plain(s: Seq<char>, b: Seq<char>)
    requires
        !b.contains(','),
    ensures
        fields(s + b) == fields(s).update(fields(s).len() - 1, fields(s).last() + b),
        fields(s + b).len() == fields(s).len(),
    decreases b.len(),
{
    lemma_fields_nonempty(s);
    if b.len() == 0 {
        assert(s + b =~= s);
        assert(fields(s).last() + b =~= fields(s).last());
        assert(fields(s).update(fields(s).len() - 1, fields(s).last()) =~= fields(s));
    } else {
        let c = b.last();
        let b0 = b.drop_last();
        assert(!b0.contains(',')) by {
            if b0.contains(',') {
                let i = choose|i: int| 0 <= i < b0.len() && b0[i] == ',';
                assert(b[i] == ',');
            }
        }
        lemma_fields_append_plain(s, b0);
        assert((s + b).drop_last() =~= s + b0);
        assert((s + b).last() == c);
        assert(c != ',') by {
            assert(b[b.len() - 1] == c);
        }
        let f0 = fields(s + b0);
        assert(f0.last() == fields(s).last() + b0);
        assert(fields(s).last() + b =~= (fields(s).last() + b0).push(c));
        assert(fields(s + b) =~= fields(s).update(fields(s).len() - 1, fields(s).last() + b));
    }
}

/// Splitting at the commas gives back fields that were joined by commas,
/// when none of them holds a comma.
pub proof fn lemma_fields_of_joined(parts: Seq<Seq<char>>)
    requires
        parts.len() >= 1,
        forall|k: int| 0 <= k < parts.len() ==> !(#[trigger] parts[k]).contains(','),
    ensures
        fields(joined(parts)) == parts,
    decreases parts.len(),
{
    if parts.len() == 1 {
        let e = Seq::<char>::empty();
        lemma_fields_append_plain(e, parts[0]);
        assert(e + parts[0] =~= parts[0]);
        assert(fields(e) =~= seq![e]);
        assert(e + parts[0] =~= parts[0]);
        assert(fields(parts[0]) =~= parts);
    } else {
        let init = parts.drop_last();
        lemma_fields_of_joined(init);
        let s = joined(init) + seq![','];
        assert(s.drop_last() =~= joined(init));
        assert(s.last() == ',');
        assert(fields(s) == init.push(Seq::<char>::empty()));
        lemma_fields_append_plain(s, parts.last());
        assert(joined(parts) == s + parts.last());
        assert(Seq::<char>::empty() + parts.last() =~= parts.last());
        assert(fields(joined(parts)) =~= parts);
    }
}

/// The fields of `line`, split at every comma.
pub fn split_commas<'a>(line: &'a str) -> (r: Vec<&'a str>)
    ensures
        r@.len() == fields(line@).len(),
        forall|k: int| 0 <= k < r@.len() ==> (#[trigger] r@[k])@ == fields(line@)[k],
{
    let n = line.unicode_len();
    let mut done: Vec<&'a str> = Vec::new();
    let mut start: usize = 0;
    let mut i: usize = 0;
    while i < n
        invariant
            n == line@.len(),
            start <= i <= n,
            fields(line@.take(i as int)).len() == done@.len() + 1,
            forall|k: int| 0 <= k < done@.len() ==> (#[trigger] done@[k])@ == fields(line@.take(i as int))[k],
            fields(line@.take(i as int)).last() == line@.subrange(start as int, i as int),
        decreases n - i,
    {
        let c = line.get_char(i);
        let ghost prev = line@.take(i as int);
        let ghost next = line@.take(i + 1);
        assert(next.drop_last() =~= prev);
        assert(next.last() == c);
        if c == ',' {
            let piece = line.substring_char(start, i);
            done.push(piece);
            start = i + 1;
            assert(line@.subrange(start as int, i + 1) =~= Seq::<char>::empty());
        } else {
            assert(line@.subrange(start as int, i + 1) =~= line@.subrange(start as int, i as int).push(c));
        }
        i = i + 1;
    }
    let last = line.substring_char(start, n);
    done.push(last);
    assert(line@.take(n as int) =~= line@);
    done
}

/// The number a field gives when read as a `usize`, or 0 when it does not parse.
pub open spec fn usize_or_zero(f: Seq<char>) -> int {
    match within(unsigned_text_value(f), 0, usize::MAX as int) {
        Some(v) => v,
        None => 0,
    }
}

/// The number a field gives when read as an `i32`, or 0 when it does not parse.
pub open spec fn i32_or_zero(f: Seq<char>) -> int {
    match within(signed_text_value(f), i32::MIN as int, i32::MAX as int) {
        Some(v) => v,
        None => 0,
    }
}

fn read_usize_or_zero(f: &str) -> (r: usize)
    ensures
        r as int == usize_or_zero(f@),
{
    match parse_usize(f) {
        Some(v) => v,
        None => 0,
    }
}

fn read_i32_or_zero(f: &str) -> (r: i32)
    ensures
        r as int == i32_or_zero(f@),
{
    match parse_i32(f) {
        Some(v) => v,
        None => 0,
    }
}

/// One recorded move.
#[derive(Debug)]
pub struct GameMove {
    pub game_id: String,
    pub turn: usize,
    pub player_type: String,
    /// The board before the move, one encoded tile per cell.
    pub plateau: [i32; 19],
    pub tile: (i32, i32, i32),
    pub position: usize,
    pub final_score: i32,
    pub human_won: bool,
}

/// The fields of a CSV row describe the move `m`: game id, turn, player
/// type, 19 board cells, the three tile values, the position, the final
/// score and a won flag (`1` when the human won). Numbers that do not parse
/// count as 0.
pub open spec fn row_describes(f: Seq<Seq<char>>, m: GameMove) -> bool {
    &&& m.game_id@ == f[0]
    &&& m.turn as int == usize_or_zero(f[1])
    &&& m.player_type@ == f[2]
    &&& forall|k: int| 0 <= k < 19 ==> m.plateau@[k] as int == #[trigger] i32_or_zero(f[3 + k])
    &&& m.tile.0 as int == i32_or_zero(f[22])
    &&& m.tile.1 as int == i32_or_zero(f[23])
    &&& m.tile.2 as int == i32_or_zero(f[24])
    &&& m.position as int == usize_or_zero(f[25])
    &&& m.final_score as int == i32_or_zero(f[26])
    &&& m.human_won == (i32_or_zero(f[27]) == 1)
}

/// Reads one data row of a recorded-games file; rows with fewer than 28
/// fields are skipped (`None`).
pub fn parse_game_move_line(line: &str) -> (r: Option<GameMove>)
    ensures
        r is Some <==> fields(line@).len() >= 28,
        r matches Some(m) ==> row_describes(fields(line@), m),
{
    let parts = split_commas(line);
    if parts.len() < 28 {
        return None;
    }
    let ghost f = fields(line@);
    let game_id = String::from_str(parts[0]);
    let turn = read_usize_or_zero(parts[1]);
    let player_type = String::from_str(parts[2]);
    let mut plateau: [i32; 19] = [0; 19];
    let mut k: usize = 0;
    while k < 19
        invariant
            parts@.len() == f.len(),
            f.len() >= 28,
            forall|j: int| 0 <= j < parts@.len() ==> (#[trigger] parts@[j])@ == f[j],
            k <= 19,
            plateau@.len() == 19,
            forall|j: int| 0 <= j < k ==> plateau@[j] as int == #[trigger] i32_or_zero(f[3 + j]),
        decreases 19 - k,
    {
        let v = read_i32_or_zero(parts[3 + k]);
        plateau[k] = v;
        k = k + 1;
    }
    let tile = (read_i32_or_zero(parts[22]), read_i32_or_zero(parts[23]), read_i32_or_zero(parts[24]));
    let position = read_usize_or_zero(parts[25]);
    let final_score = read_i32_or_zero(parts[26]);
    let human_won = read_i32_or_zero(parts[27]) == 1;
    Some(GameMove { game_id, turn, player_type, plateau, tile, position, final_score, human_won })
}

} // verus!
