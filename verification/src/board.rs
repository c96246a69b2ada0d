//! Integer geometry of the 19-cell hexagonal board: the fifteen scoring
//! lines, encoded tiles, and the line tests used to compare placements.
//!
//! Cells are numbered row by row:
//!
//! ```text
//!        0   1   2
//!      3   4   5   6
//!    7   8   9  10  11
//!     12  13  14  15
//!       16  17  18
//! ```
//!
//! A tile carries three values, one per line direction. On a recorded board
//! a tile is encoded as the integer `100 * a + 10 * b + c`, and `0` marks an
//! empty cell.

use vstd::prelude::*;
use crate::stats::LineCompletions;

verus! {

pub const BOARD_CELLS: usize = 19;

pub const LINE_COUNT: usize = 15;

/// The cells of scoring line `l`: lines `0..5` run along the first tile value,
/// `5..10` along the second and `10..15` along the third.
pub open spec fn line(l: int) -> Seq<int> {
    if l == 0 {
        seq![0, 1, 2]
    } else if l == 1 {
        seq![3, 4, 5, 6]
    } else if l == 2 {
        seq![7, 8, 9, 10, 11]
    } else if l == 3 {
        seq![12, 13, 14, 15]
    } else if l == 4 {
        seq![16, 17, 18]
    } else if l == 5 {
        seq![0, 3, 7]
    } else if l == 6 {
        seq![1, 4, 8, 12]
    } else if l == 7 {
        seq![2, 5, 9, 13, 16]
    } else if l == 8 {
        seq![6, 10, 14, 17]
    } else if l == 9 {
        seq![11, 15, 18]
    } else if l == 10 {
        seq![2, 6, 11]
    } else if l == 11 {
        seq![1, 5, 10, 15]
    } else if l == 12 {
        seq![0, 4, 9, 14, 18]
    } else if l == 13 {
        seq![3, 8, 13, 17]
    } else {
        seq![7, 12, 16]
    }
}

/// Which of the three tile values line `l` scores.
pub open spec fn line_direction(l: int) -> int {
    if l < 5 {
        0
    } else if l < 10 {
        1
    } else {
        2
    }
}

/// Quotient of integer division rounded toward zero, as Rust computes it.
pub open spec fn quot(a: int, b: int) -> int {
    if a >= 0 {
        a / b
    } else {
        -((-a) / b)
    }
}

/// Remainder of integer division rounded toward zero, as Rust computes it.
pub open spec fn rem(a: int, b: int) -> int {
    a - b * quot(a, b)
}

/// Value number `d` of an encoded tile `v`: its hundreds, tens or units digit.
pub open spec fn encoded_value(v: int, d: int) -> int {
    if d == 0 {
        quot(v, 100)
    } else if d == 1 {
        rem(quot(v, 10), 10)
    } else {
        rem(v, 10)
    }
}

/// Value number `d` of a tile given as three values.
pub open spec fn tile_value(t: (i32, i32, i32), d: int) -> int {
    if d == 0 {
        t.0 as int
    } else if d == 1 {
        t.1 as int
    } else {
        t.2 as int
    }
}

/// Distance of each cell from the centre cell 9, in rings.
pub open spec fn center_distance(pos: int) -> int {
    seq![2, 2, 2, 2, 1, 1, 2, 2, 1, 0, 1, 2, 2, 1, 1, 2, 2, 2, 2][pos]
}

/// The cells of line `l`.
pub fn line_cells(l: usize) -> (r: Vec<usize>)
    requires
        l < LINE_COUNT,
    ensures
        r@.len() == line(l as int).len(),
        forall|k: int| 0 <= k < r@.len() ==> r@[k] as int == #[trigger] line(l as int)[k],
{
    let r: Vec<usize> = match l {
        0 => vec![0, 1, 2],
        1 => vec![3, 4, 5, 6],
        2 => vec![7, 8, 9, 10, 11],
        3 => vec![12, 13, 14, 15],
        4 => vec![16, 17, 18],
        5 => vec![0, 3, 7],
        6 => vec![1, 4, 8, 12],
        7 => vec![2, 5, 9, 13, 16],
        8 => vec![6, 10, 14, 17],
        9 => vec![11, 15, 18],
        10 => vec![2, 6, 11],
        11 => vec![1, 5, 10, 15],
        12 => vec![0, 4, 9, 14, 18],
        13 => vec![3, 8, 13, 17],
        _ => vec![7, 12, 16],
    };
    r
}

/// Every line holds distinct cells of the board.
pub proof fn lemma_line_cells(l: int)
    requires
        0 <= l < 15,
    ensures
        3 <= line(l).len() <= 5,
        forall|k: int| 0 <= k < line(l).len() ==> 0 <= #[trigger] line(l)[k] < 19,
        forall|j: int, k: int|
            0 <= j < k < line(l).len() ==> #[trigger] line(l)[j] != #[trigger] line(l)[k],
{
}

/// Value number `d` of the encoded tile `v`.
pub fn encoded_tile_value(v: i32, d: usize) -> (r: i32)
    requires
        d < 3,
    ensures
        r as int == encoded_value(v as int, d as int),
{
    if d == 0 {
        v / 100
    } else if d == 1 {
        (v / 10) % 10
    } else {
        v % 10
    }
}

fn tile_value_at(t: (i32, i32, i32), d: usize) -> (r: i32)
    requires
        d < 3,
    ensures
        r as int == tile_value(t, d as int),
{
    if d == 0 {
        t.0
    } else if d == 1 {
        t.1
    } else {
        t.2
    }
}

fn direction_of(l: usize) -> (r: usize)
    requires
        l < LINE_COUNT,
    ensures
        r as int == line_direction(l as int),
        r < 3,
{
    if l < 5 {
        0
    } else if l < 10 {
        1
    } else {
        2
    }
}

/// The three values of an encoded tile (`0` decodes to the empty tile).
pub fn decode_tile(encoded: i32) -> (r: (i32, i32, i32))
    ensures
        r.0 as int == encoded_value(encoded as int, 0),
        r.1 as int == encoded_value(encoded as int, 1),
        r.2 as int == encoded_value(encoded as int, 2),
{
    if encoded == 0 {
        return (0, 0, 0);
    }
    (encoded / 100, (encoded / 10) % 10, encoded % 10)
}

/// How far cell `pos` lies from the centre of the board.
pub fn position_distance_to_center(pos: usize) -> (r: usize)
    requires
        pos < BOARD_CELLS,
    ensures
        r as int == center_distance(pos as int),
{
    let distances: [usize; 19] = [2, 2, 2, 2, 1, 1, 2, 2, 1, 0, 1, 2, 2, 1, 1, 2, 2, 2, 2];
    assert(distances@ =~= seq![2usize, 2, 2, 2, 1, 1, 2, 2, 1, 0, 1, 2, 2, 1, 1, 2, 2, 2, 2]);
    distances[pos]
}

/// Line `l` passes through `position`, and every other cell of it holds a
/// tile whose value in the line's direction equals the placed tile's.
pub open spec fn completes_line(plateau: Seq<i32>, position: int, tile: (i32, i32, i32), l: int) -> bool {
    let d = line_direction(l);
    &&& line(l).contains(position)
    &&& forall|k: int|
        0 <= k < line(l).len() && #[trigger] line(l)[k] != position ==> {
            &&& plateau[line(l)[k]] != 0
            &&& encoded_value(plateau[line(l)[k]] as int, d) == tile_value(tile, d)
        }
}

/// Placing `tile` at `position` completes some scoring line.
pub open spec fn completes_some_line(plateau: Seq<i32>, position: int, tile: (i32, i32, i32)) -> bool {
    exists|l: int| 0 <= l < 15 && #[trigger] completes_line(plateau, position, tile, l)
}

fn line_contains(cells: &Vec<usize>, position: usize) -> (r: bool)
    ensures
        r == exists|k: int| 0 <= k < cells@.len() && cells@[k] == position,
{
    let mut k: usize = 0;
    while k < cells.len()
        invariant
            k <= cells@.len(),
            forall|j: int| 0 <= j < k ==> cells@[j] != position,
        decreases cells@.len() - k,
    {
        if cells[k] == position {
            return true;
        }
        k = k + 1;
    }
    false
}

/// Whether placing `tile` at `position` on the encoded board `plateau`
/// completes one of the scoring lines through `position`.
pub fn would_complete_line(plateau: &[i32; 19], position: usize, tile: (i32, i32, i32)) -> (r: bool)
    ensures
        r == completes_some_line(plateau@, position as int, tile),
{
    let mut l: usize = 0;
    while l < LINE_COUNT
        invariant
            l <= LINE_COUNT,
            forall|j: int| 0 <= j < l ==> !#[trigger] completes_line(plateau@, position as int, tile, j),
        decreases LINE_COUNT - l,
    {
        let cells = line_cells(l);
        proof {
            lemma_line_cells(l as int);
        }
        let ghost cl = line(l as int);
        assert(cells@.len() == cl.len());
        if !line_contains(&cells, position) {
            assert(!cl.contains(position as int)) by {
                if cl.contains(position as int) {
                    let k = choose|k: int| 0 <= k < cl.len() && cl[k] == position as int;
                    assert(cells@[k] as int == cl[k]);
                }
            }
            l = l + 1;
            continue;
        }
        assert(cl.contains(position as int)) by {
            let k = choose|k: int| 0 <= k < cells@.len() && cells@[k] == position;
            assert(cells@[k] as int == cl[k]);
        }
        let d = direction_of(l);
        let tv = tile_value_at(tile, d);
        let mut all_same = true;
        let mut k: usize = 0;
        while k < cells.len() && all_same
            invariant
                cells@.len() == cl.len(),
                forall|j: int| 0 <= j < cells@.len() ==> cells@[j] as int == #[trigger] cl[j],
                forall|j: int| 0 <= j < cl.len() ==> 0 <= #[trigger] cl[j] < 19,
                cl == line(l as int),
                d as int == line_direction(l as int),
                tv as int == tile_value(tile, d as int),
                d < 3,
                k <= cells@.len(),
                all_same ==> forall|j: int|
                    0 <= j < k && #[trigger] cl[j] != position ==> {
                        &&& plateau@[cl[j]] != 0
                        &&& encoded_value(plateau@[cl[j]] as int, d as int) == tile_value(tile, d as int)
                    },
                !all_same ==> 0 < k && cl[k - 1] != position && (plateau@[cl[k - 1]] == 0
                    || encoded_value(plateau@[cl[k - 1]] as int, d as int) != tile_value(tile, d as int)),
            decreases cells@.len() - k,
        {
            let pos = cells[k];
            assert(pos as int == cl[k as int]);
            if pos != position {
                let v = plateau[pos];
                if v == 0 {
                    all_same = false;
                } else {
                    let pv = encoded_tile_value(v, d);
                    if pv != tv {
                        all_same = false;
                    }
                }
            }
            k = k + 1;
        }
        if all_same {
            assert(completes_line(plateau@, position as int, tile, l as int));
            return true;
        }
        assert(!completes_line(plateau@, position as int, tile, l as int)) by {
            assert(cl[k - 1] != position as int);
        }
        l = l + 1;
    }
    false
}

/// Cell `k` of line `l` is another cell than `position`, and holds a tile.
pub open spec fn other_filled(plateau: Seq<i32>, position: int, l: int, k: int) -> bool {
    0 <= k < line(l).len() && line(l)[k] != position && plateau[line(l)[k]] != 0
}

/// The value, in the direction of line `l`, of the tile in its cell `k`.
pub open spec fn cell_value(plateau: Seq<i32>, l: int, k: int) -> int {
    encoded_value(plateau[line(l)[k]] as int, line_direction(l))
}

/// Placing `tile` at `position` spoils line `l`: the line passes through
/// `position`, its other filled cells (there is at least one) all show one
/// value in the line's direction, and the placed tile's value there, not
/// zero, differs from it.
pub open spec fn blocks_line(plateau: Seq<i32>, position: int, tile: (i32, i32, i32), l: int) -> bool {
    let tv = tile_value(tile, line_direction(l));
    &&& line(l).contains(position)
    &&& tv != 0
    &&& exists|k: int| #[trigger] other_filled(plateau, position, l, k) && cell_value(plateau, l, k) != tv
    &&& forall|j: int, k: int|
        #[trigger] other_filled(plateau, position, l, j) && #[trigger] other_filled(plateau, position, l, k)
            ==> cell_value(plateau, l, j) == cell_value(plateau, l, k)
}

/// Placing `tile` at `position` spoils some scoring line.
pub open spec fn blocks_some_line(plateau: Seq<i32>, position: int, tile: (i32, i32, i32)) -> bool {
    exists|l: int| 0 <= l < 15 && #[trigger] blocks_line(plateau, position, tile, l)
}

fn line_blocked(plateau: &[i32; 19], position: usize, tile: (i32, i32, i32), l: usize) -> (r: bool)
    requires
        l < LINE_COUNT,
    ensures
        r == blocks_line(plateau@, position as int, tile, l as int),
{
    let cells = line_cells(l);
    proof {
        lemma_line_cells(l as int);
    }
    let ghost cl = line(l as int);
    let ghost p = plateau@;
    let ghost pos = position as int;
    let ghost li = l as int;
    if !line_contains(&cells, position) {
        assert(!cl.contains(position as int)) by {
            if cl.contains(position as int) {
                let k = choose|k: int| 0 <= k < cl.len() && cl[k] == position as int;
                assert(cells@[k] as int == cl[k]);
            }
        }
        return false;
    }
    assert(cl.contains(position as int)) by {
        let k = choose|k: int| 0 <= k < cells@.len() && cells@[k] == position;
        assert(cells@[k] as int == cl[k]);
    }
    let d = direction_of(l);
    let tv = tile_value_at(tile, d);
    let mut seen = false;
    let mut first: i32 = 0;
    let mut uniform = true;
    let mut k: usize = 0;
    while k < cells.len()
        invariant
            cells@.len() == cl.len(),
            forall|j: int| 0 <= j < cells@.len() ==> cells@[j] as int == #[trigger] cl[j],
            forall|j: int| 0 <= j < cl.len() ==> 0 <= #[trigger] cl[j] < 19,
            cl == line(li),
            li == l as int,
            p == plateau@,
            pos == position as int,
            d as int == line_direction(li),
            d < 3,
            k <= cells@.len(),
            seen <==> exists|j: int| 0 <= j < k && #[trigger] other_filled(p, pos, li, j),
            seen ==> exists|j: int| 0 <= j < k && #[trigger] other_filled(p, pos, li, j) && cell_value(p, li, j) == first,
            seen && uniform ==> forall|j: int| 0 <= j < k && #[trigger] other_filled(p, pos, li, j) ==> cell_value(p, li, j) == first,
            !uniform ==> exists|a: int, b: int|
                0 <= a < k && 0 <= b < k && #[trigger] other_filled(p, pos, li, a) && #[trigger] other_filled(p, pos, li, b)
                    && cell_value(p, li, a) != cell_value(p, li, b),
        decreases cells@.len() - k,
    {
        let c = cells[k];
        assert(c as int == cl[k as int]);
        if c != position && plateau[c] != 0 {
            let v = encoded_tile_value(plateau[c], d);
            assert(other_filled(p, pos, li, k as int));
            assert(cell_value(p, li, k as int) == v);
            if !seen {
                seen = true;
                first = v;
            } else if v != first {
                if uniform {
                    let ghost j0 = choose|j: int| 0 <= j < k && #[trigger] other_filled(p, pos, li, j) && cell_value(p, li, j) == first;
                    assert(other_filled(p, pos, li, j0) && other_filled(p, pos, li, k as int));
                }
                uniform = false;
            }
        } else {
            assert(!other_filled(p, pos, li, k as int));
        }
        k = k + 1;
    }
    let r = seen && uniform && first != tv && tv != 0;
    proof {
        if r {
            let j0 = choose|j: int| 0 <= j < k && #[trigger] other_filled(p, pos, li, j) && cell_value(p, li, j) == first;
            assert(other_filled(p, pos, li, j0) && cell_value(p, li, j0) != tile_value(tile, line_direction(li)));
            assert forall|a: int, b: int|
                #[trigger] other_filled(p, pos, li, a) && #[trigger] other_filled(p, pos, li, b)
                    implies cell_value(p, li, a) == cell_value(p, li, b) by {
                assert(0 <= a < k && 0 <= b < k);
            }
        } else if !seen {
            assert forall|j: int| !(#[trigger] other_filled(p, pos, li, j) && cell_value(p, li, j) != tv) by {
                if other_filled(p, pos, li, j) {
                    assert(0 <= j < k);
                }
            }
        } else if !uniform {
            let (a, b) = choose|a: int, b: int|
                0 <= a < k && 0 <= b < k && #[trigger] other_filled(p, pos, li, a) && #[trigger] other_filled(p, pos, li, b)
                    && cell_value(p, li, a) != cell_value(p, li, b);
            assert(other_filled(p, pos, li, a) && other_filled(p, pos, li, b));
        } else if first == tv {
            assert forall|j: int| !(#[trigger] other_filled(p, pos, li, j) && cell_value(p, li, j) != tv) by {
                if other_filled(p, pos, li, j) {
                    assert(0 <= j < k);
                }
            }
        }
    }
    r
}

/// Whether placing `tile` at `position` spoils a line: some scoring line
/// through `position` whose other filled cells all show one value in the
/// line's direction gets a tile whose value there differs.
pub fn would_block_line(plateau: &[i32; 19], position: usize, tile: (i32, i32, i32)) -> (r: bool)
    ensures
        r == blocks_some_line(plateau@, position as int, tile),
{
    let mut l: usize = 0;
    while l < LINE_COUNT
        invariant
            l <= LINE_COUNT,
            forall|j: int| 0 <= j < l ==> !#[trigger] blocks_line(plateau@, position as int, tile, j),
        decreases LINE_COUNT - l,
    {
        if line_blocked(plateau, position, tile, l) {
            return true;
        }
        l = l + 1;
    }
    false
}


/// The tiles of an encoded board: occupied cells (positive codes) decode
/// into their three values, every other cell is the empty tile.
pub fn decode_board(plateau: &[i32; 19]) -> (r: Vec<(i32, i32, i32)>)
    ensures
        r@.len() == 19,
        forall|k: int| 0 <= k < 19 ==> {
            let v = #[trigger] plateau@[k];
            &&& v > 0 ==> r@[k] == (
                encoded_value(v as int, 0) as i32,
                encoded_value(v as int, 1) as i32,
                encoded_value(v as int, 2) as i32,
            )
            &&& v <= 0 ==> r@[k] == (0i32, 0i32, 0i32)
        },
{
    let mut r: Vec<(i32, i32, i32)> = Vec::new();
    let mut k: usize = 0;
    while k < 19
        invariant
            k <= 19,
            r@.len() == k,
            forall|j: int| 0 <= j < k ==> {
                let v = #[trigger] plateau@[j];
                &&& v > 0 ==> r@[j] == (
                    encoded_value(v as int, 0) as i32,
                    encoded_value(v as int, 1) as i32,
                    encoded_value(v as int, 2) as i32,
                )
                &&& v <= 0 ==> r@[j] == (0i32, 0i32, 0i32)
            },
        decreases 19 - k,
    {
        let v = plateau[k];
        if v > 0 {
            r.push(decode_tile(v));
        } else {
            r.push((0, 0, 0));
        }
        k = k + 1;
    }
    r
}

/// The cells a move may not go to: those already holding a tile
/// (any non-zero code).
pub fn occupied_cells(plateau: &[i32; 19]) -> (r: Vec<bool>)
    ensures
        r@.len() == 19,
        forall|k: int| 0 <= k < 19 ==> r@[k] == (#[trigger] plateau@[k] != 0),
{
    let mut r: Vec<bool> = Vec::new();
    let mut k: usize = 0;
    while k < 19
        invariant
            k <= 19,
            r@.len() == k,
            forall|j: int| 0 <= j < k ==> r@[j] == (#[trigger] plateau@[j] != 0),
        decreases 19 - k,
    {
        r.push(plateau[k] != 0);
        k = k + 1;
    }
    r
}


/// The line through cell `p` in direction `d`.
pub open spec fn line_through(p: int, d: int) -> int {
    if d == 0 {
        seq![0int, 0, 0, 1, 1, 1, 1, 2, 2, 2, 2, 2, 3, 3, 3, 3, 4, 4, 4][p]
    } else if d == 1 {
        5 + seq![0int, 1, 2, 0, 1, 2, 3, 0, 1, 2, 3, 4, 1, 2, 3, 4, 2, 3, 4][p]
    } else {
        10 + seq![2int, 1, 0, 3, 2, 1, 0, 4, 3, 2, 1, 0, 4, 3, 2, 1, 4, 3, 2][p]
    }
}

/// Where cell `p` stands on the line through it in direction `d`.
spec fn place_on_line(p: int, d: int) -> int {
    if d == 0 {
        seq![0int, 1, 2, 0, 1, 2, 3, 0, 1, 2, 3, 4, 0, 1, 2, 3, 0, 1, 2][p]
    } else if d == 1 {
        seq![0int, 0, 0, 1, 1, 1, 0, 2, 2, 2, 1, 0, 3, 3, 2, 1, 4, 3, 2][p]
    } else {
        seq![0int, 0, 0, 0, 1, 1, 1, 0, 1, 2, 2, 2, 1, 2, 3, 3, 2, 3, 4][p]
    }
}

proof fn lemma_cell_on_its_line(p: int, d: int)
    requires
        0 <= p < 19,
        0 <= d < 3,
    ensures
        0 <= line_through(p, d) < 15,
        line_direction(line_through(p, d)) == d,
        0 <= place_on_line(p, d) < line(line_through(p, d)).len(),
        line(line_through(p, d))[place_on_line(p, d)] == p,
{
    assert(p == 0 || p == 1 || p == 2 || p == 3 || p == 4 || p == 5 || p == 6 || p == 7
        || p == 8 || p == 9 || p == 10 || p == 11 || p == 12 || p == 13 || p == 14 || p == 15
        || p == 16 || p == 17 || p == 18);
}

proof fn lemma_line_members(l: int, k: int)
    requires
        0 <= l < 15,
        0 <= k < line(l).len(),
    ensures
        line_through(line(l)[k], line_direction(l)) == l,
{
    assert(k == 0 || k == 1 || k == 2 || k == 3 || k == 4);
}

/// Every cell lies on exactly one scoring line of each direction.
pub proof fn lemma_one_line_per_direction(p: int, d: int, l: int)
    requires
        0 <= p < 19,
        0 <= d < 3,
        0 <= l < 15,
    ensures
        line_direction(line_through(p, d)) == d,
        line(line_through(p, d)).contains(p),
        line_direction(l) == d && line(l).contains(p) ==> l == line_through(p, d),
{
    lemma_cell_on_its_line(p, d);
    let t = line_through(p, d);
    assert(line(t)[place_on_line(p, d)] == p);
    if line_direction(l) == d && line(l).contains(p) {
        let k: int = choose|k: int| 0 <= k < line(l).len() && line(l)[k] == p;
        lemma_line_members(l, k);
    }
}

/// The empty tile, which marks a free cell on a board of tiles.
pub open spec fn is_empty_tile(t: (i32, i32, i32)) -> bool {
    t.0 == 0 && t.1 == 0 && t.2 == 0
}

fn tile_is_empty(t: (i32, i32, i32)) -> (r: bool)
    ensures
        r == is_empty_tile(t),
{
    t.0 == 0 && t.1 == 0 && t.2 == 0
}

/// Line `l` of a board of tiles is complete: its first cell holds a tile
/// whose value in the line's direction is not zero, and every cell of the
/// line holds a tile with that same value.
pub open spec fn line_complete(tiles: Seq<(i32, i32, i32)>, l: int) -> bool {
    let d = line_direction(l);
    let first = tiles[line(l)[0]];
    &&& !is_empty_tile(first)
    &&& tile_value(first, d) != 0
    &&& forall|k: int|
        0 <= k < line(l).len() ==> !is_empty_tile(#[trigger] tiles[line(l)[k]]) && tile_value(
            tiles[line(l)[k]],
            d,
        ) == tile_value(first, d)
}

/// How many of the lines `lo..hi` are complete.
pub open spec fn complete_count(tiles: Seq<(i32, i32, i32)>, lo: int, hi: int) -> nat
    decreases hi - lo,
{
    if hi <= lo {
        0
    } else {
        complete_count(tiles, lo, hi - 1) + if line_complete(tiles, hi - 1) {
            1nat
        } else {
            0nat
        }
    }
}

fn is_line_complete(tiles: &[(i32, i32, i32); 19], l: usize) -> (r: bool)
    requires
        l < LINE_COUNT,
    ensures
        r == line_complete(tiles@, l as int),
{
    let cells = line_cells(l);
    proof {
        lemma_line_cells(l as int);
    }
    let ghost cl = line(l as int);
    let d = direction_of(l);
    let first = tiles[cells[0]];
    if tile_is_empty(first) {
        return false;
    }
    let target = tile_value_at(first, d);
    if target == 0 {
        return false;
    }
    let mut k: usize = 0;
    while k < cells.len()
        invariant
            cells@.len() == cl.len(),
            forall|j: int| 0 <= j < cells@.len() ==> cells@[j] as int == #[trigger] cl[j],
            forall|j: int| 0 <= j < cl.len() ==> 0 <= #[trigger] cl[j] < 19,
            cl == line(l as int),
            d as int == line_direction(l as int),
            d < 3,
            first == tiles@[cl[0]],
            target as int == tile_value(first, d as int),
            k <= cells@.len(),
            forall|j: int|
                0 <= j < k ==> !is_empty_tile(#[trigger] tiles@[cl[j]]) && tile_value(tiles@[cl[j]], d as int)
                    == target,
        decreases cells@.len() - k,
    {
        let t = tiles[cells[k]];
        assert(t == tiles@[cl[k as int]]);
        if tile_is_empty(t) || tile_value_at(t, d) != target {
            return false;
        }
        k = k + 1;
    }
    true
}

/// Counts, for each direction, the complete lines of a board of tiles.
pub fn count_line_completions(tiles: &[(i32, i32, i32); 19]) -> (r: LineCompletions)
    ensures
        r.v1_cols == complete_count(tiles@, 0, 5),
        r.v2_diags == complete_count(tiles@, 5, 10),
        r.v3_diags == complete_count(tiles@, 10, 15),
{
    let mut lc = LineCompletions { v1_cols: 0, v2_diags: 0, v3_diags: 0 };
    let mut l: usize = 0;
    while l < LINE_COUNT
        invariant
            l <= LINE_COUNT,
            lc.v1_cols == complete_count(tiles@, 0, if l < 5 { l as int } else { 5 }),
            lc.v2_diags == complete_count(tiles@, 5, if l < 5 { 5 } else if l < 10 { l as int } else { 10 }),
            lc.v3_diags == complete_count(tiles@, 10, if l < 10 { 10 } else { l as int }),
            lc.v1_cols <= 5,
            lc.v2_diags <= 5,
            lc.v3_diags <= 5,
            complete_count(tiles@, 0, if l < 5 { l as int } else { 5 }) <= if l < 5 { l as int } else { 5 },
            complete_count(tiles@, 5, if l < 5 { 5 } else if l < 10 { l as int } else { 10 }) <= if l < 5 {
                0
            } else if l < 10 {
                l - 5
            } else {
                5
            },
            complete_count(tiles@, 10, if l < 10 { 10 } else { l as int }) <= if l < 10 { 0 } else { l - 10 },
        decreases LINE_COUNT - l,
    {
        if is_line_complete(tiles, l) {
            if l < 5 {
                lc.v1_cols = lc.v1_cols + 1;
            } else if l < 10 {
                lc.v2_diags = lc.v2_diags + 1;
            } else {
                lc.v3_diags = lc.v3_diags + 1;
            }
        }
        l = l + 1;
    }
    lc
}

/// How many cells among `cells` are empty.
pub open spec fn empty_count(tiles: Seq<(i32, i32, i32)>, cells: Seq<int>) -> nat
    decreases cells.len(),
{
    if cells.len() == 0 {
        0
    } else {
        empty_count(tiles, cells.drop_last()) + if is_empty_tile(tiles[cells.last()]) {
            1nat
        } else {
            0nat
        }
    }
}

/// The last empty cell among `cells`, if any.
pub open spec fn last_empty(tiles: Seq<(i32, i32, i32)>, cells: Seq<int>) -> Option<int>
    decreases cells.len(),
{
    if cells.len() == 0 {
        None
    } else if is_empty_tile(tiles[cells.last()]) {
        Some(cells.last())
    } else {
        last_empty(tiles, cells.drop_last())
    }
}

/// The cell at which placing `tile` completes line `l`: the line's only
/// empty cell, when the tile's value in the line's direction is not zero
/// and every filled cell of the line carries that value.
pub open spec fn line_gap(tiles: Seq<(i32, i32, i32)>, tile: (i32, i32, i32), l: int) -> Option<int> {
    let d = line_direction(l);
    let tv = tile_value(tile, d);
    if tv != 0 && (forall|k: int|
        0 <= k < line(l).len() && !is_empty_tile(#[trigger] tiles[line(l)[k]]) ==> tile_value(
            tiles[line(l)[k]],
            d,
        ) == tv) && empty_count(tiles, line(l)) == 1 {
        last_empty(tiles, line(l))
    } else {
        None
    }
}

/// The cells found by going through lines `0..n` in order and keeping each
/// new gap that would complete a line.
pub open spec fn completing_positions(tiles: Seq<(i32, i32, i32)>, tile: (i32, i32, i32), n: int) -> Seq<int>
    decreases n,
{
    if n <= 0 {
        seq![]
    } else {
        let acc = completing_positions(tiles, tile, n - 1);
        match line_gap(tiles, tile, n - 1) {
            Some(p) => if acc.contains(p) {
                acc
            } else {
                acc.push(p)
            },
            None => acc,
        }
    }
}

fn gap_of_line(tiles: &[(i32, i32, i32); 19], tile: (i32, i32, i32), l: usize) -> (r: Option<usize>)
    requires
        l < LINE_COUNT,
    ensures
        r matches Some(p) ==> line_gap(tiles@, tile, l as int) == Some(p as int),
        r is None ==> line_gap(tiles@, tile, l as int) is None,
{
    let cells = line_cells(l);
    proof {
        lemma_line_cells(l as int);
    }
    let ghost cl = line(l as int);
    let d = direction_of(l);
    let tv = tile_value_at(tile, d);
    if tv == 0 {
        return None;
    }
    let mut empty_pos: Option<usize> = None;
    let mut empties: usize = 0;
    let mut k: usize = 0;
    assert(cl.take(0) =~= Seq::<int>::empty());
    while k < cells.len()
        invariant
            cells@.len() == cl.len(),
            forall|j: int| 0 <= j < cells@.len() ==> cells@[j] as int == #[trigger] cl[j],
            forall|j: int| 0 <= j < cl.len() ==> 0 <= #[trigger] cl[j] < 19,
            cl == line(l as int),
            3 <= cl.len() <= 5,
            d as int == line_direction(l as int),
            d < 3,
            tv as int == tile_value(tile, d as int),
            tv != 0,
            k <= cells@.len(),
            empties as int == empty_count(tiles@, cl.take(k as int)),
            empties <= k,
            empty_pos matches Some(p) ==> last_empty(tiles@, cl.take(k as int)) == Some(p as int),
            empty_pos is None ==> last_empty(tiles@, cl.take(k as int)) is None,
            forall|j: int|
                0 <= j < k && !is_empty_tile(#[trigger] tiles@[cl[j]]) ==> tile_value(tiles@[cl[j]], d as int)
                    == tv,
        decreases cells@.len() - k,
    {
        let pos = cells[k];
        let t = tiles[pos];
        assert(cl.take(k + 1).drop_last() =~= cl.take(k as int));
        assert(cl.take(k + 1).last() == cl[k as int]);
        if tile_is_empty(t) {
            empties = empties + 1;
            empty_pos = Some(pos);
        } else if tile_value_at(t, d) != tv {
            assert(!(forall|j: int|
                0 <= j < cl.len() && !is_empty_tile(#[trigger] tiles@[cl[j]]) ==> tile_value(
                    tiles@[cl[j]],
                    d as int,
                ) == tv)) by {
                assert(!is_empty_tile(tiles@[cl[k as int]]));
            }
            return None;
        }
        k = k + 1;
    }
    assert(cl.take(cl.len() as int) =~= cl);
    if empties == 1 {
        empty_pos
    } else {
        None
    }
}

fn holds_position(v: &Vec<usize>, p: usize) -> (r: bool)
    ensures
        r == v@.map_values(|x: usize| x as int).contains(p as int),
{
    let ghost m = v@.map_values(|x: usize| x as int);
    let mut k: usize = 0;
    while k < v.len()
        invariant
            k <= v@.len(),
            m == v@.map_values(|x: usize| x as int),
            forall|j: int| 0 <= j < k ==> v@[j] != p,
        decreases v@.len() - k,
    {
        if v[k] == p {
            assert(m[k as int] == p as int);
            return true;
        }
        k = k + 1;
    }
    assert(!m.contains(p as int)) by {
        if m.contains(p as int) {
            let j = choose|j: int| 0 <= j < m.len() && m[j] == p as int;
            assert(v@[j] == p);
        }
    }
    false
}

/// The cells at which placing `tile` would complete a scoring line, each
/// once, in the order of the lines.
pub fn find_line_completing_positions(tiles: &[(i32, i32, i32); 19], tile: (i32, i32, i32)) -> (r: Vec<usize>)
    ensures
        r@.map_values(|p: usize| p as int) == completing_positions(tiles@, tile, 15),
{
    let mut positions: Vec<usize> = Vec::new();
    let mut l: usize = 0;
    while l < LINE_COUNT
        invariant
            l <= LINE_COUNT,
            positions@.map_values(|p: usize| p as int) == completing_positions(tiles@, tile, l as int),
        decreases LINE_COUNT - l,
    {
        let ghost before = positions@;
        match gap_of_line(tiles, tile, l) {
            Some(p) => {
                if !holds_position(&positions, p) {
                    positions.push(p);
                    assert(positions@.map_values(|q: usize| q as int) =~= before.map_values(
                        |q: usize| q as int,
                    ).push(p as int));
                }
            },
            None => {},
        }
        l = l + 1;
    }
    positions
}

} // verus!
