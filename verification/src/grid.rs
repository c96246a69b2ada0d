//! Placement of the hexagonal board on a 5x5 grid, and the test of whether
//! a set of grid cells forms a straight run.

use vstd::prelude::*;
use vstd::relations::sorted_by;
use crate::board::{line, BOARD_CELLS, LINE_COUNT, line_cells, lemma_line_cells};
use crate::sorting::{pair_le, sorted_pairs, sorted_usizes, usize_le};

verus! {

/// Grid cell (row, column) of each board cell in the 5x5 layout of the
/// board tensors: board columns become grid columns.
pub open spec fn tensor_cell(pos: int) -> (usize, usize) {
    seq![
        (1usize, 0usize), (2, 0), (3, 0),
        (1, 1), (2, 1), (3, 1), (4, 1),
        (0, 2), (1, 2), (2, 2), (3, 2), (4, 2),
        (1, 3), (2, 3), (3, 3), (4, 3),
        (1, 4), (2, 4), (3, 4),
    ][pos]
}

/// Grid cell (row, column) of each board cell in the 5x5 layout used by
/// the state encoder of the Q-value networks.
pub open spec fn encoder_cell(pos: int) -> (usize, usize) {
    seq![
        (1usize, 0usize), (2, 0), (3, 0),
        (0, 1), (1, 1), (2, 1), (3, 1),
        (0, 2), (1, 2), (2, 2), (3, 2), (4, 2),
        (0, 3), (1, 3), (2, 3), (3, 3),
        (1, 4), (2, 4), (3, 4),
    ][pos]
}

/// The row of the board that cell `pos` belongs to.
pub open spec fn board_row(pos: int) -> int {
    if pos <= 2 {
        0
    } else if pos <= 6 {
        1
    } else if pos <= 11 {
        2
    } else if pos <= 15 {
        3
    } else {
        4
    }
}

/// Grid cell of board cell `pos` in the tensor layout.
pub fn tensor_grid_cell(pos: usize) -> (r: (usize, usize))
    requires
        pos < BOARD_CELLS,
    ensures
        r == tensor_cell(pos as int),
{
    let map: [(usize, usize); 19] = [
        (1, 0), (2, 0), (3, 0),
        (1, 1), (2, 1), (3, 1), (4, 1),
        (0, 2), (1, 2), (2, 2), (3, 2), (4, 2),
        (1, 3), (2, 3), (3, 3), (4, 3),
        (1, 4), (2, 4), (3, 4),
    ];
    assert(map@ =~= seq![
        (1usize, 0usize), (2, 0), (3, 0),
        (1, 1), (2, 1), (3, 1), (4, 1),
        (0, 2), (1, 2), (2, 2), (3, 2), (4, 2),
        (1, 3), (2, 3), (3, 3), (4, 3),
        (1, 4), (2, 4), (3, 4),
    ]);
    map[pos]
}

/// Index in the flattened 5x5 grid of board cell `hex_pos`, in the
/// encoder layout.
pub fn hex_to_grid_idx(hex_pos: usize) -> (r: usize)
    requires
        hex_pos < BOARD_CELLS,
    ensures
        r == encoder_cell(hex_pos as int).0 * 5 + encoder_cell(hex_pos as int).1,
        r < 25,
{
    let map: [(usize, usize); 19] = [
        (1, 0), (2, 0), (3, 0),
        (0, 1), (1, 1), (2, 1), (3, 1),
        (0, 2), (1, 2), (2, 2), (3, 2), (4, 2),
        (0, 3), (1, 3), (2, 3), (3, 3),
        (1, 4), (2, 4), (3, 4),
    ];
    assert(map@ =~= seq![
        (1usize, 0usize), (2, 0), (3, 0),
        (0, 1), (1, 1), (2, 1), (3, 1),
        (0, 2), (1, 2), (2, 2), (3, 2), (4, 2),
        (0, 3), (1, 3), (2, 3), (3, 3),
        (1, 4), (2, 4), (3, 4),
    ]);
    let (row, col) = map[hex_pos];
    row * 5 + col
}

/// The board row of cell `pos`.
pub fn pos_to_row(pos: usize) -> (r: usize)
    requires
        pos < BOARD_CELLS,
    ensures
        r as int == board_row(pos as int),
{
    if pos <= 2 {
        0
    } else if pos <= 6 {
        1
    } else if pos <= 11 {
        2
    } else if pos <= 15 {
        3
    } else {
        4
    }
}

pub open spec fn rows_of(c: Seq<(usize, usize)>) -> Seq<usize> {
    Seq::new(c.len(), |i: int| c[i].0)
}

pub open spec fn cols_of(c: Seq<(usize, usize)>) -> Seq<usize> {
    Seq::new(c.len(), |i: int| c[i].1)
}

/// Each element is one more than the one before it.
pub open spec fn consecutive(t: Seq<usize>) -> bool {
    forall|k: int| 0 <= k < t.len() - 1 ==> #[trigger] t[k + 1] == t[k] + 1
}

/// The difference `a - b` of two coordinates as the step test computes it:
/// both are converted to `i32` (keeping their low 32 bits) and subtracted
/// with wrap-around. For coordinates within `i32` it is `a - b`.
pub open spec fn step(a: usize, b: usize) -> int {
    let d = (a as i32) - (b as i32);
    if d > i32::MAX {
        d - 0x1_0000_0000
    } else if d < i32::MIN {
        d + 0x1_0000_0000
    } else {
        d
    }
}

/// Each pair is one row below the one before it and `dc` columns across.
pub open spec fn diagonal_steps(t: Seq<(usize, usize)>, dc: int) -> bool {
    forall|k: int|
        0 <= k < t.len() - 1 ==> #[trigger] step(t[k + 1].0, t[k].0) == 1 && step(t[k + 1].1, t[k].1) == dc
}

pub open spec fn all_same_row(c: Seq<(usize, usize)>) -> bool {
    forall|i: int| 0 <= i < c.len() ==> #[trigger] c[i].0 == c[0].0
}

pub open spec fn all_same_col(c: Seq<(usize, usize)>) -> bool {
    forall|i: int| 0 <= i < c.len() ==> #[trigger] c[i].1 == c[0].1
}

/// The cells form a straight run of neighbours: all in one row with
/// consecutive columns, all in one column with consecutive rows, or a
/// diagonal that moves one row and one column per step.
pub open spec fn is_straight(c: Seq<(usize, usize)>) -> bool {
    if c.len() < 2 {
        true
    } else if all_same_row(c) {
        consecutive(cols_of(c).sort_by(usize_le()))
    } else if all_same_col(c) {
        consecutive(rows_of(c).sort_by(usize_le()))
    } else {
        let t = c.sort_by(pair_le());
        diagonal_steps(t, 1) || diagonal_steps(t, -1)
    }
}

fn is_consecutive(t: &Vec<usize>) -> (r: bool)
    ensures
        r == consecutive(t@),
{
    let mut k: usize = 0;
    while k < t.len() && k + 1 < t.len()
        invariant
            forall|j: int| 0 <= j < k && j < t@.len() - 1 ==> #[trigger] t@[j + 1] == t@[j] + 1,
        decreases t@.len() - k,
    {
        if t[k] == usize::MAX || t[k + 1] != t[k] + 1 {
            assert(t@[k + 1] != t@[k as int] + 1);
            return false;
        }
        k = k + 1;
    }
    true
}

fn steps_diagonally(t: &Vec<(usize, usize)>, down_right: bool) -> (r: bool)
    ensures
        r == diagonal_steps(t@, if down_right { 1 } else { -1 }),
{
    let mut k: usize = 0;
    while k < t.len() && k + 1 < t.len()
        invariant
            k == 0 || k < t@.len(),
            forall|j: int|
                0 <= j < k && j < t@.len() - 1 ==> #[trigger] step(t@[j + 1].0, t@[j].0) == 1
                    && step(t@[j + 1].1, t@[j].1) == (if down_right { 1int } else { -1int }),
        decreases t@.len() - k,
    {
        let r1 = #[verifier::truncate] (t[k + 1].0 as i32);
        let r0 = #[verifier::truncate] (t[k].0 as i32);
        let c1 = #[verifier::truncate] (t[k + 1].1 as i32);
        let c0 = #[verifier::truncate] (t[k].1 as i32);
        let diff_row: i32 = r1.wrapping_sub(r0);
        let diff_col: i32 = c1.wrapping_sub(c0);
        assert(diff_row as int == step(t@[k + 1].0, t@[k as int].0));
        assert(diff_col as int == step(t@[k + 1].1, t@[k as int].1));
        let ok = if down_right {
            diff_row == 1 && diff_col == 1
        } else {
            diff_row == 1 && diff_col == -1
        };
        if !ok {
            return false;
        }
        k = k + 1;
    }
    assert(k as int >= t@.len() - 1);
    assert forall|j: int| 0 <= j < t@.len() - 1 implies #[trigger] step(t@[j + 1].0, t@[j].0) == 1 && step(
        t@[j + 1].1,
        t@[j].1,
    ) == (if down_right { 1int } else { -1int }) by {
        assert(j < k);
        assert(0 <= j < k && j < t@.len() - 1);
        assert(step(t@[j + 1].0, t@[j].0) == 1);
    }
    true
}

/// Whether the grid cells `coords` form a straight run (see `is_straight`).
pub fn check_straight_line(coords: &[(usize, usize)]) -> (r: bool)
    ensures
        r == is_straight(coords@),
{
    let n = coords.len();
    if n < 2 {
        return true;
    }
    let ghost c = coords@;
    let mut same_row = true;
    let mut same_col = true;
    let mut rows: Vec<usize> = Vec::new();
    let mut cols: Vec<usize> = Vec::new();
    let mut pairs: Vec<(usize, usize)> = Vec::new();
    let mut i: usize = 0;
    while i < n
        invariant
            n == c.len(),
            c == coords@,
            n >= 2,
            i <= n,
            rows@ =~= rows_of(c).take(i as int),
            cols@ =~= cols_of(c).take(i as int),
            pairs@ =~= c.take(i as int),
            same_row <==> forall|j: int| 0 <= j < i ==> #[trigger] c[j].0 == c[0].0,
            same_col <==> forall|j: int| 0 <= j < i ==> #[trigger] c[j].1 == c[0].1,
        decreases n - i,
    {
        let (row, col) = coords[i];
        if row != coords[0].0 {
            same_row = false;
        }
        if col != coords[0].1 {
            same_col = false;
        }
        rows.push(row);
        cols.push(col);
        pairs.push((row, col));
        i = i + 1;
    }
    assert(rows@ =~= rows_of(c));
    assert(cols@ =~= cols_of(c));
    assert(pairs@ =~= c);
    if same_row {
        let sorted = sorted_usizes(&cols);
        return is_consecutive(&sorted);
    }
    if same_col {
        let sorted = sorted_usizes(&rows);
        return is_consecutive(&sorted);
    }
    let sorted = sorted_pairs(&pairs);
    let is_down_right = steps_diagonally(&sorted, true);
    let is_down_left = steps_diagonally(&sorted, false);
    is_down_right || is_down_left
}

/// The tensor-grid cells of scoring line `l`, in the order of the line.
pub fn line_in_tensor_grid(l: usize) -> (r: Vec<(usize, usize)>)
    requires
        l < LINE_COUNT,
    ensures
        r@.len() == line(l as int).len(),
        forall|k: int| 0 <= k < r@.len() ==> r@[k] == #[trigger] tensor_cell(line(l as int)[k]),
{
    let cells = line_cells(l);
    proof {
        lemma_line_cells(l as int);
    }
    let mut r: Vec<(usize, usize)> = Vec::new();
    let mut k: usize = 0;
    while k < cells.len()
        invariant
            cells@.len() == line(l as int).len(),
            forall|j: int| 0 <= j < cells@.len() ==> cells@[j] as int == #[trigger] line(l as int)[j],
            forall|j: int| 0 <= j < line(l as int).len() ==> 0 <= #[trigger] line(l as int)[j] < 19,
            k <= cells@.len(),
            r@.len() == k,
            forall|j: int| 0 <= j < k ==> r@[j] == #[trigger] tensor_cell(line(l as int)[j]),
        decreases cells@.len() - k,
    {
        let cell = tensor_grid_cell(cells[k]);
        r.push(cell);
        k = k + 1;
    }
    r
}


proof fn lemma_map_keeps_multiset<A, B>(s1: Seq<A>, s2: Seq<A>, f: spec_fn(A) -> B)
    requires
        s1.to_multiset() == s2.to_multiset(),
    ensures
        s1.map_values(f).to_multiset() == s2.map_values(f).to_multiset(),
    decreases s1.len(),
{
    broadcast use vstd::seq_lib::group_to_multiset_ensures;
    broadcast use vstd::multiset::group_multiset_axioms;

    vstd::seq_lib::to_multiset_len(s1);
    vstd::seq_lib::to_multiset_len(s2);
    if s1.len() == 0 {
        assert(s2.len() == 0);
        assert(s1.map_values(f) =~= s2.map_values(f));
    } else {
        let x = s1[0];
        assert(s1.to_multiset().contains(x));
        assert(s2.contains(x));
        let j = choose|j: int| 0 <= j < s2.len() && s2[j] == x;
        let t1 = s1.remove(0);
        let t2 = s2.remove(j);
        assert(t1.to_multiset() == s1.to_multiset().remove(x));
        assert(t2.to_multiset() == s2.to_multiset().remove(x));
        lemma_map_keeps_multiset(t1, t2, f);
        assert(s1.map_values(f) =~= t1.map_values(f).insert(0, f(x)));
        assert(s2.map_values(f) =~= t2.map_values(f).insert(j, f(x)));
    }
}

proof fn lemma_same_row_order_free(c1: Seq<(usize, usize)>, c2: Seq<(usize, usize)>)
    requires
        c1.to_multiset() == c2.to_multiset(),
        c1.len() >= 1,
        c2.len() == c1.len(),
        all_same_row(c1),
    ensures
        all_same_row(c2),
{
    broadcast use vstd::seq_lib::group_to_multiset_ensures;

    assert(c2.to_multiset().contains(c2[0]));
    assert(c1.contains(c2[0]));
    assert forall|i: int| 0 <= i < c2.len() implies #[trigger] c2[i].0 == c2[0].0 by {
        assert(c2.to_multiset().contains(c2[i]));
        assert(c1.contains(c2[i]));
    }
}

proof fn lemma_same_col_order_free(c1: Seq<(usize, usize)>, c2: Seq<(usize, usize)>)
    requires
        c1.to_multiset() == c2.to_multiset(),
        c1.len() >= 1,
        c2.len() == c1.len(),
        all_same_col(c1),
    ensures
        all_same_col(c2),
{
    broadcast use vstd::seq_lib::group_to_multiset_ensures;

    assert(c2.to_multiset().contains(c2[0]));
    assert(c1.contains(c2[0]));
    assert forall|i: int| 0 <= i < c2.len() implies #[trigger] c2[i].1 == c2[0].1 by {
        assert(c2.to_multiset().contains(c2[i]));
        assert(c1.contains(c2[i]));
    }
}

/// Whether cells form a straight run does not depend on the order in which
/// they are listed.
pub proof fn lemma_straight_order_free(c1: Seq<(usize, usize)>, c2: Seq<(usize, usize)>)
    requires
        c1.to_multiset() == c2.to_multiset(),
    ensures
        is_straight(c1) == is_straight(c2),
{
    broadcast use vstd::seq_lib::group_to_multiset_ensures;

    vstd::seq_lib::to_multiset_len(c1);
    vstd::seq_lib::to_multiset_len(c2);
    if c1.len() >= 2 {
        if all_same_row(c1) {
            lemma_same_row_order_free(c1, c2);
        }
        if all_same_row(c2) {
            lemma_same_row_order_free(c2, c1);
        }
        if all_same_col(c1) {
            lemma_same_col_order_free(c1, c2);
        }
        if all_same_col(c2) {
            lemma_same_col_order_free(c2, c1);
        }
        let fr = |p: (usize, usize)| p.0;
        let fc = |p: (usize, usize)| p.1;
        lemma_map_keeps_multiset(c1, c2, fr);
        lemma_map_keeps_multiset(c1, c2, fc);
        assert(rows_of(c1) =~= c1.map_values(fr));
        assert(rows_of(c2) =~= c2.map_values(fr));
        assert(cols_of(c1) =~= c1.map_values(fc));
        assert(cols_of(c2) =~= c2.map_values(fc));
        crate::sorting::lemma_usize_le_total();
        crate::sorting::lemma_pair_le_total();
        crate::sorting::lemma_sorted_same(rows_of(c1), rows_of(c2), usize_le());
        crate::sorting::lemma_sorted_same(cols_of(c1), cols_of(c2), usize_le());
        crate::sorting::lemma_sorted_same(c1, c2, pair_le());
    }
}

} // verus!
