//! Counting the live neighbours of a cell.
//!
//! The eight candidates of a cell `id` are `id` plus each of the offsets
//! `-n, +n, -1, +1, -(n - 1), +(n - 1), -(n + 1), +(n + 1)`. A candidate
//! counts when it is a cell of the grid and its row is at most two rows away
//! from the row of `id`; this guard rejects the offsets that would step over
//! the top or bottom edge into the neighbouring column.
use crate::grid::{column_spec, lemma_split, row_spec};
use vstd::arithmetic::div_mod::lemma_fundamental_div_mod_converse;
use crate::store::CellStore;
use vstd::prelude::*;

verus! {

/// The `k`-th candidate neighbour (`0 <= k < 8`) of the cell `id`.
pub open spec fn offset_candidate(n: int, id: int, k: int) -> int {
    if k == 0 {
        id - n
    } else if k == 1 {
        id + n
    } else if k == 2 {
        id - 1
    } else if k == 3 {
        id + 1
    } else if k == 4 {
        id - (n - 1)
    } else if k == 5 {
        id + (n - 1)
    } else if k == 6 {
        id - (n + 1)
    } else {
        id + (n + 1)
    }
}

/// Distance between two integers.
pub open spec fn distance(a: int, b: int) -> int {
    if a >= b {
        a - b
    } else {
        b - a
    }
}

/// The candidate `b` of the cell `a` is a cell of the grid whose row is at
/// most two rows from the row of `a`.
pub open spec fn passes_guard(n: int, a: int, b: int) -> bool {
    0 <= b < n * n && distance(row_spec(n, a), row_spec(n, b)) <= 2
}

/// `b` is counted as a neighbour of `a`.
pub open spec fn counted_neighbor(n: int, a: int, b: int) -> bool {
    exists|k: int| 0 <= k < 8 && #[trigger] offset_candidate(n, a, k) == b && passes_guard(n, a, b)
}

/// What the `k`-th candidate of `a` adds to the count: one when it passes the
/// guard and is alive.
pub open spec fn live_term(n: int, alive: Seq<bool>, a: int, k: int) -> int {
    let b = offset_candidate(n, a, k);
    if passes_guard(n, a, b) && alive[b] {
        1
    } else {
        0
    }
}

/// Number of live neighbours of the cell `a`.
pub open spec fn live_neighbor_count(n: int, alive: Seq<bool>, a: int) -> int {
    live_term(n, alive, a, 0) + live_term(n, alive, a, 1) + live_term(n, alive, a, 2)
        + live_term(n, alive, a, 3) + live_term(n, alive, a, 4) + live_term(n, alive, a, 5)
        + live_term(n, alive, a, 6) + live_term(n, alive, a, 7)
}

/// Index of the candidate that leads back: each offset is paired with its
/// negation.
pub open spec fn opposite(k: int) -> int {
    if k % 2 == 0 {
        k + 1
    } else {
        k - 1
    }
}

/// Counting is symmetric: when `b` is counted as a neighbour of `a`, `a` is
/// counted as a neighbour of `b`.
pub proof fn lemma_neighbor_symmetric(n: int, a: int, b: int)
    requires
        n > 0,
        0 <= a < n * n,
        counted_neighbor(n, a, b),
    ensures
        counted_neighbor(n, b, a),
{
    let k = choose|k: int| 0 <= k < 8 && #[trigger] offset_candidate(n, a, k) == b && passes_guard(n, a, b);
    let j = opposite(k);
    assert(offset_candidate(n, b, j) == a);
    assert(passes_guard(n, b, a));
}

/// Counting of live neighbours, within `[0, 8]`.
pub proof fn lemma_count_bounds(n: int, alive: Seq<bool>, a: int)
    ensures
        0 <= live_neighbor_count(n, alive, a) <= 8,
{
}

/// `b` is a cell of the grid next to `a`: another cell whose column and row
/// are each at most one away from those of `a`.
pub open spec fn adjacent(n: int, a: int, b: int) -> bool {
    &&& 0 <= b < n * n
    &&& b != a
    &&& distance(column_spec(n, a), column_spec(n, b)) <= 1
    &&& distance(row_spec(n, a), row_spec(n, b)) <= 1
}

/// The cell `column * n + row`, with `row` in `[0, n)`, has that column and row.
proof fn lemma_parts(n: int, column: int, row: int)
    requires
        n > 0,
        0 <= row < n,
    ensures
        column_spec(n, column * n + row) == column,
        row_spec(n, column * n + row) == row,
{
    lemma_fundamental_div_mod_converse(column * n + row, n, column, row);
}

/// A candidate `a + dc * n + dr` that passes the guard is next to `a`, when
/// the grid has at least four rows.
proof fn lemma_shift_adjacent(n: int, a: int, dc: int, dr: int)
    requires
        n >= 4,
        0 <= a < n * n,
        -1 <= dc <= 1,
        -1 <= dr <= 1,
        dc != 0 || dr != 0,
        passes_guard(n, a, a + dc * n + dr),
    ensures
        adjacent(n, a, a + dc * n + dr),
{
    let b = a + dc * n + dr;
    let ca = a / n;
    let ra = a % n;
    lemma_split(n, a);
    lemma_split(n, b);
    assert(b == (ca + dc) * n + (ra + dr)) by (nonlinear_arith)
        requires b == a + dc * n + dr, a == ca * n + ra;
    if ra + dr == n {
        assert(b == (ca + dc + 1) * n + 0) by (nonlinear_arith)
            requires b == (ca + dc) * n + (ra + dr), ra + dr == n;
        lemma_parts(n, ca + dc + 1, 0);
    } else if ra + dr == -1 {
        assert(b == (ca + dc - 1) * n + (n - 1)) by (nonlinear_arith)
            requires b == (ca + dc) * n + (ra + dr), ra + dr == -1;
        lemma_parts(n, ca + dc - 1, n - 1);
    } else {
        lemma_parts(n, ca + dc, ra + dr);
        lemma_parts(n, ca, ra);
    }
}

/// On a grid of side at least four the guard counts exactly the adjacent
/// cells: no candidate that steps over an edge passes it, and every cell
/// next to `a` is one of its candidates.
pub proof fn lemma_guard_is_adjacency(n: int, a: int, b: int)
    requires
        n >= 4,
        0 <= a < n * n,
    ensures
        counted_neighbor(n, a, b) <==> adjacent(n, a, b),
{
    if counted_neighbor(n, a, b) {
        let k = choose|k: int| 0 <= k < 8 && #[trigger] offset_candidate(n, a, k) == b && passes_guard(n, a, b);
        if k == 0 {
            lemma_shift_adjacent(n, a, -1, 0);
        } else if k == 1 {
            lemma_shift_adjacent(n, a, 1, 0);
        } else if k == 2 {
            lemma_shift_adjacent(n, a, 0, -1);
        } else if k == 3 {
            lemma_shift_adjacent(n, a, 0, 1);
        } else if k == 4 {
            lemma_shift_adjacent(n, a, -1, 1);
        } else if k == 5 {
            lemma_shift_adjacent(n, a, 1, -1);
        } else if k == 6 {
            lemma_shift_adjacent(n, a, -1, -1);
        } else {
            lemma_shift_adjacent(n, a, 1, 1);
        }
    }
    if adjacent(n, a, b) {
        let ca = a / n;
        let ra = a % n;
        let cb = b / n;
        let rb = b % n;
        lemma_split(n, a);
        lemma_split(n, b);
        let dc = cb - ca;
        let dr = rb - ra;
        assert(b == a + dc * n + dr) by (nonlinear_arith)
            requires a == ca * n + ra, b == cb * n + rb, dc == cb - ca, dr == rb - ra;
        assert(-1 <= dc <= 1 && -1 <= dr <= 1);
        assert(dc * n == (if dc == 1 { n } else if dc == -1 { -n } else { 0 })) by (nonlinear_arith)
            requires -1 <= dc <= 1;
        assert(dc != 0 || dr != 0);
        let k = if dc == -1 && dr == 0 {
            0int
        } else if dc == 1 && dr == 0 {
            1
        } else if dc == 0 && dr == -1 {
            2
        } else if dc == 0 && dr == 1 {
            3
        } else if dc == -1 && dr == 1 {
            4
        } else if dc == 1 && dr == -1 {
            5
        } else if dc == -1 && dr == -1 {
            6
        } else {
            7
        };
        assert(offset_candidate(n, a, k) == b);
    }
}

/// One when the candidate `id - d` (when `forward` is false) or `id + d`
/// (when it is true) passes the guard and is alive, else zero.
fn live_term_at(store: &CellStore, id: usize, forward: bool, d: usize) -> (r: usize)
    requires
        store.wf(),
        id < store.total(),
    ensures
        r == (if passes_guard(store.side(), id as int, if forward { id + d } else { id - d })
            && store.alive()[if forward { id + d } else { id - d }] {
            1usize
        } else {
            0usize
        }),
{
    let grid = store.grid();
    let total = store.cell_count();
    let cand: usize;
    if forward {
        if d >= total - id {
            return 0;
        }
        cand = id + d;
    } else {
        if d > id {
            return 0;
        }
        cand = id - d;
    }
    let (_, row_a) = match grid.coordinate_of(id) {
        Some(c) => c,
        None => return 0,
    };
    let (_, row_b) = match grid.coordinate_of(cand) {
        Some(c) => c,
        None => return 0,
    };
    let gap = if row_a >= row_b {
        row_a - row_b
    } else {
        row_b - row_a
    };
    if gap > 2 {
        return 0;
    }
    match store.get_alive(cand) {
        Some(true) => 1,
        _ => 0,
    }
}

/// Number of live neighbours of the cell `id`.
pub fn count_live_neighbors(store: &CellStore, id: usize) -> (r: usize)
    requires
        store.wf(),
        id < store.total(),
    ensures
        r == live_neighbor_count(store.side(), store.alive(), id as int),
        r <= 8,
{
    let n = store.grid().side_len();
    proof {
        let nn = n as int;
        assert(nn + 1 <= usize::MAX) by (nonlinear_arith)
            requires nn > 0, nn * nn <= usize::MAX;
    }
    let c0 = live_term_at(store, id, false, n);
    let c1 = live_term_at(store, id, true, n);
    let c2 = live_term_at(store, id, false, 1);
    let c3 = live_term_at(store, id, true, 1);
    let c4 = live_term_at(store, id, false, n - 1);
    let c5 = live_term_at(store, id, true, n - 1);
    let c6 = live_term_at(store, id, false, n + 1);
    let c7 = live_term_at(store, id, true, n + 1);
    c0 + c1 + c2 + c3 + c4 + c5 + c6 + c7
}

} // verus!
