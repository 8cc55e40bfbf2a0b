//! Logical model of the universe: a flat boolean sequence of 64 cells,
//! row-major, with toroidal Moore-neighborhood adjacency and the B3/S23
//! transition rule.

use vstd::prelude::*;

verus! {

/// Flat index of the cell at row `r`, column `c` (row-major order).
pub open spec fn grid_index(r: int, c: int) -> int {
    8 * r + c
}

/// A logical grid is a boolean sequence of exactly 64 cells.
pub open spec fn is_grid(g: Seq<bool>) -> bool {
    g.len() == 64
}

/// 1 if the cell at (`r`, `c`) is alive, 0 otherwise.
pub open spec fn live_count(g: Seq<bool>, r: int, c: int) -> int {
    if g[grid_index(r, c)] {
        1int
    } else {
        0int
    }
}

/// Number of live cells among the 8 Moore neighbors of (`r`, `c`),
/// with both axes wrapping modulo 8.
pub open spec fn live_neighbors(g: Seq<bool>, r: int, c: int) -> int
    recommends
        is_grid(g),
        0 <= r < 8,
        0 <= c < 8,
{
    let rb = (r + 7) % 8;
    let ra = (r + 1) % 8;
    let cb = (c + 7) % 8;
    let ca = (c + 1) % 8;
    live_count(g, ra, cb) + live_count(g, ra, c) + live_count(g, ra, ca) + live_count(g, r, cb)
        + live_count(g, r, ca) + live_count(g, rb, cb) + live_count(g, rb, c) + live_count(
        g,
        rb,
        ca,
    )
}

/// The B3/S23 rule for one cell: born on exactly 3 live neighbors,
/// survives on 2 or 3, dead otherwise.
pub open spec fn next_cell(g: Seq<bool>, r: int, c: int) -> bool
    recommends
        is_grid(g),
        0 <= r < 8,
        0 <= c < 8,
{
    live_neighbors(g, r, c) == 3 || (g[grid_index(r, c)] && live_neighbors(g, r, c) == 2)
}

/// The whole grid advanced by one generation.
pub open spec fn next_grid(g: Seq<bool>) -> Seq<bool>
    recommends
        is_grid(g),
{
    Seq::new(64, |i: int| next_cell(g, i / 8, i % 8))
}

/// A flat external cell sequence is valid when it has exactly 64 entries,
/// each 0 or 1.
pub open spec fn valid_cells(cs: Seq<u8>) -> bool {
    cs.len() == 64 && (forall|i: int| 0 <= i < 64 ==> cs[i] <= 1)
}

/// Logical grid denoted by a flat 0/1 cell sequence.
pub open spec fn cells_to_grid(cs: Seq<u8>) -> Seq<bool> {
    Seq::new(64, |i: int| cs[i] == 1)
}

/// Flat 0/1 cell sequence denoting a logical grid.
pub open spec fn grid_to_cells(g: Seq<bool>) -> Seq<u8> {
    Seq::new(64, |i: int| if g[i] { 1u8 } else { 0u8 })
}

/// Row-major indexing is a bijection between (row, column) pairs and
/// flat indices: the decomposition of `grid_index(r, c)` recovers `r`
/// and `c`.
pub proof fn lemma_grid_index_decomposition(r: int, c: int)
    requires
        0 <= r < 8,
        0 <= c < 8,
    ensures
        0 <= grid_index(r, c) < 64,
        grid_index(r, c) / 8 == r,
        grid_index(r, c) % 8 == c,
{
}

/// Round-trip law, first direction: converting a valid flat cell sequence
/// to a logical grid and back returns the original sequence.
pub proof fn lemma_cells_round_trip(cs: Seq<u8>)
    requires
        valid_cells(cs),
    ensures
        grid_to_cells(cells_to_grid(cs)) == cs,
{
    assert(grid_to_cells(cells_to_grid(cs)) =~= cs);
}

/// Round-trip law, second direction: converting a logical grid to a flat
/// cell sequence and back returns the original grid.
pub proof fn lemma_grid_round_trip(g: Seq<bool>)
    requires
        is_grid(g),
    ensures
        cells_to_grid(grid_to_cells(g)) == g,
{
    assert(cells_to_grid(grid_to_cells(g)) =~= g);
}

/// Birth clause of the rule: a dead cell with exactly 3 live neighbors is
/// alive in the next generation.
pub proof fn lemma_birth(g: Seq<bool>, r: int, c: int)
    requires
        is_grid(g),
        0 <= r < 8,
        0 <= c < 8,
        !g[grid_index(r, c)],
        live_neighbors(g, r, c) == 3,
    ensures
        next_grid(g)[grid_index(r, c)],
{
    lemma_grid_index_decomposition(r, c);
}

/// Survival clause of the rule: a live cell with exactly 2 or 3 live
/// neighbors is alive in the next generation.
pub proof fn lemma_survival(g: Seq<bool>, r: int, c: int)
    requires
        is_grid(g),
        0 <= r < 8,
        0 <= c < 8,
        g[grid_index(r, c)],
        live_neighbors(g, r, c) == 2 || live_neighbors(g, r, c) == 3,
    ensures
        next_grid(g)[grid_index(r, c)],
{
    lemma_grid_index_decomposition(r, c);
}

/// Death clause of the rule: a cell with fewer than 2 or more than 3 live
/// neighbors is dead in the next generation, whatever its prior state, and
/// so is a dead cell with exactly 2.
pub proof fn lemma_death(g: Seq<bool>, r: int, c: int)
    requires
        is_grid(g),
        0 <= r < 8,
        0 <= c < 8,
        live_neighbors(g, r, c) != 3,
        !(g[grid_index(r, c)] && live_neighbors(g, r, c) == 2),
    ensures
        !next_grid(g)[grid_index(r, c)],
{
    lemma_grid_index_decomposition(r, c);
}

/// Toroidal wrap on the row axis: a live cell in row 0 is counted among
/// the neighbors of the cell in row 7 at the same or an adjacent column.
pub proof fn lemma_row_wrap(g: Seq<bool>, c: int, c2: int)
    requires
        is_grid(g),
        0 <= c < 8,
        0 <= c2 < 8,
        c == c2 || c == (c2 + 1) % 8 || c == (c2 + 7) % 8,
        g[grid_index(0, c)],
    ensures
        live_neighbors(g, 7, c2) >= 1,
{
}

/// Toroidal wrap on the column axis: a live cell in column 0 is counted
/// among the neighbors of the cell in column 7 at the same or an adjacent
/// row.
pub proof fn lemma_col_wrap(g: Seq<bool>, r: int, r2: int)
    requires
        is_grid(g),
        0 <= r < 8,
        0 <= r2 < 8,
        r == r2 || r == (r2 + 1) % 8 || r == (r2 + 7) % 8,
        g[grid_index(r, 0)],
    ensures
        live_neighbors(g, r2, 7) >= 1,
{
}

} // verus!
