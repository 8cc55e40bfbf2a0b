//! The step engine: advances a packed universe by one generation.
//!
//! The transition is bit-parallel per row lane: the three relevant lanes
//! (the row above, the row itself, the row below, wrapping modulo 8) are
//! rotated nibble-wise to align each cell with its eight Moore neighbors,
//! the eight views are summed nibble-wise — carry-free, because each
//! summand nibble is 0 or 1 and a 4-bit field holds counts up to 15 while
//! the running total never exceeds 8 — the cell's own state is merged in
//! with a bitwise OR, and a nibble equal to exactly 3 marks a live cell of
//! the next generation.

use crate::codec::{decode, encode, CodecError};
use crate::grid::{cells_to_grid, grid_to_cells, live_neighbors, next_cell, next_grid, valid_cells};
use crate::universe::{lane_wf, lemma_view_cell, nib, PackedUniverse};
use vstd::prelude::*;

verus! {

/// The grid after `n` generations of the B3/S23 rule.
pub open spec fn grid_after(g: Seq<bool>, n: nat) -> Seq<bool>
    decreases n,
{
    if n == 0 {
        g
    } else {
        next_grid(grid_after(g, (n - 1) as nat))
    }
}

/// Every nibble of the lane is at most `k`.
pub open spec fn lane_bounded(x: u32, k: u32) -> bool {
    forall|j: int| 0 <= j < 8 ==> #[trigger] nib(x, j) <= k
}

/// Neighbor count of the cell in column `j`, read from the three lanes
/// `up` (row above), `cur` (the row itself) and `dn` (row below): the
/// eight Moore neighbors are the adjacent columns of all three lanes and
/// column `j` itself of `up` and `dn`, columns wrapping modulo 8.
pub open spec fn lane_neighbor_sum(up: u32, cur: u32, dn: u32, j: int) -> int {
    nib(up, (j + 7) % 8) + nib(up, j) + nib(up, (j + 1) % 8) + nib(cur, (j + 7) % 8) + nib(
        cur,
        (j + 1) % 8,
    ) + nib(dn, (j + 7) % 8) + nib(dn, j) + nib(dn, (j + 1) % 8)
}

/// B3/S23 at lane level: the cell in column `j` is alive next generation
/// when its neighbor count is exactly 3, or it is alive now and the count
/// is exactly 2.
pub open spec fn lane_next(up: u32, cur: u32, dn: u32, j: int) -> bool {
    lane_neighbor_sum(up, cur, dn, j) == 3 || (nib(cur, j) == 1 && lane_neighbor_sum(
        up,
        cur,
        dn,
        j,
    ) == 2)
}

/// Rotates the eight nibble fields one position toward the low end of the
/// lane: nibble `j` of the result is nibble `(j + 1) % 8` of the input, so
/// each cell is aligned with its right-hand neighbor (toroidal column wrap,
/// confined to the lane).
fn rot_col_next(x: u32) -> (r: u32)
    ensures
        forall|j: int| 0 <= j < 8 ==> #[trigger] nib(r, j) == nib(x, (j + 1) % 8),
{
    let r = (x >> 4u32) | (x << 28u32);
    proof {
        assert(nib(r, 0) == nib(x, 1) && nib(r, 1) == nib(x, 2) && nib(r, 2) == nib(x, 3) && nib(
            r,
            3,
        ) == nib(x, 4) && nib(r, 4) == nib(x, 5) && nib(r, 5) == nib(x, 6) && nib(r, 6) == nib(
            x,
            7,
        ) && nib(r, 7) == nib(x, 0)) by (bit_vector)
            requires
                r == (x >> 4u32) | (x << 28u32),
        ;
        assert forall|j: int| 0 <= j < 8 implies #[trigger] nib(r, j) == nib(x, (j + 1) % 8) by {
            if j == 0 {
            } else if j == 1 {
            } else if j == 2 {
            } else if j == 3 {
            } else if j == 4 {
            } else if j == 5 {
            } else if j == 6 {
            } else {
                assert(j == 7);
            }
        }
    }
    r
}

/// Rotates the eight nibble fields one position toward the high end of the
/// lane: nibble `j` of the result is nibble `(j + 7) % 8` of the input, so
/// each cell is aligned with its left-hand neighbor (toroidal column wrap,
/// confined to the lane).
fn rot_col_prev(x: u32) -> (r: u32)
    ensures
        forall|j: int| 0 <= j < 8 ==> #[trigger] nib(r, j) == nib(x, (j + 7) % 8),
{
    let r = (x << 4u32) | (x >> 28u32);
    proof {
        assert(nib(r, 0) == nib(x, 7) && nib(r, 1) == nib(x, 0) && nib(r, 2) == nib(x, 1) && nib(
            r,
            3,
        ) == nib(x, 2) && nib(r, 4) == nib(x, 3) && nib(r, 5) == nib(x, 4) && nib(r, 6) == nib(
            x,
            5,
        ) && nib(r, 7) == nib(x, 6)) by (bit_vector)
            requires
                r == (x << 4u32) | (x >> 28u32),
        ;
        assert forall|j: int| 0 <= j < 8 implies #[trigger] nib(r, j) == nib(x, (j + 7) % 8) by {
            if j == 0 {
            } else if j == 1 {
            } else if j == 2 {
            } else if j == 3 {
            } else if j == 4 {
            } else if j == 5 {
            } else if j == 6 {
            } else {
                assert(j == 7);
            }
        }
    }
    r
}

/// Nibble-wise addition is carry-free while every field stays below 16:
/// with the left summand's nibbles at most `ka` (at most 14) and the right
/// summand's nibbles at most 1, the 32-bit sum neither overflows nor
/// carries across a field boundary, so each nibble of the sum is the sum
/// of the corresponding nibbles.
proof fn lemma_lane_add(a: u32, b: u32, ka: u32)
    requires
        ka <= 14,
        lane_bounded(a, ka),
        lane_bounded(b, 1),
    ensures
        a + b <= u32::MAX,
        forall|j: int| 0 <= j < 8 ==> #[trigger] nib((a + b) as u32, j) == nib(a, j) + nib(b, j),
{
    assert(a + b <= 0xffff_ffffu32 && nib((a + b) as u32, 0) == nib(a, 0) + nib(b, 0) && nib(
        (a + b) as u32,
        1,
    ) == nib(a, 1) + nib(b, 1) && nib((a + b) as u32, 2) == nib(a, 2) + nib(b, 2) && nib(
        (a + b) as u32,
        3,
    ) == nib(a, 3) + nib(b, 3) && nib((a + b) as u32, 4) == nib(a, 4) + nib(b, 4) && nib(
        (a + b) as u32,
        5,
    ) == nib(a, 5) + nib(b, 5) && nib((a + b) as u32, 6) == nib(a, 6) + nib(b, 6) && nib(
        (a + b) as u32,
        7,
    ) == nib(a, 7) + nib(b, 7)) by (bit_vector)
        requires
            ka <= 14 && nib(a, 0) <= ka && nib(a, 1) <= ka && nib(a, 2) <= ka && nib(a, 3) <= ka
                && nib(a, 4) <= ka && nib(a, 5) <= ka && nib(a, 6) <= ka && nib(a, 7) <= ka && nib(
                b,
                0,
            ) <= 1 && nib(b, 1) <= 1 && nib(b, 2) <= 1 && nib(b, 3) <= 1 && nib(b, 4) <= 1 && nib(
                b,
                5,
            ) <= 1 && nib(b, 6) <= 1 && nib(b, 7) <= 1,
    ;
    assert forall|j: int| 0 <= j < 8 implies #[trigger] nib((a + b) as u32, j) == nib(a, j) + nib(
        b,
        j,
    ) by {
        if j == 0 {
        } else if j == 1 {
        } else if j == 2 {
        } else if j == 3 {
        } else if j == 4 {
        } else if j == 5 {
        } else if j == 6 {
        } else {
            assert(j == 7);
        }
    }
}

/// Merging the cell's own state into the neighbor counts with a bitwise OR
/// and testing each field against exactly 3 decides B3/S23 in one
/// comparison: a dead cell's field stays the raw count and equals 3 only
/// on birth; a live cell's field is the count with bit 0 forced, which
/// equals 3 exactly when the count is 2 or 3.
proof fn lemma_merge_eq3(s: u32, c: u32)
    requires
        lane_bounded(s, 8),
        lane_wf(c),
    ensures
        forall|j: int| 0 <= j < 8 ==> ((#[trigger] nib(s | c, j) == 3) <==> (nib(s, j) == 3 || (
        nib(c, j) == 1 && nib(s, j) == 2))),
{
    assert(((nib(s | c, 0) == 3) <==> (nib(s, 0) == 3 || (nib(c, 0) == 1 && nib(s, 0) == 2))) && ((
    nib(s | c, 1) == 3) <==> (nib(s, 1) == 3 || (nib(c, 1) == 1 && nib(s, 1) == 2))) && ((nib(
        s | c,
        2,
    ) == 3) <==> (nib(s, 2) == 3 || (nib(c, 2) == 1 && nib(s, 2) == 2))) && ((nib(s | c, 3) == 3)
        <==> (nib(s, 3) == 3 || (nib(c, 3) == 1 && nib(s, 3) == 2))) && ((nib(s | c, 4) == 3) <==> (
    nib(s, 4) == 3 || (nib(c, 4) == 1 && nib(s, 4) == 2))) && ((nib(s | c, 5) == 3) <==> (nib(s, 5)
        == 3 || (nib(c, 5) == 1 && nib(s, 5) == 2))) && ((nib(s | c, 6) == 3) <==> (nib(s, 6) == 3
        || (nib(c, 6) == 1 && nib(s, 6) == 2))) && ((nib(s | c, 7) == 3) <==> (nib(s, 7) == 3 || (
    nib(c, 7) == 1 && nib(s, 7) == 2)))) by (bit_vector)
        requires
            nib(s, 0) <= 8 && nib(s, 1) <= 8 && nib(s, 2) <= 8 && nib(s, 3) <= 8 && nib(s, 4) <= 8
                && nib(s, 5) <= 8 && nib(s, 6) <= 8 && nib(s, 7) <= 8 && nib(c, 0) <= 1 && nib(
                c,
                1,
            ) <= 1 && nib(c, 2) <= 1 && nib(c, 3) <= 1 && nib(c, 4) <= 1 && nib(c, 5) <= 1 && nib(
                c,
                6,
            ) <= 1 && nib(c, 7) <= 1,
    ;
    assert forall|j: int| 0 <= j < 8 implies ((#[trigger] nib(s | c, j) == 3) <==> (nib(s, j) == 3
        || (nib(c, j) == 1 && nib(s, j) == 2))) by {
        if j == 0 {
        } else if j == 1 {
        } else if j == 2 {
        } else if j == 3 {
        } else if j == 4 {
        } else if j == 5 {
        } else if j == 6 {
        } else {
            assert(j == 7);
        }
    }
}

/// Advances one grid row: given the lane above, the row's own lane and the
/// lane below (all well formed), returns the row's lane for the next
/// generation.
fn step_row(up: u32, cur: u32, dn: u32) -> (r: u32)
    requires
        lane_wf(up),
        lane_wf(cur),
        lane_wf(dn),
    ensures
        lane_wf(r),
        forall|j: int| 0 <= j < 8 ==> #[trigger] nib(r, j) == (if lane_next(up, cur, dn, j) {
            1u32
        } else {
            0u32
        }),
{
    let ul = rot_col_prev(up);
    let ur = rot_col_next(up);
    let cl = rot_col_prev(cur);
    let cr = rot_col_next(cur);
    let dl = rot_col_prev(dn);
    let dr = rot_col_next(dn);
    proof {
        assert(lane_bounded(up, 1) && lane_bounded(ul, 1) && lane_bounded(ur, 1) && lane_bounded(
            cl,
            1,
        ) && lane_bounded(cr, 1) && lane_bounded(dn, 1) && lane_bounded(dl, 1) && lane_bounded(
            dr,
            1,
        ));
        lemma_lane_add(up, ul, 1);
    }
    let s1 = up + ul;
    proof {
        assert(lane_bounded(s1, 2));
        lemma_lane_add(s1, ur, 2);
    }
    let s2 = s1 + ur;
    proof {
        assert(lane_bounded(s2, 3));
        lemma_lane_add(s2, cl, 3);
    }
    let s3 = s2 + cl;
    proof {
        assert(lane_bounded(s3, 4));
        lemma_lane_add(s3, cr, 4);
    }
    let s4 = s3 + cr;
    proof {
        assert(lane_bounded(s4, 5));
        lemma_lane_add(s4, dn, 5);
    }
    let s5 = s4 + dn;
    proof {
        assert(lane_bounded(s5, 6));
        lemma_lane_add(s5, dl, 6);
    }
    let s6 = s5 + dl;
    proof {
        assert(lane_bounded(s6, 7));
        lemma_lane_add(s6, dr, 7);
    }
    let s7 = s6 + dr;
    proof {
        assert(forall|j: int|
            0 <= j < 8 ==> #[trigger] nib(s7, j) == lane_neighbor_sum(up, cur, dn, j));
        assert(lane_bounded(s7, 8));
        lemma_merge_eq3(s7, cur);
    }
    let m = s7 | cur;
    let e0: u32 = if (m & 0xf) == 3 {
        1
    } else {
        0
    };
    let e1: u32 = if ((m >> 4u32) & 0xf) == 3 {
        1
    } else {
        0
    };
    let e2: u32 = if ((m >> 8u32) & 0xf) == 3 {
        1
    } else {
        0
    };
    let e3: u32 = if ((m >> 12u32) & 0xf) == 3 {
        1
    } else {
        0
    };
    let e4: u32 = if ((m >> 16u32) & 0xf) == 3 {
        1
    } else {
        0
    };
    let e5: u32 = if ((m >> 20u32) & 0xf) == 3 {
        1
    } else {
        0
    };
    let e6: u32 = if ((m >> 24u32) & 0xf) == 3 {
        1
    } else {
        0
    };
    let e7: u32 = if ((m >> 28u32) & 0xf) == 3 {
        1
    } else {
        0
    };
    proof {
        assert(m & 0xf == nib(m, 0)) by (bit_vector);
        assert forall|j: int| 0 <= j < 8 implies ((nib(m, j) == 3) <==> lane_next(
            up,
            cur,
            dn,
            j,
        )) by {
            assert((nib(s7 | cur, j) == 3) <==> (nib(s7, j) == 3 || (nib(cur, j) == 1 && nib(
                s7,
                j,
            ) == 2)));
            assert(nib(s7, j) == lane_neighbor_sum(up, cur, dn, j));
        }
        assert(e0 == (if nib(m, 0) == 3 {
            1u32
        } else {
            0u32
        }));
        assert(e1 == (if nib(m, 1) == 3 {
            1u32
        } else {
            0u32
        }));
        assert(e2 == (if nib(m, 2) == 3 {
            1u32
        } else {
            0u32
        }));
        assert(e3 == (if nib(m, 3) == 3 {
            1u32
        } else {
            0u32
        }));
        assert(e4 == (if nib(m, 4) == 3 {
            1u32
        } else {
            0u32
        }));
        assert(e5 == (if nib(m, 5) == 3 {
            1u32
        } else {
            0u32
        }));
        assert(e6 == (if nib(m, 6) == 3 {
            1u32
        } else {
            0u32
        }));
        assert(e7 == (if nib(m, 7) == 3 {
            1u32
        } else {
            0u32
        }));
    }
    let r = crate::universe::pack_row(e0, e1, e2, e3, e4, e5, e6, e7);
    proof {
        assert forall|j: int| 0 <= j < 8 implies #[trigger] nib(r, j) == (if lane_next(
            up,
            cur,
            dn,
            j,
        ) {
            1u32
        } else {
            0u32
        }) by {
            if j == 0 {
                assert(nib(r, 0) == e0);
            } else if j == 1 {
                assert(nib(r, 1) == e1);
            } else if j == 2 {
                assert(nib(r, 2) == e2);
            } else if j == 3 {
                assert(nib(r, 3) == e3);
            } else if j == 4 {
                assert(nib(r, 4) == e4);
            } else if j == 5 {
                assert(nib(r, 5) == e5);
            } else if j == 6 {
                assert(nib(r, 6) == e6);
            } else {
                assert(j == 7);
                assert(nib(r, 7) == e7);
            }
        }
    }
    r
}

/// At every position, the lane-level transition agrees with the logical
/// rule on the universe's grid.
proof fn lemma_lane_next_matches(u: PackedUniverse, r: int, c: int)
    requires
        u.wf(),
        0 <= r < 8,
        0 <= c < 8,
    ensures
        lane_neighbor_sum(u.rows[(r + 1) % 8], u.rows[r], u.rows[(r + 7) % 8], c)
            == live_neighbors(u@, r, c),
        lane_next(u.rows[(r + 1) % 8], u.rows[r], u.rows[(r + 7) % 8], c) <==> next_cell(u@, r, c),
{
    let ra = (r + 1) % 8;
    let rb = (r + 7) % 8;
    let ca = (c + 1) % 8;
    let cb = (c + 7) % 8;
    lemma_view_cell(u, ra, cb);
    lemma_view_cell(u, ra, c);
    lemma_view_cell(u, ra, ca);
    lemma_view_cell(u, r, cb);
    lemma_view_cell(u, r, c);
    lemma_view_cell(u, r, ca);
    lemma_view_cell(u, rb, cb);
    lemma_view_cell(u, rb, c);
    lemma_view_cell(u, rb, ca);
}

/// A packed value whose every lane holds, nibble by nibble, the lane-level
/// transition of the corresponding three lanes of a well-formed packed
/// value is that value's next generation: it is well formed again and its
/// grid is the stepped grid.
proof fn lemma_assemble(o: PackedUniverse, n: PackedUniverse)
    requires
        o.wf(),
        forall|rr: int, j: int|
            0 <= rr < 8 && 0 <= j < 8 ==> #[trigger] nib(n.rows[rr], j) == (if lane_next(
                o.rows[(rr + 1) % 8],
                o.rows[rr],
                o.rows[(rr + 7) % 8],
                j,
            ) {
                1u32
            } else {
                0u32
            }),
    ensures
        n.wf(),
        n@ == next_grid(o@),
{
    assert forall|i: int| 0 <= i < 64 implies n@[i] == next_grid(o@)[i] by {
        let rr = i / 8;
        let c = i % 8;
        lemma_lane_next_matches(o, rr, c);
        assert(n@[i] == (nib(n.rows[rr], c) == 1));
    }
    assert(n@ =~= next_grid(o@));
}

/// Advances the universe by exactly one generation in place, applying
/// B3/S23 with toroidal wrap on both axes to all 64 cells at once.  Total
/// over every well-formed packed value; preserves the layout invariant.
pub fn step(u: &mut PackedUniverse)
    requires
        old(u).wf(),
    ensures
        final(u).wf(),
        final(u)@ == next_grid(old(u)@),
{
    let rows = u.rows;
    let n0 = step_row(rows[1], rows[0], rows[7]);
    let n1 = step_row(rows[2], rows[1], rows[0]);
    let n2 = step_row(rows[3], rows[2], rows[1]);
    let n3 = step_row(rows[4], rows[3], rows[2]);
    let n4 = step_row(rows[5], rows[4], rows[3]);
    let n5 = step_row(rows[6], rows[5], rows[4]);
    let n6 = step_row(rows[7], rows[6], rows[5]);
    let n7 = step_row(rows[0], rows[7], rows[6]);
    u.rows = [n0, n1, n2, n3, n4, n5, n6, n7];
    proof {
        assert forall|rr: int, j: int|
            0 <= rr < 8 && 0 <= j < 8 implies #[trigger] nib(u.rows[rr], j) == (if lane_next(
            old(u).rows[(rr + 1) % 8],
            old(u).rows[rr],
            old(u).rows[(rr + 7) % 8],
            j,
        ) {
            1u32
        } else {
            0u32
        }) by {
            if rr == 0 {
                assert(u.rows[0] == n0);
            } else if rr == 1 {
                assert(u.rows[1] == n1);
            } else if rr == 2 {
                assert(u.rows[2] == n2);
            } else if rr == 3 {
                assert(u.rows[3] == n3);
            } else if rr == 4 {
                assert(u.rows[4] == n4);
            } else if rr == 5 {
                assert(u.rows[5] == n5);
            } else if rr == 6 {
                assert(u.rows[6] == n6);
            } else {
                assert(rr == 7);
                assert(u.rows[7] == n7);
            }
        }
        lemma_assemble(*old(u), *u);
    }
}

/// Simulates `generations` steps from a flat cell sequence and returns the
/// resulting flat cell sequence.
///
/// Returns `Ok` exactly when the input has 64 entries, each 0 or 1, and
/// then the output is the input's grid advanced `generations` times; any
/// other input is rejected with `InvalidInput`.
pub fn simulate(cells: &Vec<u8>, generations: usize) -> (r: Result<Vec<u8>, CodecError>)
    ensures
        r is Ok <==> valid_cells(cells@),
        r matches Ok(out) ==> out@ == grid_to_cells(
            grid_after(cells_to_grid(cells@), generations as nat),
        ),
        r is Err ==> r == Err::<Vec<u8>, CodecError>(CodecError::InvalidInput),
{
    let mut universe = match encode(cells) {
        Ok(u) => u,
        Err(e) => {
            return Err(e);
        },
    };
    for k in 0..generations
        invariant
            universe.wf(),
            universe@ == grid_after(cells_to_grid(cells@), k as nat),
    {
        step(&mut universe);
    }
    Ok(decode(&universe))
}

} // verus!
