//! The packed representation: a 256-bit value laid out as eight 32-bit
//! row lanes, each lane holding one grid row as eight 4-bit cell fields
//! (nibbles).  Nibble `c` of lane `r` is the cell at row `r`, column `c`;
//! inside every byte the even column sits in the low nibble and the odd
//! column in the high nibble.

use crate::grid::grid_index;
use vstd::prelude::*;

verus! {

/// Nibble `j` of a 32-bit lane: the 4-bit field at bits `4j .. 4j+4`.
pub open spec fn nib(x: u32, j: int) -> u32 {
    (x >> ((4 * j) as u32)) & 0xf
}

/// A lane is well formed when every nibble holds 0 or 1, i.e. it encodes
/// eight cells and no intermediate neighbor count.
pub open spec fn lane_wf(x: u32) -> bool {
    forall|j: int| 0 <= j < 8 ==> #[trigger] nib(x, j) <= 1
}

/// A packed 8x8 universe: lane `r` of `rows` holds grid row `r`.
///
/// The lanes are exposed as raw-bit access for the step engine; every
/// operation of the library requires and preserves the layout invariant
/// [`PackedUniverse::wf`].  Values should be created through the codec,
/// which establishes that invariant.
#[derive(Clone, Copy, Debug, PartialEq, Eq)]
pub struct PackedUniverse {
    /// The eight 32-bit row lanes, row 0 first.
    pub rows: [u32; 8],
}

impl PackedUniverse {
    /// Liveness of the cell at row `r`, column `c`, read from the packed bits.
    pub open spec fn cell(self, r: int, c: int) -> bool
        recommends
            0 <= r < 8,
            0 <= c < 8,
    {
        nib(self.rows[r], c) == 1
    }

    /// Layout invariant: every nibble of every lane holds exactly 0 or 1.
    pub open spec fn wf(self) -> bool {
        forall|r: int| 0 <= r < 8 ==> lane_wf(#[trigger] self.rows[r])
    }
}

impl View for PackedUniverse {
    type V = Seq<bool>;

    /// The logical grid denoted by the packed bits: cell `i` is alive
    /// exactly when its nibble holds 1.
    open spec fn view(&self) -> Seq<bool> {
        Seq::new(64, |i: int| self.cell(i / 8, i % 8))
    }
}

/// The view reads the packed bits row-major: the view at `grid_index(r, c)`
/// is the cell at row `r`, column `c`.
pub proof fn lemma_view_cell(u: PackedUniverse, r: int, c: int)
    requires
        0 <= r < 8,
        0 <= c < 8,
    ensures
        u@[grid_index(r, c)] == u.cell(r, c),
{
    crate::grid::lemma_grid_index_decomposition(r, c);
}

/// Packs eight 4-bit values into one 32-bit lane, value `ej` into nibble `j`.
pub(crate) fn pack_row(
    e0: u32,
    e1: u32,
    e2: u32,
    e3: u32,
    e4: u32,
    e5: u32,
    e6: u32,
    e7: u32,
) -> (r: u32)
    requires
        e0 <= 0xf,
        e1 <= 0xf,
        e2 <= 0xf,
        e3 <= 0xf,
        e4 <= 0xf,
        e5 <= 0xf,
        e6 <= 0xf,
        e7 <= 0xf,
    ensures
        nib(r, 0) == e0,
        nib(r, 1) == e1,
        nib(r, 2) == e2,
        nib(r, 3) == e3,
        nib(r, 4) == e4,
        nib(r, 5) == e5,
        nib(r, 6) == e6,
        nib(r, 7) == e7,
{
    let r = e0 | (e1 << 4u32) | (e2 << 8u32) | (e3 << 12u32) | (e4 << 16u32) | (e5 << 20u32) | (e6
        << 24u32) | (e7 << 28u32);
    proof {
        assert(nib(r, 0) == e0 && nib(r, 1) == e1 && nib(r, 2) == e2 && nib(r, 3) == e3 && nib(
            r,
            4,
        ) == e4 && nib(r, 5) == e5 && nib(r, 6) == e6 && nib(r, 7) == e7) by (bit_vector)
            requires
                e0 <= 0xf && e1 <= 0xf && e2 <= 0xf && e3 <= 0xf && e4 <= 0xf && e5 <= 0xf && e6
                    <= 0xf && e7 <= 0xf,
                r == e0 | (e1 << 4u32) | (e2 << 8u32) | (e3 << 12u32) | (e4 << 16u32) | (e5
                    << 20u32) | (e6 << 24u32) | (e7 << 28u32),
        ;
    }
    r
}

/// A lane is determined by its eight nibbles: the 4-bit fields cover all
/// 32 bits, so nibble-wise equal lanes are equal.
proof fn lemma_lane_from_nibbles(x: u32, y: u32)
    requires
        forall|j: int| 0 <= j < 8 ==> #[trigger] nib(x, j) == nib(y, j),
    ensures
        x == y,
{
    assert(nib(x, 0) == nib(y, 0) && nib(x, 1) == nib(y, 1) && nib(x, 2) == nib(y, 2) && nib(x, 3)
        == nib(y, 3) && nib(x, 4) == nib(y, 4) && nib(x, 5) == nib(y, 5) && nib(x, 6) == nib(y, 6)
        && nib(x, 7) == nib(y, 7));
    assert(x == y) by (bit_vector)
        requires
            nib(x, 0) == nib(y, 0) && nib(x, 1) == nib(y, 1) && nib(x, 2) == nib(y, 2) && nib(x, 3)
                == nib(y, 3) && nib(x, 4) == nib(y, 4) && nib(x, 5) == nib(y, 5) && nib(x, 6)
                == nib(y, 6) && nib(x, 7) == nib(y, 7),
    ;
}

/// Determinism of observation: the logical grid of a well-formed packed
/// value determines the packed bits themselves, so two well-formed values
/// with the same view are one value.
pub proof fn lemma_view_injective(a: PackedUniverse, b: PackedUniverse)
    requires
        a.wf(),
        b.wf(),
        a@ == b@,
    ensures
        a == b,
{
    assert forall|r: int| 0 <= r < 8 implies a.rows[r] == b.rows[r] by {
        assert forall|c: int| 0 <= c < 8 implies nib(a.rows[r], c) == nib(b.rows[r], c) by {
            lemma_view_cell(a, r, c);
            lemma_view_cell(b, r, c);
            assert(a@[grid_index(r, c)] == b@[grid_index(r, c)]);
        }
        lemma_lane_from_nibbles(a.rows[r], b.rows[r]);
    }
    assert(a.rows =~= b.rows);
}

} // verus!
