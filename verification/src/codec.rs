//! Conversion between the external flat cell format (64 values, each 0 or
//! 1, row-major) and the packed representation.

use crate::grid::{cells_to_grid, grid_to_cells, valid_cells};
use crate::universe::{lane_wf, nib, pack_row, PackedUniverse};
use vstd::prelude::*;

verus! {

/// Errors of the codec.
#[derive(Clone, Copy, Debug, PartialEq, Eq, Structural)]
pub enum CodecError {
    /// The flat cell sequence did not have exactly 64 entries, or held a
    /// value other than 0 and 1.
    InvalidInput,
}

/// Packs the eight cells of one grid row, read from the flat sequence at
/// offset `base`, into one lane.
fn encode_row(cells: &Vec<u8>, base: usize) -> (r: u32)
    requires
        valid_cells(cells@),
        base + 8 <= 64,
    ensures
        lane_wf(r),
        forall|j: int| 0 <= j < 8 ==> #[trigger] nib(r, j) == cells@[base + j],
{
    let r = pack_row(
        cells[base] as u32,
        cells[base + 1] as u32,
        cells[base + 2] as u32,
        cells[base + 3] as u32,
        cells[base + 4] as u32,
        cells[base + 5] as u32,
        cells[base + 6] as u32,
        cells[base + 7] as u32,
    );
    proof {
        assert forall|j: int| 0 <= j < 8 implies #[trigger] nib(r, j) == cells@[base + j] by {
            if j == 0 {
            } else if j == 1 {
            } else if j == 2 {
            } else if j == 3 {
            } else if j == 4 {
            } else if j == 5 {
            } else if j == 6 {
            } else {
                assert(j == 7);
            }
        }
    }
    r
}

/// Builds a packed universe from a flat cell sequence.
///
/// Returns `Ok` exactly when the input has 64 entries, each 0 or 1; the
/// packed result then denotes the same grid and satisfies the layout
/// invariant.  Any other input is rejected with `InvalidInput`.
pub fn encode(cells: &Vec<u8>) -> (r: Result<PackedUniverse, CodecError>)
    ensures
        r is Ok <==> valid_cells(cells@),
        r matches Ok(u) ==> u.wf() && u@ == cells_to_grid(cells@),
        r is Err ==> r == Err::<PackedUniverse, CodecError>(CodecError::InvalidInput),
{
    if cells.len() != 64 {
        return Err(CodecError::InvalidInput);
    }
    for i in 0..64
        invariant
            cells@.len() == 64,
            forall|k: int| 0 <= k < i ==> cells@[k] <= 1,
    {
        if cells[i] > 1 {
            return Err(CodecError::InvalidInput);
        }
    }
    let u = PackedUniverse {
        rows: [
            encode_row(cells, 0),
            encode_row(cells, 8),
            encode_row(cells, 16),
            encode_row(cells, 24),
            encode_row(cells, 32),
            encode_row(cells, 40),
            encode_row(cells, 48),
            encode_row(cells, 56),
        ],
    };
    proof {
        assert forall|i: int| 0 <= i < 64 implies u@[i] == (cells@[i] == 1) by {
            let r = i / 8;
            let c = i % 8;
            assert(u@[i] == u.cell(r, c));
            assert(i == 8 * r + c);
            assert(nib(u.rows[r], c) == cells@[i]) by {
                if r == 0 {
                } else if r == 1 {
                } else if r == 2 {
                } else if r == 3 {
                } else if r == 4 {
                } else if r == 5 {
                } else if r == 6 {
                } else {
                    assert(r == 7);
                }
            }
        }
        assert(u@ =~= cells_to_grid(cells@));
    }
    Ok(u)
}

/// Unpacks a packed universe into its flat cell sequence: the exact
/// inverse of [`encode`] on well-formed packed values.
pub fn decode(u: &PackedUniverse) -> (r: Vec<u8>)
    requires
        u.wf(),
    ensures
        r@ == grid_to_cells(u@),
        valid_cells(r@),
{
    let mut out: Vec<u8> = Vec::new();
    for i in 0..64
        invariant
            u.wf(),
            out@.len() == i,
            forall|k: int| 0 <= k < i ==> out@[k] == grid_to_cells(u@)[k],
    {
        let lane = u.rows[i / 8];
        let sh: u32 = (4 * (i % 8)) as u32;
        let v_wide = (lane >> sh) & 0xf;
        proof {
            assert((lane >> sh) & 0xf <= 0xf) by (bit_vector);
            assert(v_wide == nib(lane, i as int % 8));
            assert(u@[i as int] == (nib(u.rows[i as int / 8], i as int % 8) == 1));
        }
        let v = v_wide as u8;
        out.push(v);
    }
    proof {
        assert(out@ =~= grid_to_cells(u@));
    }
    out
}

} // verus!
