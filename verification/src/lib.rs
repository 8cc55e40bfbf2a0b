//! Conway's Game of Life on a fixed 8x8 toroidal grid.
//!
//! The universe is stored packed: 256 bits split into eight 32-bit row
//! lanes, each lane split into eight 4-bit cell fields (nibbles).  The
//! step engine advances all 64 cells one generation with a fixed sequence
//! of lane rotations, carry-free nibble-wise additions and an
//! equality-with-three test, the classic bit-parallel formulation of the
//! B3/S23 rule.
//!
//! - [`grid`] holds the logical model: a 64-element boolean sequence with
//!   Moore-neighborhood adjacency wrapping on both axes.
//! - [`universe`] defines the packed value type and its layout invariant.
//! - [`codec`] converts between flat 0/1 cell sequences and packed values.
//! - [`engine`] advances a packed value by one generation.

pub mod codec;
pub mod engine;
pub mod grid;
pub mod universe;
