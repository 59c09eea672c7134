//! A falling-block puzzle engine: the playfield, the pieces, the supply of
//! upcoming pieces and the per-frame rules of a session.

use vstd::prelude::*;

pub mod color;
pub mod tetromino;
pub mod board;
pub mod supply;
pub mod input;
pub mod game;
mod random;

verus! {

/// Number of columns of the playfield.
pub const COLS: usize = 10;

/// Number of rows of the playfield.
pub const ROWS: usize = 20;

} // verus!
