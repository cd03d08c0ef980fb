//! A chess engine library: bitboard position with incrementally maintained
//! hashing, pseudo-legal move generation, make/unmake with verified
//! restoration, FEN reading, draw rules, and an alpha-beta search core.

pub mod defs;
pub mod bits;
pub mod movedefs;
pub mod gamestate;
pub mod zobrist;
pub mod model;
pub mod boardproofs;
pub mod board;
pub mod makemove;
pub mod movegen;
pub mod fen;
pub mod engine_defs;
pub mod search;
pub mod shell;
pub mod engine_core;

use vstd::prelude::*;

verus! {

} // verus!
