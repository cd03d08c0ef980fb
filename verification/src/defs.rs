//! Shared definitions: primitive type aliases and the constants that are
//! used throughout the engine.

use vstd::prelude::*;

verus! {

pub type Bitboard = u64;

pub type Piece = usize;

pub type Side = usize;

pub type Square = usize;

pub const WHITE: Side = 0;

pub const BLACK: Side = 1;

pub const EACH_SIDE: usize = 2;

pub const EMPTY: u64 = 0;

pub const FEN_START_POSITION: &'static str =
    "rnbqkbnr/pppppppp/8/8/8/8/PPPPPPPP/RNBQKBNR w KQkq - 0 1";

/// Piece type encoding: the first six are real piece types, `PNONE` is the
/// sentinel for an empty square in the piece list.
pub const KING: Piece = 0;

pub const QUEEN: Piece = 1;

pub const ROOK: Piece = 2;

pub const BISHOP: Piece = 3;

pub const KNIGHT: Piece = 4;

pub const PAWN: Piece = 5;

pub const PNONE: Piece = 6;

pub struct NrOf;

impl NrOf {
    pub const SQUARES: usize = 64;

    pub const FILES: usize = 8;

    pub const RANKS: usize = 8;

    pub const PIECES: usize = 6;

    pub const CASTLING_PERMISSIONS: usize = 16;
}

pub struct Castling;

impl Castling {
    pub const WK: u8 = 1;

    pub const WQ: u8 = 2;

    pub const BK: u8 = 4;

    pub const BQ: u8 = 8;

    pub const ALL: u8 = 15;
}

/// The squares that play a role in castling and rook-capture rules.
pub const A1: usize = 0;

pub const B1: usize = 1;

pub const C1: usize = 2;

pub const D1: usize = 3;

pub const E1: usize = 4;

pub const F1: usize = 5;

pub const G1: usize = 6;

pub const H1: usize = 7;

pub const A8: usize = 56;

pub const B8: usize = 57;

pub const C8: usize = 58;

pub const D8: usize = 59;

pub const E8: usize = 60;

pub const F8: usize = 61;

pub const G8: usize = 62;

pub const H8: usize = 63;

pub const MAX_GAME_MOVES: usize = 2048;

pub const MAX_LEGAL_MOVES: u8 = 255;

/// Half-move clock threshold for the fifty-move rule, counted in plies.
pub const MAX_MOVE_RULE: u8 = 100;

/// Maximum search depth in plies.
pub const MAX_DEPTH: u8 = 125;

} // verus!
