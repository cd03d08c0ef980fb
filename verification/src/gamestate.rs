//! The irreversible part of a position: everything that cannot be recomputed
//! after a move is taken back, so it is snapshotted into the history stack.

use vstd::prelude::*;
use crate::movedefs::Move;

verus! {

#[derive(Clone, Copy, Debug)]
pub struct GameState {
    /// Side to move: 0 for white, 1 for black.
    pub active_color: u8,
    /// Castling permission bitmask (WK=1, WQ=2, BK=4, BQ=8).
    pub castling: u8,
    /// En-passant target square, if the previous move was a double step.
    pub en_passant: Option<u8>,
    /// Plies since the last capture or pawn move (fifty-move rule).
    pub halfmove_clock: u8,
    /// Full move number, incremented after black moves.
    pub fullmove_number: u16,
    /// Incrementally maintained position hash.
    pub zobrist_key: u64,
    /// The last move that led to this position.
    pub next_move: Move,
}

impl GameState {
    pub fn new() -> (gs: GameState)
        ensures
            gs.active_color == 0,
            gs.castling == 0,
            gs.en_passant is None,
            gs.halfmove_clock == 0,
            gs.fullmove_number == 0,
            gs.zobrist_key == 0,
            gs.next_move.data == 0,
    {
        GameState {
            active_color: 0,
            castling: 0,
            en_passant: None,
            halfmove_clock: 0,
            fullmove_number: 0,
            zobrist_key: 0,
            next_move: Move { data: 0 },
        }
    }
}

} // verus!
