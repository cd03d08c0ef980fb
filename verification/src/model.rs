//! The mathematical model of a position.
//!
//! `BoardModel` mirrors every field of the executable board as sequences and
//! plain values. The well-formedness predicates state the board invariants:
//! per-side occupancy is the union of the piece bitboards, the piece list
//! agrees with the bitboards on every square, the material counters equal
//! their recomputation, and the stored hash key equals its recomputation
//! from scratch. `spec_put` and `spec_rem` are the effects of the two
//! primitive mutations, and `undo_spec` is the exact reversal of a made move.

use vstd::prelude::*;
use crate::bits::bit;
use crate::defs::{
    KING, QUEEN, ROOK, BISHOP, KNIGHT, PAWN, PNONE, Castling, A1, B1, C1, D1, E1, F1, G1, H1, A8,
    B8, C8, D8, E8, F8, G8, H8,
};
use crate::gamestate::GameState;
use crate::movedefs::Move;

verus! {

#[verifier::ext_equal]
pub ghost struct BoardModel {
    pub bb_side: Seq<u64>,
    pub bb_pieces: Seq<u64>,
    pub piece_list: Seq<usize>,
    pub material: Seq<u16>,
    pub game_state: GameState,
    pub history: Seq<GameState>,
    pub zpieces: Seq<u64>,
    pub zcastling: Seq<u64>,
    pub zsides: Seq<u64>,
    pub zep: Seq<u64>,
}

/// Centipawn value of a piece type.
pub open spec fn piece_value(p: int) -> int {
    if p == KING {
        0
    } else if p == QUEEN {
        900
    } else if p == ROOK {
        500
    } else if p == BISHOP {
        300
    } else if p == KNIGHT {
        300
    } else if p == PAWN {
        100
    } else {
        0
    }
}

/// True iff side `s` has a piece of type `p` on square `sq`.
pub open spec fn has(m: BoardModel, s: int, p: int, sq: int) -> bool {
    bit(m.bb_side[s * 6 + p], sq as u64)
}

/// True iff side `s` occupies square `sq` according to its occupancy board.
pub open spec fn occ_side(m: BoardModel, s: int, sq: int) -> bool {
    bit(m.bb_pieces[s], sq as u64)
}

/// Union of the six piece bitboards of one side.
pub open spec fn or6(m: BoardModel, s: int) -> u64 {
    m.bb_side[s * 6] | m.bb_side[s * 6 + 1] | m.bb_side[s * 6 + 2] | m.bb_side[s * 6 + 3]
        | m.bb_side[s * 6 + 4] | m.bb_side[s * 6 + 5]
}

/// The hashing key of a piece of side `s` of type `p` on square `sq`.
pub open spec fn piece_key(m: BoardModel, s: int, p: int, sq: int) -> u64 {
    m.zpieces[(s * 6 + p) * 64 + sq]
}

pub open spec fn castle_key(m: BoardModel, c: u8) -> u64 {
    m.zcastling[c as int]
}

pub open spec fn side_key(m: BoardModel, s: int) -> u64 {
    m.zsides[s]
}

pub open spec fn ep_key(m: BoardModel, ep: Option<u8>) -> u64 {
    match ep {
        Some(e) => m.zep[(e % 8) as int],
        None => m.zep[8],
    }
}

/// The side occupying a square (meaningful only for occupied squares).
pub open spec fn side_of(m: BoardModel, sq: int) -> int {
    if occ_side(m, 0, sq) {
        0
    } else {
        1
    }
}

/// Material contributed by square `sq` to side `s`.
pub open spec fn mat_contrib(m: BoardModel, s: int, sq: int) -> int {
    if m.piece_list[sq] != PNONE && occ_side(m, s, sq) {
        piece_value(m.piece_list[sq] as int)
    } else {
        0
    }
}

/// Material of side `s` summed over the squares below `n`.
pub open spec fn mat_sum(m: BoardModel, s: int, n: int) -> int
    decreases n,
{
    if n <= 0 {
        0
    } else {
        mat_sum(m, s, n - 1) + mat_contrib(m, s, n - 1)
    }
}

/// Hash contribution of square `sq`: the key of the piece standing there.
pub open spec fn z_contrib(m: BoardModel, sq: int) -> u64 {
    if m.piece_list[sq] == PNONE {
        0
    } else {
        piece_key(m, side_of(m, sq), m.piece_list[sq] as int, sq)
    }
}

/// Exclusive-or of the hash contributions of the squares below `n`.
pub open spec fn z_fold(m: BoardModel, n: int) -> u64
    decreases n,
{
    if n <= 0 {
        0
    } else {
        z_fold(m, n - 1) ^ z_contrib(m, n - 1)
    }
}

/// The hash key of the position recomputed from scratch.
pub open spec fn zobrist_scratch(m: BoardModel) -> u64 {
    z_fold(m, 64) ^ castle_key(m, m.game_state.castling) ^ side_key(
        m,
        m.game_state.active_color as int,
    ) ^ ep_key(m, m.game_state.en_passant)
}

/// Occupied-square indicator for counting the pieces on the board.
pub open spec fn count_contrib(m: BoardModel, sq: int) -> int {
    if m.piece_list[sq] != PNONE {
        1
    } else {
        0
    }
}

pub open spec fn count_sum(m: BoardModel, n: int) -> int
    decreases n,
{
    if n <= 0 {
        0
    } else {
        count_sum(m, n - 1) + count_contrib(m, n - 1)
    }
}

/// Number of pieces on the board.
pub open spec fn piece_count(m: BoardModel) -> int {
    count_sum(m, 64)
}

/// All sequence lengths are as declared.
pub open spec fn lengths_ok(m: BoardModel) -> bool {
    &&& m.bb_side.len() == 12
    &&& m.bb_pieces.len() == 2
    &&& m.piece_list.len() == 64
    &&& m.material.len() == 2
    &&& m.zpieces.len() == 768
    &&& m.zcastling.len() == 16
    &&& m.zsides.len() == 2
    &&& m.zep.len() == 9
}

/// The structural board invariants: occupancy is the union of the piece
/// bitboards, the two sides never occupy the same square, the piece list
/// agrees with the bitboards on every square, the material counters and the
/// hash key equal their recomputations, and the game-state scalars are in
/// range.
pub open spec fn wf_base(m: BoardModel) -> bool {
    &&& lengths_ok(m)
    &&& forall|s: int| 0 <= s < 2 ==> m.bb_pieces[s] == #[trigger] or6(m, s)
    &&& forall|sq: int| 0 <= sq < 64 ==> !(#[trigger] occ_side(m, 0, sq) && occ_side(m, 1, sq))
    &&& forall|sq: int| 0 <= sq < 64 ==> #[trigger] m.piece_list[sq] <= 6
    &&& forall|sq: int|
        0 <= sq < 64 ==> ((#[trigger] m.piece_list[sq] == PNONE) <==> (!occ_side(m, 0, sq)
            && !occ_side(m, 1, sq)))
    &&& forall|s: int, p: int, sq: int|
        0 <= s < 2 && 0 <= p < 6 && 0 <= sq < 64 ==> (#[trigger] has(m, s, p, sq) <==> (
        m.piece_list[sq] == p && occ_side(m, s, sq)))
    &&& forall|s: int| 0 <= s < 2 ==> #[trigger] m.material[s] == mat_sum(m, s, 64)
    &&& m.game_state.zobrist_key == zobrist_scratch(m)
    &&& m.game_state.active_color < 2
    &&& m.game_state.castling < 16
    &&& m.game_state.en_passant is Some ==> m.game_state.en_passant->0 < 64
}

/// The semantic game-state invariants: both kings are on the board, a
/// still-standing castling permission implies king and rook stand on their
/// home squares, and a set en-passant square lies behind an enemy pawn that
/// just double-stepped.
pub open spec fn wf_gs(m: BoardModel) -> bool {
    &&& m.bb_side[KING as int] != 0
    &&& m.bb_side[6 + KING as int] != 0
    &&& m.game_state.castling & Castling::WK != 0 ==> has(m, 0, KING as int, E1 as int) && has(
        m,
        0,
        ROOK as int,
        H1 as int,
    )
    &&& m.game_state.castling & Castling::WQ != 0 ==> has(m, 0, KING as int, E1 as int) && has(
        m,
        0,
        ROOK as int,
        A1 as int,
    )
    &&& m.game_state.castling & Castling::BK != 0 ==> has(m, 1, KING as int, E8 as int) && has(
        m,
        1,
        ROOK as int,
        H8 as int,
    )
    &&& m.game_state.castling & Castling::BQ != 0 ==> has(m, 1, KING as int, E8 as int) && has(
        m,
        1,
        ROOK as int,
        A8 as int,
    )
    &&& match m.game_state.en_passant {
        Some(e) => {
            if m.game_state.active_color == 0 {
                &&& 40 <= e < 48
                &&& has(m, 1, PAWN as int, e - 8)
                &&& m.piece_list[e as int] == PNONE
            } else {
                &&& 16 <= e < 24
                &&& has(m, 0, PAWN as int, e + 8)
                &&& m.piece_list[e as int] == PNONE
            }
        },
        None => true,
    }
}

/// Full well-formedness of a position.
pub open spec fn wf(m: BoardModel) -> bool {
    wf_base(m) && wf_gs(m)
}

/// Effect of putting a piece of side `s`, type `p`, on the empty square
/// `sq`: the bit is toggled into the side/piece bitboard and the side
/// occupancy, the piece list and material are updated, and the piece key is
/// folded into the hash.
pub open spec fn spec_put(m: BoardModel, s: int, p: int, sq: int) -> BoardModel {
    BoardModel {
        bb_side: m.bb_side.update(s * 6 + p, m.bb_side[s * 6 + p] ^ (1u64 << sq as u64)),
        bb_pieces: m.bb_pieces.update(s, m.bb_pieces[s] ^ (1u64 << sq as u64)),
        piece_list: m.piece_list.update(sq, p as usize),
        material: m.material.update(s, (m.material[s] + piece_value(p)) as u16),
        game_state: GameState {
            zobrist_key: m.game_state.zobrist_key ^ piece_key(m, s, p, sq),
            ..m.game_state
        },
        ..m
    }
}

/// Effect of removing the piece of side `s`, type `p`, from square `sq`:
/// the exact inverse of `spec_put`.
pub open spec fn spec_rem(m: BoardModel, s: int, p: int, sq: int) -> BoardModel {
    BoardModel {
        bb_side: m.bb_side.update(s * 6 + p, m.bb_side[s * 6 + p] ^ (1u64 << sq as u64)),
        bb_pieces: m.bb_pieces.update(s, m.bb_pieces[s] ^ (1u64 << sq as u64)),
        piece_list: m.piece_list.update(sq, PNONE),
        material: m.material.update(s, (m.material[s] - piece_value(p)) as u16),
        game_state: GameState {
            zobrist_key: m.game_state.zobrist_key ^ piece_key(m, s, p, sq),
            ..m.game_state
        },
        ..m
    }
}

/// The two models agree on everything a piece placement can touch.
pub open spec fn placements_eq(a: BoardModel, b: BoardModel) -> bool {
    &&& a.bb_side == b.bb_side
    &&& a.bb_pieces == b.bb_pieces
    &&& a.piece_list == b.piece_list
    &&& a.material == b.material
}

/// Pseudo-legality of a move on a position: the moved piece stands on the
/// origin square, a capture target of the stated type stands on the
/// destination, and the special-move flags are consistent with the board.
pub open spec fn move_ok(m: BoardModel, mv: Move) -> bool {
    let us = m.game_state.active_color as int;
    let opp = 1 - us;
    let f = mv.from_s() as int;
    let t = mv.to_s() as int;
    let p = mv.piece_s() as int;
    let cap = mv.captured_s() as int;
    let prom = mv.promoted_s() as int;
    &&& f < 64
    &&& t < 64
    &&& f != t
    &&& p < 6
    &&& has(m, us, p, f)
    &&& (cap == PNONE || (cap < 6 && cap != KING && has(m, opp, cap, t)))
    &&& (cap == PNONE && !mv.is_ep() ==> m.piece_list[t] == PNONE)
    &&& (prom == PNONE || (p == PAWN && (prom == QUEEN || prom == ROOK || prom == BISHOP || prom
        == KNIGHT) && !mv.is_ep() && !mv.is_castle() && !mv.is_double()))
    &&& (mv.is_ep() ==> {
        &&& p == PAWN
        &&& cap == PNONE
        &&& prom == PNONE
        &&& !mv.is_castle()
        &&& !mv.is_double()
        &&& m.game_state.en_passant == Some(mv.to_s() as u8)
    })
    &&& (mv.is_double() ==> {
        &&& p == PAWN
        &&& cap == PNONE
        &&& prom == PNONE
        &&& !mv.is_ep()
        &&& !mv.is_castle()
        &&& (us == 0 ==> t == f + 16 && 8 <= f < 16)
        &&& (us == 1 ==> f == t + 16 && 48 <= f < 56)
        &&& m.piece_list[(f + t) / 2] == PNONE
        &&& m.piece_list[t] == PNONE
    })
    &&& (mv.is_castle() ==> {
        &&& p == KING
        &&& cap == PNONE
        &&& prom == PNONE
        &&& !mv.is_ep()
        &&& !mv.is_double()
        &&& (us == 0 ==> f == E1 && (t == G1 || t == C1))
        &&& (us == 1 ==> f == E8 && (t == G8 || t == C8))
        &&& (t == G1 ==> has(m, 0, ROOK as int, H1 as int) && m.piece_list[F1 as int] == PNONE
            && m.piece_list[G1 as int] == PNONE)
        &&& (t == C1 ==> has(m, 0, ROOK as int, A1 as int) && m.piece_list[B1 as int] == PNONE
            && m.piece_list[C1 as int] == PNONE && m.piece_list[D1 as int] == PNONE)
        &&& (t == G8 ==> has(m, 1, ROOK as int, H8 as int) && m.piece_list[F8 as int] == PNONE
            && m.piece_list[G8 as int] == PNONE)
        &&& (t == C8 ==> has(m, 1, ROOK as int, A8 as int) && m.piece_list[B8 as int] == PNONE
            && m.piece_list[C8 as int] == PNONE && m.piece_list[D8 as int] == PNONE)
    })
}

/// Square of the pawn removed by an en-passant capture to square `t`.
pub open spec fn ep_pawn_square(us: int, t: int) -> int {
    if us == 0 {
        t - 8
    } else {
        t + 8
    }
}

/// Home corner of the rook for a castling destination, and where it lands.
pub open spec fn castle_rook_from(t: int) -> int {
    if t == G1 {
        H1 as int
    } else if t == C1 {
        A1 as int
    } else if t == G8 {
        H8 as int
    } else {
        A8 as int
    }
}

pub open spec fn castle_rook_to(t: int) -> int {
    if t == G1 {
        F1 as int
    } else if t == C1 {
        D1 as int
    } else if t == G8 {
        F8 as int
    } else {
        D8 as int
    }
}

/// Reversal of the piece placements of the last made move, in the exact
/// opposite order of how they were made.
pub open spec fn undo_placements(m: BoardModel, us: int, mv: Move) -> BoardModel {
    let opp = 1 - us;
    let f = mv.from_s() as int;
    let t = mv.to_s() as int;
    let p = mv.piece_s() as int;
    let cap = mv.captured_s() as int;
    let prom = mv.promoted_s() as int;
    let placed = if prom != PNONE {
        prom
    } else {
        p
    };
    let m1 = if mv.is_ep() {
        spec_put(m, opp, PAWN as int, ep_pawn_square(us, t))
    } else {
        m
    };
    let m2 = if mv.is_castle() {
        spec_put(
            spec_rem(m1, us, ROOK as int, castle_rook_to(t)),
            us,
            ROOK as int,
            castle_rook_from(t),
        )
    } else {
        m1
    };
    let m3 = spec_put(spec_rem(m2, us, placed, t), us, p, f);
    if cap != PNONE {
        spec_put(m3, opp, cap, t)
    } else {
        m3
    }
}

/// The exact reversal of the last made move: undo the placements, restore
/// the irreversible state from the top history snapshot, and pop it.
pub open spec fn undo_spec(m: BoardModel) -> BoardModel {
    let snap = m.history.last();
    let mv = m.game_state.next_move;
    let us = snap.active_color as int;
    let r = undo_placements(m, us, mv);
    BoardModel { game_state: snap, history: m.history.drop_last(), ..r }
}

/// The conditions under which the reversal above can actually be executed:
/// the moved (or promoted) piece stands on the destination, the origin is
/// empty again, and the auxiliary squares of castling and en-passant hold
/// what the reversal expects.
pub open spec fn undoable(m: BoardModel) -> bool {
    let snap = m.history.last();
    let mv = m.game_state.next_move;
    let us = snap.active_color as int;
    let opp = 1 - us;
    let f = mv.from_s() as int;
    let t = mv.to_s() as int;
    let p = mv.piece_s() as int;
    let cap = mv.captured_s() as int;
    let prom = mv.promoted_s() as int;
    let placed = if prom != PNONE {
        prom
    } else {
        p
    };
    &&& m.history.len() >= 1
    &&& us < 2
    &&& f < 64
    &&& t < 64
    &&& f != t
    &&& p < 6
    &&& (prom == PNONE || prom < 6)
    &&& (cap == PNONE || cap < 6)
    &&& has(m, us, placed, t)
    &&& m.piece_list[f] == PNONE
    &&& (mv.is_ep() ==> {
        &&& p == PAWN
        &&& cap == PNONE
        &&& prom == PNONE
        &&& !mv.is_castle()
        &&& 0 <= ep_pawn_square(us, t) < 64
        &&& ep_pawn_square(us, t) != f
        &&& ep_pawn_square(us, t) != t
        &&& m.piece_list[ep_pawn_square(us, t)] == PNONE
    })
    &&& (mv.is_castle() ==> {
        &&& p == KING
        &&& cap == PNONE
        &&& prom == PNONE
        &&& !mv.is_ep()
        &&& (us == 0 ==> f == E1 && (t == G1 || t == C1))
        &&& (us == 1 ==> f == E8 && (t == G8 || t == C8))
        &&& has(m, us, ROOK as int, castle_rook_to(t))
        &&& m.piece_list[castle_rook_from(t)] == PNONE
    })
    &&& (cap != PNONE ==> cap != KING && !mv.is_castle() && !mv.is_ep())
}

} // verus!
