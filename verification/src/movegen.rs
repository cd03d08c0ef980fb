//! Pseudo-legal move generation.
//!
//! Attack sets have exact specifications: the non-slider sets are bit-shift
//! expressions of the origin square, and the slider sets are ray walks that
//! stop at the first blocker. The generator's contract is soundness and
//! completeness: every emitted move is pseudo-legal for the position
//! (`move_ok`) and respects the requested filter, and every move the rules
//! define for the position and filter stands in the list.

use vstd::prelude::*;
use crate::bits::{bit, next, lemma_bit_basics, lemma_zero_iff_no_bits, lemma_nonzero_bit};
use crate::board::Board;
use crate::defs::{
    KING, QUEEN, ROOK, BISHOP, KNIGHT, PAWN, PNONE, WHITE, BLACK, Castling, Piece, Side, Square,
    Bitboard, A1, B1, C1, D1, E1, F1, G1, H1, A8, B8, C8, D8, E8, F8, G8, H8,
};
use crate::makemove::is_capture_move;
use crate::model::{BoardModel, wf, wf_base, wf_gs, move_ok, has, occ_side, lengths_ok};
use crate::movedefs::{Move, MoveList, build_move};

verus! {

pub const FILE_A_BB: u64 = 0x0101_0101_0101_0101;

pub const FILE_B_BB: u64 = 0x0202_0202_0202_0202;

pub const FILE_G_BB: u64 = 0x4040_4040_4040_4040;

pub const FILE_H_BB: u64 = 0x8080_8080_8080_8080;

#[derive(Clone, Copy, PartialEq, Eq, Structural, Debug)]
pub enum MoveType {
    All,
    Captures,
    Quiet,
}

/// King attack set: the eight neighbouring squares, without wrap-around.
pub open spec fn king_attacks_spec(sq: u64) -> u64 {
    let b = 1u64 << sq;
    ((b << 8) | (b >> 8) | ((b << 1) & !FILE_A_BB) | ((b >> 1) & !FILE_H_BB) | ((b << 9)
        & !FILE_A_BB) | ((b << 7) & !FILE_H_BB) | ((b >> 7) & !FILE_A_BB) | ((b >> 9)
        & !FILE_H_BB))
}

/// Knight attack set: the eight jump targets, without wrap-around.
pub open spec fn knight_attacks_spec(sq: u64) -> u64 {
    let b = 1u64 << sq;
    (((b << 17) & !FILE_A_BB) | ((b << 15) & !FILE_H_BB) | ((b << 10) & !(FILE_A_BB | FILE_B_BB))
        | ((b << 6) & !(FILE_G_BB | FILE_H_BB)) | ((b >> 17) & !FILE_H_BB) | ((b >> 15)
        & !FILE_A_BB) | ((b >> 10) & !(FILE_G_BB | FILE_H_BB)) | ((b >> 6) & !(FILE_A_BB
        | FILE_B_BB)))
}

/// Squares a pawn of the given side attacks from its square.
pub open spec fn pawn_attacks_spec(side: int, sq: u64) -> u64 {
    let b = 1u64 << sq;
    if side == 0 {
        ((b << 9) & !FILE_A_BB) | ((b << 7) & !FILE_H_BB)
    } else {
        ((b >> 7) & !FILE_A_BB) | ((b >> 9) & !FILE_H_BB)
    }
}

/// One sliding ray from (file, rank) in direction (df, dr): squares are
/// collected until the first occupied square, which is included.
pub open spec fn ray_spec(occ: u64, f: int, r: int, df: int, dr: int, fuel: nat) -> u64
    decreases fuel,
{
    if fuel == 0 {
        0
    } else {
        let nf = f + df;
        let nr = r + dr;
        if nf < 0 || nf >= 8 || nr < 0 || nr >= 8 {
            0
        } else {
            let nsq = (nr * 8 + nf) as u64;
            let b = 1u64 << nsq;
            if bit(occ, nsq) {
                b
            } else {
                b | ray_spec(occ, nf, nr, df, dr, (fuel - 1) as nat)
            }
        }
    }
}

/// Rook attack set: the four orthogonal rays.
pub open spec fn rook_attacks_spec(occ: u64, sq: int) -> u64 {
    let f = sq % 8;
    let r = sq / 8;
    ray_spec(occ, f, r, 0, 1, 8) | ray_spec(occ, f, r, 0, -1, 8) | ray_spec(occ, f, r, 1, 0, 8)
        | ray_spec(occ, f, r, -1, 0, 8)
}

/// Bishop attack set: the four diagonal rays.
pub open spec fn bishop_attacks_spec(occ: u64, sq: int) -> u64 {
    let f = sq % 8;
    let r = sq / 8;
    ray_spec(occ, f, r, 1, 1, 8) | ray_spec(occ, f, r, 1, -1, 8) | ray_spec(occ, f, r, -1, 1, 8)
        | ray_spec(occ, f, r, -1, -1, 8)
}

/// The full occupancy of a position.
pub open spec fn occ_all(m: BoardModel) -> u64 {
    m.bb_pieces[0] | m.bb_pieces[1]
}

/// Whether the given side attacks the given square.
pub open spec fn attacked_spec(m: BoardModel, attacker: int, sq: int) -> bool {
    let occ = occ_all(m);
    ||| knight_attacks_spec(sq as u64) & m.bb_side[attacker * 6 + KNIGHT] != 0
    ||| king_attacks_spec(sq as u64) & m.bb_side[attacker * 6 + KING] != 0
    ||| pawn_attacks_spec(1 - attacker, sq as u64) & m.bb_side[attacker * 6 + PAWN] != 0
    ||| rook_attacks_spec(occ, sq) & (m.bb_side[attacker * 6 + ROOK] | m.bb_side[attacker * 6
        + QUEEN]) != 0
    ||| bishop_attacks_spec(occ, sq) & (m.bb_side[attacker * 6 + BISHOP] | m.bb_side[attacker * 6
        + QUEEN]) != 0
}

/// Walk one ray, collecting squares until the first blocker.
fn ray_attacks(occ: u64, f: i32, r: i32, df: i32, dr: i32, fuel: u32) -> (res: u64)
    requires
        0 <= f < 8,
        0 <= r < 8,
        -1 <= df <= 1,
        -1 <= dr <= 1,
        fuel <= 8,
    ensures
        res == ray_spec(occ, f as int, r as int, df as int, dr as int, fuel as nat),
    decreases fuel,
{
    if fuel == 0 {
        return 0;
    }
    let nf = f + df;
    let nr = r + dr;
    if nf < 0 || nf >= 8 || nr < 0 || nr >= 8 {
        return 0;
    }
    let nsq = (nr * 8 + nf) as u64;
    let b = 1u64 << nsq;
    if (occ >> nsq) & 1u64 == 1u64 {
        b
    } else {
        b | ray_attacks(occ, nf, nr, df, dr, fuel - 1)
    }
}

/// Rook attacks of a square, from the current occupancy.
pub fn rook_attacks(occ: u64, sq: Square) -> (res: u64)
    requires
        sq < 64,
    ensures
        res == rook_attacks_spec(occ, sq as int),
{
    let f = (sq % 8) as i32;
    let r = (sq / 8) as i32;
    ray_attacks(occ, f, r, 0, 1, 8) | ray_attacks(occ, f, r, 0, -1, 8) | ray_attacks(
        occ,
        f,
        r,
        1,
        0,
        8,
    ) | ray_attacks(occ, f, r, -1, 0, 8)
}

/// Bishop attacks of a square, from the current occupancy.
pub fn bishop_attacks(occ: u64, sq: Square) -> (res: u64)
    requires
        sq < 64,
    ensures
        res == bishop_attacks_spec(occ, sq as int),
{
    let f = (sq % 8) as i32;
    let r = (sq / 8) as i32;
    ray_attacks(occ, f, r, 1, 1, 8) | ray_attacks(occ, f, r, 1, -1, 8) | ray_attacks(
        occ,
        f,
        r,
        -1,
        1,
        8,
    ) | ray_attacks(occ, f, r, -1, -1, 8)
}


/// The move's packed fields, spelled out.
pub open spec fn is_move(
    m: Move,
    f: int,
    t: int,
    p: int,
    cap: int,
    prom: int,
    ep: bool,
    ds: bool,
    cs: bool,
) -> bool {
    &&& m.from_s() == f
    &&& m.to_s() == t
    &&& m.piece_s() == p
    &&& m.captured_s() == cap
    &&& m.promoted_s() == prom
    &&& m.is_ep() == ep
    &&& m.is_double() == ds
    &&& m.is_castle() == cs
}

/// The list holds a move with exactly these fields.
pub open spec fn in_list(
    ml: Seq<Move>,
    f: int,
    t: int,
    p: int,
    cap: int,
    prom: int,
    ep: bool,
    ds: bool,
    cs: bool,
) -> bool {
    exists|i: int| 0 <= i < ml.len() && is_move(#[trigger] ml[i], f, t, p, cap, prom, ep, ds, cs)
}

/// A list extension keeps every held move.
pub proof fn lemma_in_list_mono(a: Seq<Move>, c: Seq<Move>)
    requires
        a.len() <= c.len(),
        forall|i: int| 0 <= i < a.len() ==> c[i] == a[i],
    ensures
        forall|f: int, t: int, p: int, cap: int, prom: int, ep: bool, ds: bool, cs: bool|
            #[trigger] in_list(a, f, t, p, cap, prom, ep, ds, cs) ==> in_list(
                c,
                f,
                t,
                p,
                cap,
                prom,
                ep,
                ds,
                cs,
            ),
{
    assert forall|f: int, t: int, p: int, cap: int, prom: int, ep: bool, ds: bool, cs: bool|
        #[trigger] in_list(a, f, t, p, cap, prom, ep, ds, cs) implies in_list(
        c,
        f,
        t,
        p,
        cap,
        prom,
        ep,
        ds,
        cs,
    ) by {
        let i = choose|i: int|
            0 <= i < a.len() && is_move(#[trigger] a[i], f, t, p, cap, prom, ep, ds, cs);
        assert(is_move(c[i], f, t, p, cap, prom, ep, ds, cs));
    }
}

/// The attack set of a non-pawn piece from a square.
pub open spec fn targets_spec(b: BoardModel, p: int, f: int) -> u64 {
    if p == KING {
        king_attacks_spec(f as u64)
    } else if p == KNIGHT {
        knight_attacks_spec(f as u64)
    } else if p == ROOK {
        rook_attacks_spec(occ_all(b), f)
    } else if p == BISHOP {
        bishop_attacks_spec(occ_all(b), f)
    } else if p == QUEEN {
        rook_attacks_spec(occ_all(b), f) | bishop_attacks_spec(occ_all(b), f)
    } else {
        0
    }
}

/// The quiet move or capture of a non-pawn piece to this target square
/// stands in the list, as the filter demands.
pub open spec fn piece_move_listed(b: BoardModel, mt: MoveType, ml: Seq<Move>, p: int, f: int, t: int) -> bool {
    let opp = 1 - b.game_state.active_color as int;
    &&& (b.piece_list[t] == PNONE && mt != MoveType::Captures ==> in_list(
        ml,
        f,
        t,
        p,
        PNONE as int,
        PNONE as int,
        false,
        false,
        false,
    ))
    &&& (occ_side(b, opp, t) && b.piece_list[t] != KING && mt != MoveType::Quiet ==> in_list(
        ml,
        f,
        t,
        p,
        b.piece_list[t] as int,
        PNONE as int,
        false,
        false,
        false,
    ))
}

/// All four promotions of one pawn move stand in the list.
pub open spec fn promos_listed(ml: Seq<Move>, f: int, t: int, cap: int) -> bool {
    &&& in_list(ml, f, t, PAWN as int, cap, QUEEN as int, false, false, false)
    &&& in_list(ml, f, t, PAWN as int, cap, ROOK as int, false, false, false)
    &&& in_list(ml, f, t, PAWN as int, cap, BISHOP as int, false, false, false)
    &&& in_list(ml, f, t, PAWN as int, cap, KNIGHT as int, false, false, false)
}

/// The single and double pushes of a pawn stand in the list when their
/// path is empty, promotions expanded on the back rank.
pub open spec fn pawn_push_listed(b: BoardModel, mt: MoveType, ml: Seq<Move>, f: int) -> bool {
    let us = b.game_state.active_color as int;
    mt != MoveType::Captures ==> if us == 0 {
        &&& (f < 56 && b.piece_list[f + 8] == PNONE && f + 8 >= 56 ==> promos_listed(
            ml,
            f,
            f + 8,
            PNONE as int,
        ))
        &&& (f < 56 && b.piece_list[f + 8] == PNONE && f + 8 < 56 ==> in_list(
            ml,
            f,
            f + 8,
            PAWN as int,
            PNONE as int,
            PNONE as int,
            false,
            false,
            false,
        ))
        &&& (8 <= f < 16 && b.piece_list[f + 8] == PNONE && b.piece_list[f + 16] == PNONE
            ==> in_list(
            ml,
            f,
            f + 16,
            PAWN as int,
            PNONE as int,
            PNONE as int,
            false,
            true,
            false,
        ))
    } else {
        &&& (f >= 8 && b.piece_list[f - 8] == PNONE && f - 8 < 8 ==> promos_listed(
            ml,
            f,
            f - 8,
            PNONE as int,
        ))
        &&& (f >= 8 && b.piece_list[f - 8] == PNONE && f - 8 >= 8 ==> in_list(
            ml,
            f,
            f - 8,
            PAWN as int,
            PNONE as int,
            PNONE as int,
            false,
            false,
            false,
        ))
        &&& (48 <= f < 56 && b.piece_list[f - 8] == PNONE && b.piece_list[f - 16] == PNONE
            ==> in_list(
            ml,
            f,
            f - 16,
            PAWN as int,
            PNONE as int,
            PNONE as int,
            false,
            true,
            false,
        ))
    }
}

/// The capture (or en-passant capture) of a pawn to this attacked square
/// stands in the list, promotions expanded on the back rank.
pub open spec fn pawn_capture_listed(b: BoardModel, mt: MoveType, ml: Seq<Move>, f: int, t: int) -> bool {
    let us = b.game_state.active_color as int;
    let opp = 1 - us;
    let promo_rank = if us == 0 {
        t >= 56
    } else {
        t < 8
    };
    &&& (occ_side(b, opp, t) && b.piece_list[t] != KING && mt != MoveType::Quiet ==> if promo_rank {
        promos_listed(ml, f, t, b.piece_list[t] as int)
    } else {
        in_list(ml, f, t, PAWN as int, b.piece_list[t] as int, PNONE as int, false, false, false)
    })
    &&& (b.game_state.en_passant == Some(t as u8) && mt != MoveType::Quiet ==> in_list(
        ml,
        f,
        t,
        PAWN as int,
        PNONE as int,
        PNONE as int,
        true,
        false,
        false,
    ))
}

/// The castling moves whose rights stand, whose paths are empty, and whose
/// king squares are safe stand in the list.
pub open spec fn castles_listed(b: BoardModel, mt: MoveType, ml: Seq<Move>) -> bool {
    let us = b.game_state.active_color as int;
    let opp = 1 - us;
    let c = b.game_state.castling;
    mt != MoveType::Captures ==> if us == 0 {
        &&& (c & Castling::WK != 0 && b.piece_list[F1 as int] == PNONE && b.piece_list[G1 as int]
            == PNONE && !attacked_spec(b, opp, E1 as int) && !attacked_spec(b, opp, F1 as int)
            && !attacked_spec(b, opp, G1 as int) ==> in_list(
            ml,
            E1 as int,
            G1 as int,
            KING as int,
            PNONE as int,
            PNONE as int,
            false,
            false,
            true,
        ))
        &&& (c & Castling::WQ != 0 && b.piece_list[B1 as int] == PNONE && b.piece_list[C1 as int]
            == PNONE && b.piece_list[D1 as int] == PNONE && !attacked_spec(b, opp, E1 as int)
            && !attacked_spec(b, opp, D1 as int) && !attacked_spec(b, opp, C1 as int) ==> in_list(
            ml,
            E1 as int,
            C1 as int,
            KING as int,
            PNONE as int,
            PNONE as int,
            false,
            false,
            true,
        ))
    } else {
        &&& (c & Castling::BK != 0 && b.piece_list[F8 as int] == PNONE && b.piece_list[G8 as int]
            == PNONE && !attacked_spec(b, opp, E8 as int) && !attacked_spec(b, opp, F8 as int)
            && !attacked_spec(b, opp, G8 as int) ==> in_list(
            ml,
            E8 as int,
            G8 as int,
            KING as int,
            PNONE as int,
            PNONE as int,
            false,
            false,
            true,
        ))
        &&& (c & Castling::BQ != 0 && b.piece_list[B8 as int] == PNONE && b.piece_list[C8 as int]
            == PNONE && b.piece_list[D8 as int] == PNONE && !attacked_spec(b, opp, E8 as int)
            && !attacked_spec(b, opp, D8 as int) && !attacked_spec(b, opp, C8 as int) ==> in_list(
            ml,
            E8 as int,
            C8 as int,
            KING as int,
            PNONE as int,
            PNONE as int,
            false,
            false,
            true,
        ))
    }
}

/// Completeness of move generation: every move the rules define for this
/// position and filter stands in the list.
pub open spec fn gen_complete(b: BoardModel, mt: MoveType, ml: Seq<Move>) -> bool {
    let us = b.game_state.active_color as int;
    &&& forall|p: int, f: int, t: int|
        0 <= p < 6 && p != PAWN && 0 <= f < 64 && 0 <= t < 64 && has(b, us, p, f) && bit(
            targets_spec(b, p, f),
            t as u64,
        ) ==> #[trigger] piece_move_listed(b, mt, ml, p, f, t)
    &&& forall|f: int|
        0 <= f < 64 && has(b, us, PAWN as int, f) ==> #[trigger] pawn_push_listed(b, mt, ml, f)
    &&& forall|f: int, t: int|
        0 <= f < 64 && 0 <= t < 64 && has(b, us, PAWN as int, f) && bit(
            pawn_attacks_spec(us, f as u64),
            t as u64,
        ) ==> #[trigger] pawn_capture_listed(b, mt, ml, f, t)
    &&& castles_listed(b, mt, ml)
}


/// Per-origin completeness of a non-pawn piece's moves.
pub open spec fn from_done(b: BoardModel, mt: MoveType, ml: Seq<Move>, p: int, f: int) -> bool {
    forall|t: int|
        0 <= t < 64 && bit(targets_spec(b, p, f), t as u64) ==> #[trigger] piece_move_listed(
            b,
            mt,
            ml,
            p,
            f,
            t,
        )
}

/// The capture of a pawn onto one attacked, enemy-occupied square stands
/// in the list, promotions expanded on the back rank.
pub open spec fn capture_done(b: BoardModel, ml: Seq<Move>, f: int, t: int) -> bool {
    let us = b.game_state.active_color as int;
    let promo_rank = if us == 0 {
        t >= 56
    } else {
        t < 8
    };
    if promo_rank {
        promos_listed(ml, f, t, b.piece_list[t] as int)
    } else {
        in_list(ml, f, t, PAWN as int, b.piece_list[t] as int, PNONE as int, false, false, false)
    }
}

/// Per-origin completeness of a pawn's moves.
pub open spec fn pawn_done(b: BoardModel, mt: MoveType, ml: Seq<Move>, f: int) -> bool {
    &&& pawn_push_listed(b, mt, ml, f)
    &&& forall|t: int|
        0 <= t < 64 && bit(pawn_attacks_spec(b.game_state.active_color as int, f as u64), t as u64)
            ==> #[trigger] pawn_capture_listed(b, mt, ml, f, t)
}

/// A listed piece move stays listed when the list grows.
pub proof fn lemma_pml_mono(b: BoardModel, mt: MoveType, a: Seq<Move>, c: Seq<Move>, p: int, f: int)
    requires
        from_done(b, mt, a, p, f),
        a.len() <= c.len(),
        forall|i: int| 0 <= i < a.len() ==> c[i] == a[i],
    ensures
        from_done(b, mt, c, p, f),
{
    lemma_in_list_mono(a, c);
    assert forall|t: int|
        0 <= t < 64 && bit(targets_spec(b, p, f), t as u64) implies #[trigger] piece_move_listed(
        b,
        mt,
        c,
        p,
        f,
        t,
    ) by {
        assert(piece_move_listed(b, mt, a, p, f, t));
    }
}

/// Listed pawn moves stay listed when the list grows.
pub proof fn lemma_pawn_mono(b: BoardModel, mt: MoveType, a: Seq<Move>, c: Seq<Move>, f: int)
    requires
        pawn_done(b, mt, a, f),
        a.len() <= c.len(),
        forall|i: int| 0 <= i < a.len() ==> c[i] == a[i],
    ensures
        pawn_done(b, mt, c, f),
{
    lemma_in_list_mono(a, c);
    assert(pawn_push_listed(b, mt, a, f) ==> pawn_push_listed(b, mt, c, f));
    assert forall|t: int|
        0 <= t < 64 && bit(pawn_attacks_spec(b.game_state.active_color as int, f as u64), t as u64)
            implies #[trigger] pawn_capture_listed(b, mt, c, f, t) by {
        assert(pawn_capture_listed(b, mt, a, f, t));
    }
}

/// Listed castling moves stay listed when the list grows.
pub proof fn lemma_castles_mono(b: BoardModel, mt: MoveType, a: Seq<Move>, c: Seq<Move>)
    requires
        castles_listed(b, mt, a),
        a.len() <= c.len(),
        forall|i: int| 0 <= i < a.len() ==> c[i] == a[i],
    ensures
        castles_listed(b, mt, c),
{
    lemma_in_list_mono(a, c);
}

/// A generated move is pseudo-legal and respects the requested filter.
pub open spec fn gen_ok(b: BoardModel, mt: MoveType, m: Move) -> bool {
    &&& move_ok(b, m)
    &&& (mt == MoveType::Captures ==> is_capture_move(m))
    &&& (mt == MoveType::Quiet ==> !is_capture_move(m))
}

/// The move list grew only by moves that are sound for the position.
pub open spec fn ml_extended(b: BoardModel, mt: MoveType, old_ml: Seq<Move>, new_ml: Seq<Move>) -> bool {
    &&& new_ml.len() >= old_ml.len()
    &&& forall|i: int| 0 <= i < old_ml.len() ==> new_ml[i] == old_ml[i]
    &&& forall|i: int| old_ml.len() <= i < new_ml.len() ==> gen_ok(b, mt, #[trigger] new_ml[i])
}

/// Soundness of the grown list is transitive across generation phases.
pub proof fn lemma_ml_extended_trans(b: BoardModel, mt: MoveType, a: Seq<Move>, mid: Seq<Move>, c: Seq<Move>)
    requires
        ml_extended(b, mt, a, mid),
        ml_extended(b, mt, mid, c),
    ensures
        ml_extended(b, mt, a, c),
{
}

/// Removing the found bit keeps the bitboard a subset and shrinks it.
pub proof fn lemma_bb_shrinks(before: u64, after: u64, loc: usize)
    requires
        loc < 64,
        bit(before, loc as u64),
        after == before ^ (1u64 << loc as u64),
    ensures
        forall|j: u64| j < 64 && bit(after, j) ==> bit(before, j),
        after < before,
{
    lemma_bit_basics();
}

/// The precomputed non-slider attack tables.
pub struct MoveGenerator {
    pub king: Vec<u64>,
    pub knight: Vec<u64>,
    pub pawn_capture_w: Vec<u64>,
    pub pawn_capture_b: Vec<u64>,
}

impl MoveGenerator {
    pub open spec fn wf(self) -> bool {
        &&& self.king@.len() == 64
        &&& self.knight@.len() == 64
        &&& self.pawn_capture_w@.len() == 64
        &&& self.pawn_capture_b@.len() == 64
        &&& forall|sq: int| 0 <= sq < 64 ==> self.king@[sq] == king_attacks_spec(sq as u64)
        &&& forall|sq: int| 0 <= sq < 64 ==> self.knight@[sq] == knight_attacks_spec(sq as u64)
        &&& forall|sq: int| 0 <= sq < 64 ==> self.pawn_capture_w@[sq] == pawn_attacks_spec(
            0,
            sq as u64,
        )
        &&& forall|sq: int| 0 <= sq < 64 ==> self.pawn_capture_b@[sq] == pawn_attacks_spec(
            1,
            sq as u64,
        )
    }

    /// Build the king, knight and pawn-capture tables.
    pub fn new() -> (mg: MoveGenerator)
        ensures
            mg.wf(),
    {
        let mut king: Vec<u64> = Vec::new();
        let mut knight: Vec<u64> = Vec::new();
        let mut pawn_capture_w: Vec<u64> = Vec::new();
        let mut pawn_capture_b: Vec<u64> = Vec::new();
        for sq in 0..64u64
            invariant
                king@.len() == sq,
                knight@.len() == sq,
                pawn_capture_w@.len() == sq,
                pawn_capture_b@.len() == sq,
                forall|i: int| 0 <= i < sq ==> king@[i] == king_attacks_spec(i as u64),
                forall|i: int| 0 <= i < sq ==> knight@[i] == knight_attacks_spec(i as u64),
                forall|i: int| 0 <= i < sq ==> pawn_capture_w@[i] == pawn_attacks_spec(0, i as u64),
                forall|i: int| 0 <= i < sq ==> pawn_capture_b@[i] == pawn_attacks_spec(1, i as u64),
        {
            let b = 1u64 << sq;
            king.push(
                (b << 8) | (b >> 8) | ((b << 1) & !FILE_A_BB) | ((b >> 1) & !FILE_H_BB) | ((b << 9)
                    & !FILE_A_BB) | ((b << 7) & !FILE_H_BB) | ((b >> 7) & !FILE_A_BB) | ((b >> 9)
                    & !FILE_H_BB),
            );
            knight.push(
                ((b << 17) & !FILE_A_BB) | ((b << 15) & !FILE_H_BB) | ((b << 10) & !(FILE_A_BB
                    | FILE_B_BB)) | ((b << 6) & !(FILE_G_BB | FILE_H_BB)) | ((b >> 17)
                    & !FILE_H_BB) | ((b >> 15) & !FILE_A_BB) | ((b >> 10) & !(FILE_G_BB
                    | FILE_H_BB)) | ((b >> 6) & !(FILE_A_BB | FILE_B_BB)),
            );
            pawn_capture_w.push(((b << 9) & !FILE_A_BB) | ((b << 7) & !FILE_H_BB));
            pawn_capture_b.push(((b >> 7) & !FILE_A_BB) | ((b >> 9) & !FILE_H_BB));
        }
        MoveGenerator { king, knight, pawn_capture_w, pawn_capture_b }
    }

    /// Generate the pseudo-legal moves of the side to move into the given
    /// list. Soundness: every appended move is pseudo-legal for this
    /// position and respects the requested filter. Completeness: every
    /// move the rules define for this position and filter stands in the
    /// final list.
    #[verifier::rlimit(100)]
    #[verifier::spinoff_prover]
    pub fn generate_moves(&self, board: &Board, ml: &mut MoveList, mt: MoveType)
        requires
            self.wf(),
            wf(board@),
        ensures
            ml_extended(board@, mt, old(ml)@, final(ml)@),
            gen_complete(board@, mt, final(ml)@),
    {
        let ghost b = board@;
        let ghost us = b.game_state.active_color as int;
        let ghost ml0 = ml@;
        self.non_slider(board, KING, ml, mt);
        let ghost ml1 = ml@;
        proof {
            lemma_ml_extended_trans(b, mt, ml0, ml0, ml1);
        }
        self.non_slider(board, KNIGHT, ml, mt);
        let ghost ml2 = ml@;
        proof {
            lemma_ml_extended_trans(b, mt, ml0, ml1, ml2);
        }
        self.slider(board, QUEEN, ml, mt);
        let ghost ml3 = ml@;
        proof {
            lemma_ml_extended_trans(b, mt, ml0, ml2, ml3);
        }
        self.slider(board, ROOK, ml, mt);
        let ghost ml4 = ml@;
        proof {
            lemma_ml_extended_trans(b, mt, ml0, ml3, ml4);
        }
        self.slider(board, BISHOP, ml, mt);
        let ghost ml5 = ml@;
        proof {
            lemma_ml_extended_trans(b, mt, ml0, ml4, ml5);
        }
        self.pawn_moves(board, ml, mt);
        let ghost ml6 = ml@;
        proof {
            lemma_ml_extended_trans(b, mt, ml0, ml5, ml6);
        }
        if mt != MoveType::Captures {
            self.castling_moves(board, ml, mt);
        }
        let ghost ml7 = ml@;
        proof {
            lemma_ml_extended_trans(b, mt, ml0, ml6, ml7);
            // Build the prefix relations from each phase boundary to the
            // final list.
            lemma_ml_extended_trans(b, mt, ml5, ml6, ml7);
            lemma_ml_extended_trans(b, mt, ml4, ml5, ml7);
            lemma_ml_extended_trans(b, mt, ml3, ml4, ml7);
            lemma_ml_extended_trans(b, mt, ml2, ml3, ml7);
            lemma_ml_extended_trans(b, mt, ml1, ml2, ml7);
            // Non-pawn pieces.
            assert forall|p: int, f: int, t: int|
                0 <= p < 6 && p != PAWN && 0 <= f < 64 && 0 <= t < 64 && has(b, us, p, f) && bit(
                    targets_spec(b, p, f),
                    t as u64,
                ) implies #[trigger] piece_move_listed(b, mt, ml7, p, f, t) by {
                if p == KING {
                    assert(from_done(b, mt, ml1, p, f));
                    lemma_pml_mono(b, mt, ml1, ml7, p, f);
                } else if p == KNIGHT {
                    assert(from_done(b, mt, ml2, p, f));
                    lemma_pml_mono(b, mt, ml2, ml7, p, f);
                } else if p == QUEEN {
                    assert(from_done(b, mt, ml3, p, f));
                    lemma_pml_mono(b, mt, ml3, ml7, p, f);
                } else if p == ROOK {
                    assert(from_done(b, mt, ml4, p, f));
                    lemma_pml_mono(b, mt, ml4, ml7, p, f);
                } else {
                    assert(from_done(b, mt, ml5, p, f));
                    lemma_pml_mono(b, mt, ml5, ml7, p, f);
                }
            }
            // Pawns.
            assert forall|f: int| 0 <= f < 64 && has(b, us, PAWN as int, f) implies
                #[trigger] pawn_push_listed(b, mt, ml7, f) by {
                assert(pawn_done(b, mt, ml6, f));
                lemma_pawn_mono(b, mt, ml6, ml7, f);
            }
            assert forall|f: int, t: int|
                0 <= f < 64 && 0 <= t < 64 && has(b, us, PAWN as int, f) && bit(
                    pawn_attacks_spec(us, f as u64),
                    t as u64,
                ) implies #[trigger] pawn_capture_listed(b, mt, ml7, f, t) by {
                assert(pawn_done(b, mt, ml6, f));
                lemma_pawn_mono(b, mt, ml6, ml7, f);
            }
            // Castling.
            if mt != MoveType::Captures {
                assert(castles_listed(b, mt, ml7));
            }
        }
    }

    /// Moves of the king or a knight: table lookup, split into captures
    /// and quiet moves. Every move of every piece of this type is emitted.
    fn non_slider(&self, board: &Board, piece: Piece, ml: &mut MoveList, mt: MoveType)
        requires
            self.wf(),
            wf(board@),
            piece == KING || piece == KNIGHT,
        ensures
            ml_extended(board@, mt, old(ml)@, final(ml)@),
            forall|f: int|
                0 <= f < 64 && has(board@, board@.game_state.active_color as int, piece as int, f)
                    ==> #[trigger] from_done(board@, mt, final(ml)@, piece as int, f),
    {
        let us = board.us();
        let mut bb = board.get_pieces(piece, us);
        let ghost orig = bb;
        proof {
            lemma_bit_basics();
        }
        while bb != 0
            invariant
                self.wf(),
                wf(board@),
                us == board@.game_state.active_color as int,
                piece == KING || piece == KNIGHT,
                forall|j: u64| j < 64 && bit(bb, j) ==> bit(orig, j),
                orig == board@.bb_side[us * 6 + piece],
                forall|f: u64|
                    f < 64 && bit(orig, f) && !bit(bb, f) ==> #[trigger] from_done(
                        board@,
                        mt,
                        ml@,
                        piece as int,
                        f as int,
                    ),
                ml_extended(board@, mt, old(ml)@, ml@),
            decreases bb,
        {
            let ghost bb_before = bb;
            let ghost ml_before = ml@;
            let from = next(&mut bb);
            proof {
                lemma_bit_basics();
                lemma_bb_shrinks(bb_before, bb, from);
                assert(bit(orig, from as u64));
                assert(has(board@, us as int, piece as int, from as int));
            }
            let targets = if piece == KING {
                self.king[from]
            } else {
                self.knight[from]
            };
            proof {
                assert(targets == targets_spec(board@, piece as int, from as int));
            }
            self.add_moves_for_targets(board, piece, from, targets, ml, mt);
            proof {
                assert(from_done(board@, mt, ml@, piece as int, from as int));
                assert forall|f: u64|
                    f < 64 && bit(orig, f) && !bit(bb, f) implies #[trigger] from_done(
                    board@,
                    mt,
                    ml@,
                    piece as int,
                    f as int,
                ) by {
                    if f != from as u64 {
                        assert(from_done(board@, mt, ml_before, piece as int, f as int));
                        lemma_pml_mono(board@, mt, ml_before, ml@, piece as int, f as int);
                    }
                }
            }
        }
        proof {
            lemma_zero_iff_no_bits(bb);
        }
    }

    /// Moves of a queen, rook or bishop: ray attacks from the occupancy,
    /// split into captures and quiet moves. Every move of every piece of
    /// this type is emitted.
    fn slider(&self, board: &Board, piece: Piece, ml: &mut MoveList, mt: MoveType)
        requires
            self.wf(),
            wf(board@),
            piece == QUEEN || piece == ROOK || piece == BISHOP,
        ensures
            ml_extended(board@, mt, old(ml)@, final(ml)@),
            forall|f: int|
                0 <= f < 64 && has(board@, board@.game_state.active_color as int, piece as int, f)
                    ==> #[trigger] from_done(board@, mt, final(ml)@, piece as int, f),
    {
        let us = board.us();
        let occ = board.occupancy();
        let mut bb = board.get_pieces(piece, us);
        let ghost orig = bb;
        proof {
            lemma_bit_basics();
        }
        while bb != 0
            invariant
                self.wf(),
                wf(board@),
                us == board@.game_state.active_color as int,
                piece == QUEEN || piece == ROOK || piece == BISHOP,
                occ == occ_all(board@),
                forall|j: u64| j < 64 && bit(bb, j) ==> bit(orig, j),
                orig == board@.bb_side[us * 6 + piece],
                forall|f: u64|
                    f < 64 && bit(orig, f) && !bit(bb, f) ==> #[trigger] from_done(
                        board@,
                        mt,
                        ml@,
                        piece as int,
                        f as int,
                    ),
                ml_extended(board@, mt, old(ml)@, ml@),
            decreases bb,
        {
            let ghost bb_before = bb;
            let ghost ml_before = ml@;
            let from = next(&mut bb);
            proof {
                lemma_bit_basics();
                lemma_bb_shrinks(bb_before, bb, from);
                assert(has(board@, us as int, piece as int, from as int));
            }
            let targets = if piece == QUEEN {
                rook_attacks(occ, from) | bishop_attacks(occ, from)
            } else if piece == ROOK {
                rook_attacks(occ, from)
            } else {
                bishop_attacks(occ, from)
            };
            proof {
                assert(targets == targets_spec(board@, piece as int, from as int));
            }
            self.add_moves_for_targets(board, piece, from, targets, ml, mt);
            proof {
                assert(from_done(board@, mt, ml@, piece as int, from as int));
                assert forall|f: u64|
                    f < 64 && bit(orig, f) && !bit(bb, f) implies #[trigger] from_done(
                    board@,
                    mt,
                    ml@,
                    piece as int,
                    f as int,
                ) by {
                    if f != from as u64 {
                        assert(from_done(board@, mt, ml_before, piece as int, f as int));
                        lemma_pml_mono(board@, mt, ml_before, ml@, piece as int, f as int);
                    }
                }
            }
        }
        proof {
            lemma_zero_iff_no_bits(bb);
        }
    }

    /// Split a target set into captures and quiet moves and append them:
    /// every emitted move is sound, and every capture or quiet move onto a
    /// target square (as the filter asks) is emitted.
    #[verifier::rlimit(100)]
    #[verifier::spinoff_prover]
    fn add_moves_for_targets(
        &self,
        board: &Board,
        piece: Piece,
        from: Square,
        targets: u64,
        ml: &mut MoveList,
        mt: MoveType,
    )
        requires
            wf(board@),
            piece < 6,
            from < 64,
            has(board@, board@.game_state.active_color as int, piece as int, from as int),
        ensures
            ml_extended(board@, mt, old(ml)@, final(ml)@),
            mt != MoveType::Quiet ==> forall|t: int|
                0 <= t < 64 && bit(targets, t as u64) && occ_side(
                    board@,
                    1 - board@.game_state.active_color as int,
                    t,
                ) && board@.piece_list[t] != KING ==> in_list(
                    final(ml)@,
                    from as int,
                    t,
                    piece as int,
                    #[trigger] board@.piece_list[t] as int,
                    PNONE as int,
                    false,
                    false,
                    false,
                ),
            mt != MoveType::Captures ==> forall|t: int|
                0 <= t < 64 && bit(targets, t as u64) && #[trigger] board@.piece_list[t] == PNONE
                    ==> in_list(
                    final(ml)@,
                    from as int,
                    t,
                    piece as int,
                    PNONE as int,
                    PNONE as int,
                    false,
                    false,
                    false,
                ),
    {
        let us = board.us();
        let opp = board.opponent();
        proof {
            lemma_bit_basics();
        }
        if mt != MoveType::Quiet {
            let enemy = board.get_pieces(KING, opp);
            let mut caps = targets & (board.bb_pieces[opp] & !enemy);
            let ghost caps0 = caps;
            proof {
                assert forall|j: u64| j < 64 implies #[trigger] bit(caps0, j) == (bit(targets, j)
                    && occ_side(board@, opp as int, j as int) && !(has(
                    board@,
                    opp as int,
                    KING as int,
                    j as int,
                ))) by {
                    assert(bit(caps0, j) == (bit(targets, j) && (bit(board@.bb_pieces[opp as int], j)
                        && !bit(board@.bb_side[opp * 6 + KING], j))));
                }
            }
            while caps != 0
                invariant
                    wf(board@),
                    piece < 6,
                    from < 64,
                    us == board@.game_state.active_color as int,
                    opp == 1 - us,
                    has(board@, us as int, piece as int, from as int),
                    mt != MoveType::Quiet,
                    forall|j: u64| j < 64 && bit(caps, j) ==> bit(caps0, j),
                    forall|j: u64|
                        j < 64 ==> #[trigger] bit(caps0, j) == (bit(targets, j) && occ_side(
                            board@,
                            opp as int,
                            j as int,
                        ) && !(has(board@, opp as int, KING as int, j as int))),
                    forall|j: u64|
                        j < 64 && bit(caps0, j) && !bit(caps, j) ==> in_list(
                            ml@,
                            from as int,
                            j as int,
                            piece as int,
                            #[trigger] board@.piece_list[j as int] as int,
                            PNONE as int,
                            false,
                            false,
                            false,
                        ),
                    ml_extended(board@, mt, old(ml)@, ml@),
                decreases caps,
            {
                let ghost caps_before = caps;
                let ghost ml_before = ml@;
                let to = next(&mut caps);
                proof {
                    lemma_bit_basics();
                    lemma_bb_shrinks(caps_before, caps, to);
                    assert(occ_side(board@, opp as int, to as int));
                    assert(!(has(board@, opp as int, KING as int, to as int)));
                }
                let captured = board.piece_list[to];
                proof {
                    assert(board@.piece_list[to as int] != PNONE);
                    assert(has(board@, opp as int, captured as int, to as int));
                    assert(captured != KING);
                    assert(!occ_side(board@, us as int, to as int));
                    assert(from != to);
                }
                let m = build_move(from, to, piece, captured, PNONE, false, false, false);
                proof {
                    assert(move_ok(board@, m));
                    assert(is_capture_move(m));
                }
                ml.push(m);
                proof {
                    lemma_in_list_mono(ml_before, ml@);
                    assert(is_move(ml@[ml@.len() - 1], from as int, to as int, piece as int,
                        captured as int, PNONE as int, false, false, false));
                    assert forall|j: u64|
                        j < 64 && bit(caps0, j) && !bit(caps, j) implies in_list(
                        ml@,
                        from as int,
                        j as int,
                        piece as int,
                        #[trigger] board@.piece_list[j as int] as int,
                        PNONE as int,
                        false,
                        false,
                        false,
                    ) by {
                        if j == to as u64 {
                            assert(in_list(ml@, from as int, to as int, piece as int,
                                captured as int, PNONE as int, false, false, false));
                        } else {
                            assert(bit(caps_before, j) == bit(caps0, j) || !bit(caps_before, j));
                            assert(in_list(ml_before, from as int, j as int, piece as int,
                                board@.piece_list[j as int] as int, PNONE as int, false, false,
                                false));
                        }
                    }
                }
            }
            proof {
                lemma_zero_iff_no_bits(caps);
                assert forall|t: int|
                    0 <= t < 64 && bit(targets, t as u64) && occ_side(board@, opp as int, t)
                        && board@.piece_list[t] != KING implies in_list(
                    ml@,
                    from as int,
                    t,
                    piece as int,
                    #[trigger] board@.piece_list[t] as int,
                    PNONE as int,
                    false,
                    false,
                    false,
                ) by {
                    assert(!(has(board@, opp as int, KING as int, t)));
                    assert(bit(caps0, t as u64));
                    assert(!bit(caps, t as u64));
                }
            }
        }
        let ghost ml_mid = ml@;
        if mt != MoveType::Captures {
            let occ = board.occupancy();
            let mut quiet = targets & !occ;
            let ghost quiet0 = quiet;
            proof {
                lemma_bit_basics();
                assert forall|j: u64| j < 64 implies #[trigger] bit(quiet0, j) == (bit(targets, j)
                    && board@.piece_list[j as int] == PNONE) by {
                    assert(bit(occ, j) == (occ_side(board@, 0, j as int) || occ_side(
                        board@,
                        1,
                        j as int,
                    )));
                }
            }
            while quiet != 0
                invariant
                    wf(board@),
                    piece < 6,
                    from < 64,
                    us == board@.game_state.active_color as int,
                    has(board@, us as int, piece as int, from as int),
                    mt != MoveType::Captures,
                    forall|j: u64| j < 64 && bit(quiet, j) ==> bit(quiet0, j),
                    forall|j: u64|
                        j < 64 ==> #[trigger] bit(quiet0, j) == (bit(targets, j)
                            && board@.piece_list[j as int] == PNONE),
                    forall|j: u64|
                        j < 64 && bit(quiet0, j) && !bit(quiet, j) ==> #[trigger] in_list(
                            ml@,
                            from as int,
                            j as int,
                            piece as int,
                            PNONE as int,
                            PNONE as int,
                            false,
                            false,
                            false,
                        ),
                    ml_extended(board@, mt, old(ml)@, ml@),
                    ml_mid.len() <= ml@.len(),
                    forall|i: int| 0 <= i < ml_mid.len() ==> ml@[i] == ml_mid[i],
                decreases quiet,
            {
                let ghost quiet_before = quiet;
                let ghost ml_before = ml@;
                let to = next(&mut quiet);
                proof {
                    lemma_bit_basics();
                    lemma_bb_shrinks(quiet_before, quiet, to);
                    assert(board@.piece_list[to as int] == PNONE);
                    assert(from != to);
                }
                let m = build_move(from, to, piece, PNONE, PNONE, false, false, false);
                proof {
                    assert(move_ok(board@, m));
                    assert(!is_capture_move(m));
                }
                ml.push(m);
                proof {
                    lemma_in_list_mono(ml_before, ml@);
                    assert(is_move(ml@[ml@.len() - 1], from as int, to as int, piece as int,
                        PNONE as int, PNONE as int, false, false, false));
                    assert forall|j: u64|
                        j < 64 && bit(quiet0, j) && !bit(quiet, j) implies #[trigger] in_list(
                        ml@,
                        from as int,
                        j as int,
                        piece as int,
                        PNONE as int,
                        PNONE as int,
                        false,
                        false,
                        false,
                    ) by {
                        if j == to as u64 {
                            assert(in_list(ml@, from as int, to as int, piece as int, PNONE as int,
                                PNONE as int, false, false, false));
                        } else {
                            assert(in_list(ml_before, from as int, j as int, piece as int,
                                PNONE as int, PNONE as int, false, false, false));
                        }
                    }
                }
            }
            proof {
                lemma_zero_iff_no_bits(quiet);
            }
        }
        proof {
            if mt != MoveType::Quiet {
                lemma_in_list_mono(ml_mid, ml@);
                assert forall|t: int|
                    0 <= t < 64 && bit(targets, t as u64) && occ_side(
                        board@,
                        1 - board@.game_state.active_color as int,
                        t,
                    ) && board@.piece_list[t] != KING implies in_list(
                    final(ml)@,
                    from as int,
                    t,
                    piece as int,
                    #[trigger] board@.piece_list[t] as int,
                    PNONE as int,
                    false,
                    false,
                    false,
                ) by {
                    assert(in_list(ml_mid, from as int, t, piece as int,
                        board@.piece_list[t] as int, PNONE as int, false, false, false));
                }
            }
        }
    }

    /// Pawn moves: single and double pushes, promotions, captures, and
    /// the en-passant capture. Every pawn move of the position and filter
    /// is emitted.
    #[verifier::rlimit(100)]
    #[verifier::spinoff_prover]
    fn pawn_moves(&self, board: &Board, ml: &mut MoveList, mt: MoveType)
        requires
            self.wf(),
            wf(board@),
        ensures
            ml_extended(board@, mt, old(ml)@, final(ml)@),
            forall|f: int|
                0 <= f < 64 && has(board@, board@.game_state.active_color as int, PAWN as int, f)
                    ==> #[trigger] pawn_done(board@, mt, final(ml)@, f),
    {
        let us = board.us();
        let opp = board.opponent();
        let mut pawns = board.get_pieces(PAWN, us);
        let ghost orig = pawns;
        proof {
            lemma_bit_basics();
        }
        while pawns != 0
            invariant
                self.wf(),
                wf(board@),
                us == board@.game_state.active_color as int,
                opp == 1 - us,
                forall|j: u64| j < 64 && bit(pawns, j) ==> bit(orig, j),
                orig == board@.bb_side[us * 6 + PAWN],
                forall|f: u64|
                    f < 64 && bit(orig, f) && !bit(pawns, f) ==> #[trigger] pawn_done(
                        board@,
                        mt,
                        ml@,
                        f as int,
                    ),
                ml_extended(board@, mt, old(ml)@, ml@),
            decreases pawns,
        {
            let ghost pawns_before = pawns;
            let ghost ml_it0 = ml@;
            let from = next(&mut pawns);
            proof {
                lemma_bit_basics();
                lemma_bb_shrinks(pawns_before, pawns, from);
                assert(has(board@, us as int, PAWN as int, from as int));
            }
            if mt != MoveType::Captures {
                if us == WHITE {
                    if from < 56 {
                        let to = from + 8;
                        if board.piece_list[to] == PNONE {
                            if to >= 56 {
                                self.push_promotions(board, ml, mt, from, to, PNONE);
                            } else {
                                let ghost mlb = ml@;
                                let m = build_move(from, to, PAWN, PNONE, PNONE, false, false,
                                    false);
                                proof {
                                    assert(move_ok(board@, m));
                                }
                                ml.push(m);
                                proof {
                                    lemma_in_list_mono(mlb, ml@);
                                    assert(is_move(ml@[ml@.len() - 1], from as int, to as int,
                                        PAWN as int, PNONE as int, PNONE as int, false, false,
                                        false));
                                    assert(in_list(ml@, from as int, to as int, PAWN as int,
                                        PNONE as int, PNONE as int, false, false, false));
                                }
                            }
                            if 8 <= from && from < 16 {
                                let to2 = from + 16;
                                if board.piece_list[to2] == PNONE {
                                    let ghost mlb = ml@;
                                    let m = build_move(from, to2, PAWN, PNONE, PNONE, false, true,
                                        false);
                                    proof {
                                        assert((from + to2) / 2 == to);
                                        assert(move_ok(board@, m));
                                    }
                                    ml.push(m);
                                    proof {
                                        lemma_in_list_mono(mlb, ml@);
                                        assert(is_move(ml@[ml@.len() - 1], from as int, to2 as int,
                                            PAWN as int, PNONE as int, PNONE as int, false, true,
                                            false));
                                        assert(in_list(ml@, from as int, to2 as int, PAWN as int,
                                            PNONE as int, PNONE as int, false, true, false));
                                    }
                                }
                            }
                        }
                    }
                } else {
                    if from >= 8 {
                        let to = from - 8;
                        if board.piece_list[to] == PNONE {
                            if to < 8 {
                                self.push_promotions(board, ml, mt, from, to, PNONE);
                            } else {
                                let ghost mlb = ml@;
                                let m = build_move(from, to, PAWN, PNONE, PNONE, false, false,
                                    false);
                                proof {
                                    assert(move_ok(board@, m));
                                }
                                ml.push(m);
                                proof {
                                    lemma_in_list_mono(mlb, ml@);
                                    assert(is_move(ml@[ml@.len() - 1], from as int, to as int,
                                        PAWN as int, PNONE as int, PNONE as int, false, false,
                                        false));
                                    assert(in_list(ml@, from as int, to as int, PAWN as int,
                                        PNONE as int, PNONE as int, false, false, false));
                                }
                            }
                            if 48 <= from && from < 56 {
                                let to2 = from - 16;
                                if board.piece_list[to2] == PNONE {
                                    let ghost mlb = ml@;
                                    let m = build_move(from, to2, PAWN, PNONE, PNONE, false, true,
                                        false);
                                    proof {
                                        assert((from + to2) / 2 == to);
                                        assert(move_ok(board@, m));
                                    }
                                    ml.push(m);
                                    proof {
                                        lemma_in_list_mono(mlb, ml@);
                                        assert(is_move(ml@[ml@.len() - 1], from as int, to2 as int,
                                            PAWN as int, PNONE as int, PNONE as int, false, true,
                                            false));
                                        assert(in_list(ml@, from as int, to2 as int, PAWN as int,
                                            PNONE as int, PNONE as int, false, true, false));
                                    }
                                }
                            }
                        }
                    }
                }
            }
            let ghost ml_push = ml@;
            proof {
                assert(pawn_push_listed(board@, mt, ml_push, from as int));
            }
            if mt != MoveType::Quiet {
                let caps_mask = if us == WHITE {
                    self.pawn_capture_w[from]
                } else {
                    self.pawn_capture_b[from]
                };
                proof {
                    assert(caps_mask == pawn_attacks_spec(us as int, from as u64));
                }
                let enemy_king = board.get_pieces(KING, opp);
                let mut caps = caps_mask & (board.bb_pieces[opp] & !enemy_king);
                let ghost caps0 = caps;
                proof {
                    assert forall|j: u64| j < 64 implies #[trigger] bit(caps0, j) == (bit(
                        caps_mask,
                        j,
                    ) && occ_side(board@, opp as int, j as int) && !(has(
                        board@,
                        opp as int,
                        KING as int,
                        j as int,
                    ))) by {
                        assert(bit(caps0, j) == (bit(caps_mask, j) && (bit(
                            board@.bb_pieces[opp as int],
                            j,
                        ) && !bit(board@.bb_side[opp * 6 + KING], j))));
                    }
                }
                while caps != 0
                    invariant
                        self.wf(),
                        wf(board@),
                        us == board@.game_state.active_color as int,
                        opp == 1 - us,
                        from < 64,
                        has(board@, us as int, PAWN as int, from as int),
                        mt != MoveType::Quiet,
                        caps_mask == pawn_attacks_spec(us as int, from as u64),
                        forall|j: u64| j < 64 && bit(caps, j) ==> bit(caps0, j),
                        forall|j: u64|
                            j < 64 ==> #[trigger] bit(caps0, j) == (bit(caps_mask, j) && occ_side(
                                board@,
                                opp as int,
                                j as int,
                            ) && !(has(board@, opp as int, KING as int, j as int))),
                        forall|j: u64|
                            j < 64 && bit(caps0, j) && !bit(caps, j) ==> #[trigger] capture_done(
                                board@,
                                ml@,
                                from as int,
                                j as int,
                            ),
                        ml_extended(board@, mt, old(ml)@, ml@),
                        ml_push.len() <= ml@.len(),
                        forall|i: int| 0 <= i < ml_push.len() ==> ml@[i] == ml_push[i],
                    decreases caps,
                {
                    let ghost caps_before = caps;
                    let ghost ml_before = ml@;
                    let to = next(&mut caps);
                    proof {
                        lemma_bit_basics();
                        lemma_bb_shrinks(caps_before, caps, to);
                        assert(occ_side(board@, opp as int, to as int));
                        assert(!(has(board@, opp as int, KING as int, to as int)));
                    }
                    let captured = board.piece_list[to];
                    proof {
                        assert(board@.piece_list[to as int] != PNONE);
                        assert(has(board@, opp as int, captured as int, to as int));
                        assert(captured != KING);
                        assert(from != to);
                    }
                    let is_promo = if us == WHITE {
                        to >= 56
                    } else {
                        to < 8
                    };
                    if is_promo {
                        self.push_promotions(board, ml, mt, from, to, captured);
                        proof {
                            lemma_in_list_mono(ml_before, ml@);
                            assert(capture_done(board@, ml@, from as int, to as int));
                        }
                    } else {
                        let m = build_move(from, to, PAWN, captured, PNONE, false, false, false);
                        proof {
                            assert(move_ok(board@, m));
                        }
                        ml.push(m);
                        proof {
                            lemma_in_list_mono(ml_before, ml@);
                            assert(is_move(ml@[ml@.len() - 1], from as int, to as int, PAWN as int,
                                captured as int, PNONE as int, false, false, false));
                            assert(in_list(ml@, from as int, to as int, PAWN as int,
                                captured as int, PNONE as int, false, false, false));
                            assert(capture_done(board@, ml@, from as int, to as int));
                        }
                    }
                    proof {
                        assert forall|j: u64|
                            j < 64 && bit(caps0, j) && !bit(caps, j) implies
                            #[trigger] capture_done(board@, ml@, from as int, j as int) by {
                            if j != to as u64 {
                                assert(capture_done(board@, ml_before, from as int, j as int));
                            }
                        }
                    }
                }
                proof {
                    lemma_zero_iff_no_bits(caps);
                }
                let ghost ml_cap_end = ml@;
                match board.game_state.en_passant {
                    Some(e) => {
                        let e_sq = e as usize;
                        proof {
                            assert(e < 64);
                        }
                        if (caps_mask >> (e_sq as u64)) & 1u64 == 1u64 {
                            let ghost mlb = ml@;
                            let m = build_move(from, e_sq, PAWN, PNONE, PNONE, true, false, false);
                            proof {
                                assert(board@.game_state.en_passant == Some(m.to_s() as u8));
                                assert(board@.piece_list[e_sq as int] == PNONE);
                                assert(move_ok(board@, m));
                            }
                            ml.push(m);
                            proof {
                                lemma_in_list_mono(mlb, ml@);
                                assert(is_move(ml@[ml@.len() - 1], from as int, e_sq as int,
                                    PAWN as int, PNONE as int, PNONE as int, true, false, false));
                                assert(in_list(ml@, from as int, e_sq as int, PAWN as int,
                                    PNONE as int, PNONE as int, true, false, false));
                            }
                        }
                    },
                    None => {},
                }
                proof {
                    assert(ml_cap_end.len() <= ml@.len());
                    assert(forall|i: int| 0 <= i < ml_cap_end.len() ==> ml@[i] == ml_cap_end[i]);
                    lemma_in_list_mono(ml_cap_end, ml@);
                    assert forall|t: int|
                        0 <= t < 64 && bit(pawn_attacks_spec(us as int, from as u64), t as u64)
                        implies #[trigger] pawn_capture_listed(board@, mt, ml@, from as int, t) by {
                        if occ_side(board@, opp as int, t) && board@.piece_list[t] != PNONE
                            && board@.piece_list[t] != KING {
                            assert(!(has(board@, opp as int, KING as int, t)));
                            assert(bit(caps0, t as u64));
                            assert(capture_done(board@, ml_cap_end, from as int, t));
                            if board@.game_state.active_color == 0 && t >= 56 {
                                assert(promos_listed(ml_cap_end, from as int, t,
                                    board@.piece_list[t] as int));
                            } else if board@.game_state.active_color == 1 && t < 8 {
                                assert(promos_listed(ml_cap_end, from as int, t,
                                    board@.piece_list[t] as int));
                            } else {
                                assert(in_list(ml_cap_end, from as int, t, PAWN as int,
                                    board@.piece_list[t] as int, PNONE as int, false, false,
                                    false));
                            }
                            assert(capture_done(board@, ml@, from as int, t));
                        }
                    }
                }
            } else {
                proof {
                    assert forall|t: int|
                        0 <= t < 64 && bit(pawn_attacks_spec(us as int, from as u64), t as u64)
                        implies #[trigger] pawn_capture_listed(board@, mt, ml@, from as int, t) by {
                        assert(mt == MoveType::Quiet);
                    }
                }
            }
            proof {
                assert(ml_push.len() <= ml@.len());
                assert(forall|i: int| 0 <= i < ml_push.len() ==> ml@[i] == ml_push[i]);
                lemma_in_list_mono(ml_push, ml@);
                assert(pawn_push_listed(board@, mt, ml@, from as int));
                assert(pawn_done(board@, mt, ml@, from as int));
                assert(ml_it0.len() <= ml_push.len());
                assert(forall|i: int| 0 <= i < ml_it0.len() ==> ml_push[i] == ml_it0[i]);
                assert(ml_it0.len() <= ml@.len());
                assert forall|i: int| 0 <= i < ml_it0.len() implies ml@[i] == ml_it0[i] by {
                    assert(ml@[i] == ml_push[i]);
                }
                assert forall|f: u64|
                    f < 64 && bit(orig, f) && !bit(pawns, f) implies #[trigger] pawn_done(
                    board@,
                    mt,
                    ml@,
                    f as int,
                ) by {
                    if f != from as u64 {
                        assert(pawn_done(board@, mt, ml_it0, f as int));
                        lemma_pawn_mono(board@, mt, ml_it0, ml@, f as int);
                    }
                }
            }
        }
        proof {
            lemma_zero_iff_no_bits(pawns);
        }
    }

    /// Append the four promotion moves for one pawn move.
    fn push_promotions(
        &self,
        board: &Board,
        ml: &mut MoveList,
        mt: MoveType,
        from: Square,
        to: Square,
        captured: Piece,
    )
        requires
            wf(board@),
            from < 64,
            to < 64,
            has(board@, board@.game_state.active_color as int, PAWN as int, from as int),
            captured == PNONE ==> board@.piece_list[to as int] == PNONE,
            captured != PNONE ==> captured < 6 && captured != KING && has(
                board@,
                1 - board@.game_state.active_color as int,
                captured as int,
                to as int,
            ),
            mt == MoveType::Captures ==> captured != PNONE,
            mt == MoveType::Quiet ==> captured == PNONE,
        ensures
            ml_extended(board@, mt, old(ml)@, final(ml)@),
            promos_listed(final(ml)@, from as int, to as int, captured as int),
    {
        proof {
            if captured == PNONE {
                assert(board@.piece_list[from as int] == PAWN);
                assert(from != to);
            } else {
                assert(occ_side(board@, board@.game_state.active_color as int, from as int));
                assert(from != to);
            }
        }
        let m1 = build_move(from, to, PAWN, captured, QUEEN, false, false, false);
        proof {
            assert(move_ok(board@, m1));
        }
        ml.push(m1);
        let m2 = build_move(from, to, PAWN, captured, ROOK, false, false, false);
        proof {
            assert(move_ok(board@, m2));
        }
        ml.push(m2);
        let m3 = build_move(from, to, PAWN, captured, BISHOP, false, false, false);
        proof {
            assert(move_ok(board@, m3));
        }
        ml.push(m3);
        let m4 = build_move(from, to, PAWN, captured, KNIGHT, false, false, false);
        proof {
            assert(move_ok(board@, m4));
        }
        ml.push(m4);
        proof {
            let fl = ml@;
            let len = fl.len();
            assert(is_move(fl[len - 4], from as int, to as int, PAWN as int, captured as int,
                QUEEN as int, false, false, false));
            assert(is_move(fl[len - 3], from as int, to as int, PAWN as int, captured as int,
                ROOK as int, false, false, false));
            assert(is_move(fl[len - 2], from as int, to as int, PAWN as int, captured as int,
                BISHOP as int, false, false, false));
            assert(is_move(fl[len - 1], from as int, to as int, PAWN as int, captured as int,
                KNIGHT as int, false, false, false));
        }
    }

    /// Castling moves: the right must still stand, the path must be empty,
    /// and none of the king's traversed squares may be attacked.
    fn castling_moves(&self, board: &Board, ml: &mut MoveList, mt: MoveType)
        requires
            self.wf(),
            wf(board@),
            mt != MoveType::Captures,
        ensures
            ml_extended(board@, mt, old(ml)@, final(ml)@),
            castles_listed(board@, mt, final(ml)@),
    {
        let us = board.us();
        let opp = board.opponent();
        let perms = board.game_state.castling;
        let ghost ml0 = ml@;
        if us == WHITE {
            if perms & Castling::WK != 0 {
                if board.piece_list[F1] == PNONE && board.piece_list[G1] == PNONE {
                    if !self.square_attacked(board, opp, E1) && !self.square_attacked(
                        board,
                        opp,
                        F1,
                    ) && !self.square_attacked(board, opp, G1) {
                        let ghost ml_before = ml@;
                        let m = build_move(E1, G1, KING, PNONE, PNONE, false, false, true);
                        proof {
                            assert(move_ok(board@, m));
                        }
                        ml.push(m);
                        proof {
                            lemma_in_list_mono(ml_before, ml@);
                            assert(is_move(ml@[ml@.len() - 1], E1 as int, G1 as int,
                                KING as int, PNONE as int, PNONE as int, false, false, true));
                            assert(in_list(ml@, E1 as int, G1 as int, KING as int,
                                PNONE as int, PNONE as int, false, false, true));
                        }
                    }
                }
            }
            if perms & Castling::WQ != 0 {
                if board.piece_list[B1] == PNONE && board.piece_list[C1] == PNONE
                    && board.piece_list[D1] == PNONE {
                    if !self.square_attacked(board, opp, E1) && !self.square_attacked(
                        board,
                        opp,
                        D1,
                    ) && !self.square_attacked(board, opp, C1) {
                        let ghost ml_before = ml@;
                        let m = build_move(E1, C1, KING, PNONE, PNONE, false, false, true);
                        proof {
                            assert(move_ok(board@, m));
                        }
                        ml.push(m);
                        proof {
                            lemma_in_list_mono(ml_before, ml@);
                            assert(is_move(ml@[ml@.len() - 1], E1 as int, C1 as int,
                                KING as int, PNONE as int, PNONE as int, false, false, true));
                            assert(in_list(ml@, E1 as int, C1 as int, KING as int,
                                PNONE as int, PNONE as int, false, false, true));
                        }
                    }
                }
            }
        } else {
            if perms & Castling::BK != 0 {
                if board.piece_list[F8] == PNONE && board.piece_list[G8] == PNONE {
                    if !self.square_attacked(board, opp, E8) && !self.square_attacked(
                        board,
                        opp,
                        F8,
                    ) && !self.square_attacked(board, opp, G8) {
                        let ghost ml_before = ml@;
                        let m = build_move(E8, G8, KING, PNONE, PNONE, false, false, true);
                        proof {
                            assert(move_ok(board@, m));
                        }
                        ml.push(m);
                        proof {
                            lemma_in_list_mono(ml_before, ml@);
                            assert(is_move(ml@[ml@.len() - 1], E8 as int, G8 as int,
                                KING as int, PNONE as int, PNONE as int, false, false, true));
                            assert(in_list(ml@, E8 as int, G8 as int, KING as int,
                                PNONE as int, PNONE as int, false, false, true));
                        }
                    }
                }
            }
            if perms & Castling::BQ != 0 {
                if board.piece_list[B8] == PNONE && board.piece_list[C8] == PNONE
                    && board.piece_list[D8] == PNONE {
                    if !self.square_attacked(board, opp, E8) && !self.square_attacked(
                        board,
                        opp,
                        D8,
                    ) && !self.square_attacked(board, opp, C8) {
                        let ghost ml_before = ml@;
                        let m = build_move(E8, C8, KING, PNONE, PNONE, false, false, true);
                        proof {
                            assert(move_ok(board@, m));
                        }
                        ml.push(m);
                        proof {
                            lemma_in_list_mono(ml_before, ml@);
                            assert(is_move(ml@[ml@.len() - 1], E8 as int, C8 as int,
                                KING as int, PNONE as int, PNONE as int, false, false, true));
                            assert(in_list(ml@, E8 as int, C8 as int, KING as int,
                                PNONE as int, PNONE as int, false, false, true));
                        }
                    }
                }
            }
        }
    }

    /// True if the given side attacks the given square.
    pub fn square_attacked(&self, board: &Board, attacker: Side, square: Square) -> (r: bool)
        requires
            self.wf(),
            lengths_ok(board@),
            attacker < 2,
            square < 64,
        ensures
            r == attacked_spec(board@, attacker as int, square as int),
    {
        let occ = board.occupancy();
        let defender = 1 - attacker;
        let pawn_caps = if defender == WHITE {
            self.pawn_capture_w[square]
        } else {
            self.pawn_capture_b[square]
        };
        let rook_like = board.get_pieces(ROOK, attacker) | board.get_pieces(QUEEN, attacker);
        let bishop_like = board.get_pieces(BISHOP, attacker) | board.get_pieces(QUEEN, attacker);
        (self.knight[square] & board.get_pieces(KNIGHT, attacker) != 0) || (self.king[square]
            & board.get_pieces(KING, attacker) != 0) || (pawn_caps & board.get_pieces(
            PAWN,
            attacker,
        ) != 0) || (rook_attacks(occ, square) & rook_like != 0) || (bishop_attacks(occ, square)
            & bishop_like != 0)
    }
}


impl Board {
    /// True if the given side is attacking the given square.
    pub fn square_attacked(&self, mg: &MoveGenerator, attacker: Side, square: Square) -> (r: bool)
        requires
            mg.wf(),
            lengths_ok(self@),
            attacker < 2,
            square < 64,
        ensures
            r == attacked_spec(self@, attacker as int, square as int),
    {
        mg.square_attacked(self, attacker, square)
    }

    /// Generate all pseudo-legal moves of the side to move into the list.
    pub fn gen_all_moves(&self, mg: &MoveGenerator, ml: &mut MoveList)
        requires
            mg.wf(),
            wf(self@),
        ensures
            ml_extended(self@, MoveType::All, old(ml)@, final(ml)@),
            gen_complete(self@, MoveType::All, final(ml)@),
    {
        mg.generate_moves(self, ml, MoveType::All)
    }
}

} // verus!
