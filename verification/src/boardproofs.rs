//! Proofs about the board model: how the material, piece-count and hash
//! folds react to a single-square change, that the primitive placement
//! mutations preserve the board invariants, and that putting a piece back
//! exactly cancels removing it.

use vstd::prelude::*;
use crate::bits::{bit, lemma_bit_basics, lemma_bit_ext};
use crate::defs::{KING, PAWN, PNONE};
use crate::gamestate::GameState;
use crate::model::{
    BoardModel, mat_contrib, mat_sum, count_contrib, count_sum, z_contrib, z_fold, piece_key,
    castle_key, side_key, ep_key, zobrist_scratch, has, occ_side, or6, side_of, lengths_ok,
    wf_base, spec_put, spec_rem, placements_eq, piece_value, piece_count, undo_placements,
    ep_pawn_square, castle_rook_from, castle_rook_to,
};
use crate::defs::ROOK;

verus! {

/// If two models assign the same material contribution to every square
/// except `j`, their material sums differ exactly by the contribution
/// difference at `j`.
pub proof fn lemma_mat_sum_congruence(m1: BoardModel, m2: BoardModel, s: int, j: int, n: int)
    requires
        0 <= j < 64,
        n <= 64,
        forall|sq: int|
            0 <= sq < 64 && sq != j ==> #[trigger] mat_contrib(m2, s, sq) == mat_contrib(m1, s, sq),
    ensures
        j < n ==> mat_sum(m2, s, n) == mat_sum(m1, s, n) + mat_contrib(m2, s, j) - mat_contrib(
            m1,
            s,
            j,
        ),
        n <= j ==> mat_sum(m2, s, n) == mat_sum(m1, s, n),
    decreases n,
{
    if n > 0 {
        lemma_mat_sum_congruence(m1, m2, s, j, n - 1);
    }
}

/// The same congruence for the piece-count fold.
pub proof fn lemma_count_sum_congruence(m1: BoardModel, m2: BoardModel, j: int, n: int)
    requires
        0 <= j < 64,
        n <= 64,
        forall|sq: int|
            0 <= sq < 64 && sq != j ==> #[trigger] count_contrib(m2, sq) == count_contrib(m1, sq),
    ensures
        j < n ==> count_sum(m2, n) == count_sum(m1, n) + count_contrib(m2, j) - count_contrib(
            m1,
            j,
        ),
        n <= j ==> count_sum(m2, n) == count_sum(m1, n),
    decreases n,
{
    if n > 0 {
        lemma_count_sum_congruence(m1, m2, j, n - 1);
    }
}

/// The same congruence for the hash fold: it picks up the old contribution
/// once more (cancelling it) and the new one.
pub proof fn lemma_z_fold_congruence(m1: BoardModel, m2: BoardModel, j: int, n: int)
    requires
        0 <= j < 64,
        n <= 64,
        forall|sq: int|
            0 <= sq < 64 && sq != j ==> #[trigger] z_contrib(m2, sq) == z_contrib(m1, sq),
    ensures
        j < n ==> z_fold(m2, n) == z_fold(m1, n) ^ z_contrib(m1, j) ^ z_contrib(m2, j),
        n <= j ==> z_fold(m2, n) == z_fold(m1, n),
    decreases n,
{
    lemma_bit_basics();
    if n > 0 {
        lemma_z_fold_congruence(m1, m2, j, n - 1);
        if j == n - 1 {
            assert(z_fold(m2, n) == (z_fold(m1, n - 1) ^ z_contrib(m2, j)));
            assert((z_fold(m1, n - 1) ^ z_contrib(m1, j)) ^ z_contrib(m1, j) == z_fold(m1, n - 1));
            assert(z_fold(m1, n) ^ z_contrib(m1, j) ^ z_contrib(m2, j) == ((z_fold(m1, n - 1)
                ^ z_contrib(m1, j)) ^ z_contrib(m1, j)) ^ z_contrib(m2, j));
        } else if j < n - 1 {
            let a = z_fold(m1, n - 1);
            let d1 = z_contrib(m1, j);
            let d2 = z_contrib(m2, j);
            let t = z_contrib(m1, n - 1);
            assert(z_fold(m2, n) == ((a ^ d1) ^ d2) ^ t);
            assert(((a ^ d1) ^ d2) ^ t == ((a ^ d1) ^ t) ^ d2);
            assert((a ^ d1) ^ t == (a ^ t) ^ d1);
            assert(z_fold(m2, n) == (((a ^ t) ^ d1) ^ d2));
        }
    }
}

/// If two models agree on the hash contribution of every square, the folds
/// agree.
pub proof fn lemma_z_fold_same(m1: BoardModel, m2: BoardModel, n: int)
    requires
        n <= 64,
        forall|sq: int| 0 <= sq < 64 ==> #[trigger] z_contrib(m2, sq) == z_contrib(m1, sq),
    ensures
        z_fold(m2, n) == z_fold(m1, n),
    decreases n,
{
    if n > 0 {
        lemma_z_fold_same(m1, m2, n - 1);
    }
}

/// The material fold is bounded: each square contributes between 0 and 900.
pub proof fn lemma_mat_sum_bounds(m: BoardModel, s: int, n: int)
    requires
        0 <= n <= 64,
        forall|sq: int| 0 <= sq < 64 ==> #[trigger] m.piece_list[sq] <= 6,
    ensures
        0 <= mat_sum(m, s, n) <= 900 * n,
    decreases n,
{
    if n > 0 {
        lemma_mat_sum_bounds(m, s, n - 1);
    }
}

/// The material fold is at least the contribution of any single square.
pub proof fn lemma_mat_sum_lower(m: BoardModel, s: int, j: int, n: int)
    requires
        0 <= j < n <= 64,
        forall|sq: int| 0 <= sq < 64 ==> #[trigger] m.piece_list[sq] <= 6,
    ensures
        mat_sum(m, s, n) >= mat_contrib(m, s, j),
    decreases n,
{
    if j < n - 1 {
        lemma_mat_sum_lower(m, s, j, n - 1);
    } else {
        lemma_mat_sum_bounds(m, s, n - 1);
    }
}

/// The bit of one side's piece-board union is the disjunction of the six
/// piece-board bits.
pub proof fn lemma_or6_bit(m: BoardModel, s: int, j: u64)
    requires
        lengths_ok(m),
        0 <= s < 2,
        j < 64,
    ensures
        bit(or6(m, s), j) == (bit(m.bb_side[s * 6], j) || bit(m.bb_side[s * 6 + 1], j) || bit(
            m.bb_side[s * 6 + 2],
            j,
        ) || bit(m.bb_side[s * 6 + 3], j) || bit(m.bb_side[s * 6 + 4], j) || bit(
            m.bb_side[s * 6 + 5],
            j,
        )),
{
    lemma_bit_basics();
}

/// An occupied square has all twelve piece-board bits clear exactly when
/// the piece list calls it empty.
pub proof fn lemma_empty_square_bits(m: BoardModel, sq: int)
    requires
        wf_base(m),
        0 <= sq < 64,
        m.piece_list[sq] == PNONE,
    ensures
        forall|s2: int, p2: int| 0 <= s2 < 2 && 0 <= p2 < 6 ==> !(has(m, s2, p2, sq)),
        !occ_side(m, 0, sq),
        !occ_side(m, 1, sq),
{
    assert forall|s2: int, p2: int| 0 <= s2 < 2 && 0 <= p2 < 6 implies !(has(m, s2, p2, sq)) by {
        assert(has(m, s2, p2, sq) <==> (m.piece_list[sq] == p2 && occ_side(m, s2, sq)));
    }
}

/// A placement on one (side, piece, square) leaves every other board bit
/// and piece-list entry unchanged.
pub proof fn lemma_placement_other(m: BoardModel, s1: int, p1: int, sq1: int, s2: int, p2: int, sq2: int)
    requires
        lengths_ok(m),
        0 <= s1 < 2,
        0 <= p1 < 6,
        0 <= sq1 < 64,
        0 <= s2 < 2,
        0 <= p2 < 6,
        0 <= sq2 < 64,
        s1 != s2 || p1 != p2 || sq1 != sq2,
    ensures
        has(spec_put(m, s1, p1, sq1), s2, p2, sq2) == has(m, s2, p2, sq2),
        has(spec_rem(m, s1, p1, sq1), s2, p2, sq2) == has(m, s2, p2, sq2),
        sq1 != sq2 ==> spec_put(m, s1, p1, sq1).piece_list[sq2] == m.piece_list[sq2],
        sq1 != sq2 ==> spec_rem(m, s1, p1, sq1).piece_list[sq2] == m.piece_list[sq2],
{
    lemma_bit_basics();
    let slot1 = s1 * 6 + p1;
    let slot2 = s2 * 6 + p2;
    if slot1 == slot2 {
        assert(s1 == s2 && p1 == p2);
        assert(sq1 != sq2);
        assert(bit(m.bb_side[slot1] ^ (1u64 << sq1 as u64), sq2 as u64) == bit(
            m.bb_side[slot1],
            sq2 as u64,
        ));
    }
}

/// Removing a just-put piece restores the model exactly.
pub proof fn lemma_rem_put_cancel(m: BoardModel, s: int, p: int, sq: int)
    requires
        wf_base(m),
        0 <= s < 2,
        0 <= p < 6,
        0 <= sq < 64,
        m.piece_list[sq] == PNONE,
    ensures
        spec_rem(spec_put(m, s, p, sq), s, p, sq) == m,
{
    lemma_bit_basics();
    lemma_mat_sum_bounds(m, s, 64);
    let mp = spec_put(m, s, p, sq);
    let mr = spec_rem(mp, s, p, sq);
    assert(piece_key(mp, s, p, sq) == piece_key(m, s, p, sq));
    assert(mr.bb_side =~= m.bb_side);
    assert(mr.bb_pieces =~= m.bb_pieces);
    assert(mr.piece_list =~= m.piece_list);
    assert(mr.material =~= m.material);
    assert(mr.game_state.zobrist_key == m.game_state.zobrist_key);
    assert(mr =~= m);
}

/// Putting a just-removed piece back restores the model exactly.
pub proof fn lemma_put_rem_cancel(m: BoardModel, s: int, p: int, sq: int)
    requires
        wf_base(m),
        0 <= s < 2,
        0 <= p < 6,
        0 <= sq < 64,
        has(m, s, p, sq),
    ensures
        spec_put(spec_rem(m, s, p, sq), s, p, sq) == m,
{
    lemma_bit_basics();
    assert(m.piece_list[sq] == p && occ_side(m, s, sq));
    lemma_mat_sum_lower(m, s, sq, 64);
    assert(mat_contrib(m, s, sq) == piece_value(p));
    let mr = spec_rem(m, s, p, sq);
    let mp = spec_put(mr, s, p, sq);
    assert(piece_key(mr, s, p, sq) == piece_key(m, s, p, sq));
    assert(mp.bb_side =~= m.bb_side);
    assert(mp.bb_pieces =~= m.bb_pieces);
    assert(mp.piece_list =~= m.piece_list);
    assert(mp.material =~= m.material);
    assert(mp.game_state.zobrist_key == m.game_state.zobrist_key);
    assert(mp =~= m);
}

/// Placement effects are functions of the placement fields alone.
pub proof fn lemma_pp_congruence(a: BoardModel, b: BoardModel, s: int, p: int, sq: int)
    requires
        placements_eq(a, b),
    ensures
        placements_eq(spec_put(a, s, p, sq), spec_put(b, s, p, sq)),
        placements_eq(spec_rem(a, s, p, sq), spec_rem(b, s, p, sq)),
{
}

/// The reversal of a move's placements is a function of the placement
/// fields alone.
pub proof fn lemma_undo_placements_congruence(m1: BoardModel, m2: BoardModel, us: int, mv: crate::movedefs::Move)
    requires
        placements_eq(m1, m2),
    ensures
        placements_eq(undo_placements(m1, us, mv), undo_placements(m2, us, mv)),
{
    let opp = 1 - us;
    let f = mv.from_s() as int;
    let t = mv.to_s() as int;
    let p = mv.piece_s() as int;
    let cap = mv.captured_s() as int;
    let prom = mv.promoted_s() as int;
    let placed: int = if prom != PNONE {
        prom
    } else {
        p
    };
    let a1 = if mv.is_ep() {
        spec_put(m1, opp, PAWN as int, ep_pawn_square(us, t))
    } else {
        m1
    };
    let b1 = if mv.is_ep() {
        spec_put(m2, opp, PAWN as int, ep_pawn_square(us, t))
    } else {
        m2
    };
    lemma_pp_congruence(m1, m2, opp, PAWN as int, ep_pawn_square(us, t));
    assert(placements_eq(a1, b1));
    let a2 = if mv.is_castle() {
        spec_put(
            spec_rem(a1, us, ROOK as int, castle_rook_to(t)),
            us,
            ROOK as int,
            castle_rook_from(t),
        )
    } else {
        a1
    };
    let b2 = if mv.is_castle() {
        spec_put(
            spec_rem(b1, us, ROOK as int, castle_rook_to(t)),
            us,
            ROOK as int,
            castle_rook_from(t),
        )
    } else {
        b1
    };
    lemma_pp_congruence(a1, b1, us, ROOK as int, castle_rook_to(t));
    lemma_pp_congruence(
        spec_rem(a1, us, ROOK as int, castle_rook_to(t)),
        spec_rem(b1, us, ROOK as int, castle_rook_to(t)),
        us,
        ROOK as int,
        castle_rook_from(t),
    );
    assert(placements_eq(a2, b2));
    lemma_pp_congruence(a2, b2, us, placed, t);
    lemma_pp_congruence(spec_rem(a2, us, placed, t), spec_rem(b2, us, placed, t), us, p, f);
    let a3 = spec_put(spec_rem(a2, us, placed, t), us, p, f);
    let b3 = spec_put(spec_rem(b2, us, placed, t), us, p, f);
    assert(placements_eq(a3, b3));
    lemma_pp_congruence(a3, b3, opp, cap, t);
    assert(placements_eq(undo_placements(m1, us, mv), undo_placements(m2, us, mv)));
}

/// Putting a piece on an empty square preserves the board invariants; the
/// material grows by the piece value without overflowing, and the piece
/// count grows by one.
pub proof fn lemma_spec_put_wf(m: BoardModel, s: int, p: int, sq: int)
    requires
        wf_base(m),
        0 <= s < 2,
        0 <= p < 6,
        0 <= sq < 64,
        m.piece_list[sq] == PNONE,
    ensures
        wf_base(spec_put(m, s, p, sq)),
        m.material[s] + piece_value(p) <= 0xFFFF,
        spec_put(m, s, p, sq).material[s] == m.material[s] + piece_value(p),
        piece_count(spec_put(m, s, p, sq)) == piece_count(m) + 1,
        has(spec_put(m, s, p, sq), s, p, sq),
    decreases 0int,
{
    lemma_bit_basics();
    lemma_empty_square_bits(m, sq);
    let mp = spec_put(m, s, p, sq);
    let mask = 1u64 << sq as u64;
    let slot = s * 6 + p;
    // Material bound: the counter fits after adding one piece value.
    lemma_mat_sum_bounds(m, s, 64);
    assert(m.material[s] + piece_value(p) <= 0xFFFF);
    // Bit-level effect on the changed boards.
    assert(!(has(m, s, p, sq)));
    assert(mp.bb_side[slot] == m.bb_side[slot] ^ mask);
    assert(bit(m.bb_side[slot] ^ mask, sq as u64) == !bit(m.bb_side[slot], sq as u64));
    assert(bit(mp.bb_side[slot], sq as u64));
    assert(forall|j: u64|
        j < 64 && j != sq as u64 ==> bit(mp.bb_side[slot], j) == bit(m.bb_side[slot], j));
    assert(occ_side(mp, s, sq));
    assert(forall|j: u64|
        j < 64 && j != sq as u64 ==> bit(mp.bb_pieces[s], j) == bit(m.bb_pieces[s], j));
    assert(mp.bb_pieces[1 - s] == m.bb_pieces[1 - s]);
    // The union identity still holds on the changed side.
    assert(or6(mp, s) == (or6(m, s) ^ mask)) by {
        assert forall|j: u64| j < 64 implies bit(or6(mp, s), j) == bit(or6(m, s) ^ mask, j) by {
            lemma_or6_bit(m, s, j);
            lemma_or6_bit(mp, s, j);
            if j == sq as u64 {
                assert(bit(m.bb_side[slot] ^ mask, j) == !bit(m.bb_side[slot], j));
                assert(bit(or6(m, s) ^ mask, j) == !bit(or6(m, s), j));
                assert(!bit(or6(m, s), sq as u64));
            } else {
                assert(bit(m.bb_side[slot] ^ mask, j) == bit(m.bb_side[slot], j));
                assert(bit(or6(m, s) ^ mask, j) == bit(or6(m, s), j));
            }
        }
        lemma_bit_ext(or6(mp, s), or6(m, s) ^ mask);
    }
    assert(or6(mp, 1 - s) == or6(m, 1 - s));
    assert(forall|s2: int| 0 <= s2 < 2 ==> mp.bb_pieces[s2] == or6(mp, s2));
    // Occupancy exclusivity and the piece-list correspondence.
    assert(forall|sq2: int|
        0 <= sq2 < 64 && sq2 != sq ==> (occ_side(mp, 0, sq2) == occ_side(m, 0, sq2) && occ_side(
            mp,
            1,
            sq2,
        ) == occ_side(m, 1, sq2)));
    assert(forall|sq2: int| 0 <= sq2 < 64 ==> !(occ_side(mp, 0, sq2) && occ_side(mp, 1, sq2)));
    assert forall|s2: int, p2: int, sq2: int|
        0 <= s2 < 2 && 0 <= p2 < 6 && 0 <= sq2 < 64 implies (has(mp, s2, p2, sq2) <==> (
    mp.piece_list[sq2] == p2 && occ_side(mp, s2, sq2))) by {
        if sq2 != sq {
            assert(mp.bb_side[s2 * 6 + p2] == m.bb_side[s2 * 6 + p2] || s2 * 6 + p2 == slot);
            assert(bit(mp.bb_side[s2 * 6 + p2], sq2 as u64) == bit(
                m.bb_side[s2 * 6 + p2],
                sq2 as u64,
            ));
            assert(has(mp, s2, p2, sq2) == has(m, s2, p2, sq2));
            assert(has(m, s2, p2, sq2) <==> (m.piece_list[sq2] == p2 && occ_side(m, s2, sq2)));
        } else {
            if s2 == s && p2 == p {
                assert(has(mp, s2, p2, sq2));
            } else {
                assert(mp.bb_side[s2 * 6 + p2] == m.bb_side[s2 * 6 + p2]);
                assert(!(has(m, s2, p2, sq)));
            }
        }
    }
    // Material: only the placed square's contribution changes.
    assert forall|s2: int| 0 <= s2 < 2 implies mp.material[s2] == mat_sum(mp, s2, 64) by {
        assert(forall|sq2: int|
            0 <= sq2 < 64 && sq2 != sq ==> #[trigger] mat_contrib(mp, s2, sq2) == mat_contrib(
                m,
                s2,
                sq2,
            ));
        lemma_mat_sum_congruence(m, mp, s2, sq, 64);
        assert(mat_contrib(m, s2, sq) == 0);
        if s2 == s {
            assert(mat_contrib(mp, s2, sq) == piece_value(p));
        } else {
            assert(!occ_side(mp, s2, sq));
            assert(mat_contrib(mp, s2, sq) == 0);
        }
    }
    // Piece count: one more occupied square.
    assert(forall|sq2: int|
        0 <= sq2 < 64 && sq2 != sq ==> #[trigger] count_contrib(mp, sq2) == count_contrib(m, sq2));
    lemma_count_sum_congruence(m, mp, sq, 64);
    // Hash: the fold picks up the key of the placed piece.
    let pk = piece_key(m, s, p, sq);
    assert forall|sq2: int|
        0 <= sq2 < 64 && sq2 != sq implies #[trigger] z_contrib(mp, sq2) == z_contrib(m, sq2) by {
        assert(occ_side(mp, 0, sq2) == occ_side(m, 0, sq2));
    }
    lemma_z_fold_congruence(m, mp, sq, 64);
    assert(z_contrib(m, sq) == 0);
    assert(side_of(mp, sq) == s);
    assert(z_contrib(mp, sq) == pk);
    assert(z_fold(mp, 64) == z_fold(m, 64) ^ 0u64 ^ pk);
    assert(z_fold(m, 64) ^ 0u64 == z_fold(m, 64));
    let zf = z_fold(m, 64);
    let ck = castle_key(m, m.game_state.castling);
    let sk = side_key(m, m.game_state.active_color as int);
    let ek = ep_key(m, m.game_state.en_passant);
    assert(zobrist_scratch(mp) == ((zf ^ pk) ^ ck) ^ sk ^ ek);
    assert(m.game_state.zobrist_key == ((zf ^ ck) ^ sk) ^ ek);
    assert((((zf ^ pk) ^ ck) ^ sk) ^ ek == ((((zf ^ ck) ^ sk) ^ ek) ^ pk)) by {
        assert((zf ^ pk) ^ ck == (zf ^ ck) ^ pk);
        assert(((zf ^ ck) ^ pk) ^ sk == ((zf ^ ck) ^ sk) ^ pk);
        assert((((zf ^ ck) ^ sk) ^ pk) ^ ek == (((zf ^ ck) ^ sk) ^ ek) ^ pk);
    }
    assert(mp.game_state.zobrist_key == zobrist_scratch(mp));
}

/// Removing a piece preserves the board invariants; the material shrinks by
/// the piece value without underflowing, and the piece count drops by one.
pub proof fn lemma_spec_rem_wf(m: BoardModel, s: int, p: int, sq: int)
    requires
        wf_base(m),
        0 <= s < 2,
        0 <= p < 6,
        0 <= sq < 64,
        has(m, s, p, sq),
    ensures
        wf_base(spec_rem(m, s, p, sq)),
        m.material[s] >= piece_value(p),
        spec_rem(m, s, p, sq).material[s] == m.material[s] - piece_value(p),
        piece_count(spec_rem(m, s, p, sq)) == piece_count(m) - 1,
        spec_rem(m, s, p, sq).piece_list[sq] == PNONE,
    decreases 0int,
{
    lemma_bit_basics();
    let mr = spec_rem(m, s, p, sq);
    let mask = 1u64 << sq as u64;
    let slot = s * 6 + p;
    assert(m.piece_list[sq] == p && occ_side(m, s, sq));
    assert(!occ_side(m, 1 - s, sq));
    // No other piece board of either side holds this square.
    assert forall|s2: int, p2: int|
        0 <= s2 < 2 && 0 <= p2 < 6 && !(s2 == s && p2 == p) implies !(has(m, s2, p2, sq)) by {
        assert(has(m, s2, p2, sq) <==> (m.piece_list[sq] == p2 && occ_side(m, s2, sq)));
    }
    // Material lower bound.
    lemma_mat_sum_lower(m, s, sq, 64);
    assert(mat_contrib(m, s, sq) == piece_value(p));
    assert(m.material[s] >= piece_value(p));
    // Bit-level effect.
    assert(mr.bb_side[slot] == m.bb_side[slot] ^ mask);
    assert(bit(m.bb_side[slot] ^ mask, sq as u64) == !bit(m.bb_side[slot], sq as u64));
    assert(!bit(mr.bb_side[slot], sq as u64));
    assert(forall|j: u64|
        j < 64 && j != sq as u64 ==> bit(mr.bb_side[slot], j) == bit(m.bb_side[slot], j));
    assert(!occ_side(mr, s, sq));
    assert(forall|j: u64|
        j < 64 && j != sq as u64 ==> bit(mr.bb_pieces[s], j) == bit(m.bb_pieces[s], j));
    assert(mr.bb_pieces[1 - s] == m.bb_pieces[1 - s]);
    assert forall|p2: int| 0 <= p2 < 6 implies (#[trigger] bit(m.bb_side[s * 6 + p2], sq as u64) == (p2
        == p)) by {
        assert(has(m, s, p2, sq) <==> (m.piece_list[sq] == p2 && occ_side(m, s, sq)));
        assert(has(m, s, p2, sq) == bit(m.bb_side[s * 6 + p2], sq as u64));
    }
    assert(or6(mr, s) == (or6(m, s) ^ mask)) by {
        assert forall|j: u64| j < 64 implies bit(or6(mr, s), j) == bit(or6(m, s) ^ mask, j) by {
            lemma_or6_bit(m, s, j);
            lemma_or6_bit(mr, s, j);
            if j == sq as u64 {
                assert(bit(m.bb_side[slot] ^ mask, j) == !bit(m.bb_side[slot], j));
                assert(bit(or6(m, s) ^ mask, j) == !bit(or6(m, s), j));
                assert(bit(or6(m, s), sq as u64));
                assert(bit(m.bb_side[s * 6 + 0], sq as u64) == (0 == p));
                assert(bit(m.bb_side[s * 6 + 1], sq as u64) == (1 == p));
                assert(bit(m.bb_side[s * 6 + 2], sq as u64) == (2 == p));
                assert(bit(m.bb_side[s * 6 + 3], sq as u64) == (3 == p));
                assert(bit(m.bb_side[s * 6 + 4], sq as u64) == (4 == p));
                assert(bit(m.bb_side[s * 6 + 5], sq as u64) == (5 == p));
                assert(!bit(mr.bb_side[slot], j));
                assert(!bit(or6(mr, s), j));
                assert(!bit(or6(m, s) ^ mask, j));
            } else {
                assert(bit(m.bb_side[slot] ^ mask, j) == bit(m.bb_side[slot], j));
                assert(bit(or6(m, s) ^ mask, j) == bit(or6(m, s), j));
            }
        }
        lemma_bit_ext(or6(mr, s), or6(m, s) ^ mask);
    }
    assert(or6(mr, 1 - s) == or6(m, 1 - s));
    assert(forall|s2: int| 0 <= s2 < 2 ==> mr.bb_pieces[s2] == or6(mr, s2));
    assert(forall|sq2: int|
        0 <= sq2 < 64 && sq2 != sq ==> (occ_side(mr, 0, sq2) == occ_side(m, 0, sq2) && occ_side(
            mr,
            1,
            sq2,
        ) == occ_side(m, 1, sq2)));
    assert(forall|sq2: int| 0 <= sq2 < 64 ==> !(occ_side(mr, 0, sq2) && occ_side(mr, 1, sq2)));
    assert forall|s2: int, p2: int, sq2: int|
        0 <= s2 < 2 && 0 <= p2 < 6 && 0 <= sq2 < 64 implies (has(mr, s2, p2, sq2) <==> (
    mr.piece_list[sq2] == p2 && occ_side(mr, s2, sq2))) by {
        if sq2 != sq {
            assert(mr.bb_side[s2 * 6 + p2] == m.bb_side[s2 * 6 + p2] || s2 * 6 + p2 == slot);
            assert(bit(mr.bb_side[s2 * 6 + p2], sq2 as u64) == bit(
                m.bb_side[s2 * 6 + p2],
                sq2 as u64,
            ));
            assert(has(mr, s2, p2, sq2) == has(m, s2, p2, sq2));
            assert(has(m, s2, p2, sq2) <==> (m.piece_list[sq2] == p2 && occ_side(m, s2, sq2)));
        } else {
            if s2 == s && p2 == p {
                assert(!(has(mr, s2, p2, sq2)));
            } else {
                assert(mr.bb_side[s2 * 6 + p2] == m.bb_side[s2 * 6 + p2]);
                assert(!(has(m, s2, p2, sq)));
            }
            assert(mr.piece_list[sq2] == PNONE);
        }
    }
    // Material sums.
    assert forall|s2: int| 0 <= s2 < 2 implies mr.material[s2] == mat_sum(mr, s2, 64) by {
        assert(forall|sq2: int|
            0 <= sq2 < 64 && sq2 != sq ==> #[trigger] mat_contrib(mr, s2, sq2) == mat_contrib(
                m,
                s2,
                sq2,
            ));
        lemma_mat_sum_congruence(m, mr, s2, sq, 64);
        assert(mat_contrib(mr, s2, sq) == 0);
        if s2 == s {
            assert(mat_contrib(m, s2, sq) == piece_value(p));
        } else {
            assert(!occ_side(m, s2, sq));
            assert(mat_contrib(m, s2, sq) == 0);
        }
    }
    // Piece count.
    assert(forall|sq2: int|
        0 <= sq2 < 64 && sq2 != sq ==> #[trigger] count_contrib(mr, sq2) == count_contrib(m, sq2));
    lemma_count_sum_congruence(m, mr, sq, 64);
    // Hash.
    let pk = piece_key(m, s, p, sq);
    assert forall|sq2: int|
        0 <= sq2 < 64 && sq2 != sq implies #[trigger] z_contrib(mr, sq2) == z_contrib(m, sq2) by {
        assert(occ_side(mr, 0, sq2) == occ_side(m, 0, sq2));
    }
    lemma_z_fold_congruence(m, mr, sq, 64);
    assert(side_of(m, sq) == s);
    assert(z_contrib(m, sq) == pk);
    assert(z_contrib(mr, sq) == 0);
    assert(z_fold(mr, 64) == z_fold(m, 64) ^ pk ^ 0u64);
    assert(z_fold(m, 64) ^ pk ^ 0u64 == z_fold(m, 64) ^ pk);
    let zf = z_fold(m, 64);
    let ck = castle_key(m, m.game_state.castling);
    let sk = side_key(m, m.game_state.active_color as int);
    let ek = ep_key(m, m.game_state.en_passant);
    assert(zobrist_scratch(mr) == ((zf ^ pk) ^ ck) ^ sk ^ ek);
    assert(m.game_state.zobrist_key == ((zf ^ ck) ^ sk) ^ ek);
    assert((((zf ^ pk) ^ ck) ^ sk) ^ ek == ((((zf ^ ck) ^ sk) ^ ek) ^ pk)) by {
        assert((zf ^ pk) ^ ck == (zf ^ ck) ^ pk);
        assert(((zf ^ ck) ^ pk) ^ sk == ((zf ^ ck) ^ sk) ^ pk);
        assert((((zf ^ ck) ^ sk) ^ pk) ^ ek == (((zf ^ ck) ^ sk) ^ ek) ^ pk);
    }
    assert(mr.game_state.zobrist_key == zobrist_scratch(mr));
}


/// The piece-count fold lies between zero and the number of squares.
pub proof fn lemma_count_sum_bounds(m: BoardModel, n: int)
    requires
        0 <= n <= 64,
    ensures
        0 <= count_sum(m, n) <= n,
    decreases n,
{
    if n > 0 {
        lemma_count_sum_bounds(m, n - 1);
    }
}

} // verus!
