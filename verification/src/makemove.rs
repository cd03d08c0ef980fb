//! Making and taking back moves.
//!
//! `apply_move` performs every mutation of a move through the board
//! primitives: snapshot the irreversible state, move the pieces, update the
//! castling permissions, the en-passant square, the side to move and the
//! clocks. Its contract states the exact reversal property: undoing the
//! resulting position yields the starting position, bit for bit, history
//! included. `unmake_move` executes that reversal.

use vstd::prelude::*;
use crate::bits::{bit, lemma_bit_basics, lemma_zero_iff_no_bits};
use crate::board::Board;
use crate::boardproofs::{
    lemma_placement_other, lemma_rem_put_cancel, lemma_put_rem_cancel,
    lemma_undo_placements_congruence, lemma_spec_put_wf, lemma_spec_rem_wf,
    lemma_count_sum_congruence,
};
use crate::defs::{
    KING, QUEEN, ROOK, BISHOP, KNIGHT, PAWN, PNONE, WHITE, BLACK, Castling, A1, C1, D1, E1, F1,
    G1, H1, A8, C8, D8, E8, F8, G8, H8,
};
use crate::gamestate::GameState;
use crate::model::{
    BoardModel, wf, wf_base, wf_gs, move_ok, undoable, undo_spec, undo_placements, spec_put,
    spec_rem, has, occ_side, piece_count, count_contrib, placements_eq, ep_pawn_square,
    castle_rook_from, castle_rook_to, lengths_ok,
};
use crate::movedefs::Move;

verus! {

/// A move that takes a piece off the board, by capture or en passant.
pub open spec fn is_capture_move(mv: Move) -> bool {
    mv.captured_s() != PNONE || mv.is_ep()
}

/// The position with the current irreversible state pushed onto the
/// history stack.
pub open spec fn pushed(m: BoardModel) -> BoardModel {
    BoardModel { history: m.history.push(m.game_state), ..m }
}

/// Facts about clearing bits in a 4-bit castling mask.
proof fn lemma_castle_mask_bits()
    by (bit_vector)
    ensures
        forall|a: u8, b: u8, c: u8| (#[trigger] ((a & !b) & c)) != 0 ==> (a & c) != 0,
        forall|a: u8, b: u8, c: u8| (b & c) == c ==> (#[trigger] ((a & !b) & c)) == 0,
        forall|a: u8, b: u8, c: u8| (a & c) == 0 ==> (#[trigger] ((a & !b) & c)) == 0,
        forall|a: u8, b: u8| a < 16 ==> #[trigger] (a & !b) < 16,
        forall|c: u8| #[trigger] (c & c) == c,
        (1u8 | 2u8) == 3u8,
        (4u8 | 8u8) == 12u8,
        (3u8 & 1u8) == 1u8,
        (3u8 & 2u8) == 2u8,
        (12u8 & 4u8) == 4u8,
        (12u8 & 8u8) == 8u8,
{
}

/// Perform the piece placements of the move: remove a captured piece,
/// move (or promote) the moving piece, relocate the castling rook, and
/// take the en-passant pawn off the board.
#[verifier::rlimit(100)]
#[verifier::spinoff_prover]
fn apply_placements(board: &mut Board, m: Move)
    requires
        wf(old(board)@),
        move_ok(old(board)@, m),
    ensures
        final(board)@ == spec_placements(
            pushed(old(board)@),
            m,
            old(board)@.game_state.active_color as int,
        ),
        wf_base(final(board)@),
{
    let ghost pre = board@;
    let us = board.us();
    let opp = board.opponent();
    let piece = m.piece();
    let from = m.from();
    let to = m.to();
    let captured = m.captured();
    let promoted = m.promoted();
    let is_castling = m.castling();
    let is_ep = m.en_passant();
    let ghost usi = us as int;
    let ghost oppi = opp as int;

    // 1. Snapshot the irreversible state.
    let snap = board.game_state;
    board.history.push(snap);
    let ghost b0 = board@;
    proof {
        assert(b0 =~= (BoardModel { history: pre.history.push(pre.game_state), ..pre }));
        assert(forall|s2: int, p2: int, sq2: int| has(b0, s2, p2, sq2) == has(pre, s2, p2, sq2));
        crate::board::lemma_same_but_scalars(pre, b0);
        assert(wf_base(b0));
        assert(wf_gs(b0));
    }

    // 2. Captures (not en passant): remove the captured piece.
    if captured != PNONE {
        proof {
            assert(has(board@, oppi, captured as int, to as int));
        }
        board.remove_piece(opp, captured, to);
    }
    let ghost b1 = board@;

    // 3. Move the piece; a promotion puts the promoted piece instead.
    proof {
        if captured != PNONE {
            lemma_placement_other(b0, oppi, captured as int, to as int, usi, piece as int,
                from as int);
        }
        assert(has(b1, usi, piece as int, from as int));
    }
    board.remove_piece(us, piece, from);
    let ghost b2 = board@;
    proof {
        if captured != PNONE {
            lemma_placement_other(b0, oppi, captured as int, to as int, usi, piece as int,
                to as int);
            assert(b1.piece_list[to as int] == PNONE);
        } else {
            assert(b1.piece_list[to as int] == PNONE);
        }
        lemma_placement_other(b1, usi, piece as int, from as int, usi, piece as int, to as int);
        assert(b2.piece_list[to as int] == PNONE);
    }
    let placed = if promoted == PNONE {
        piece
    } else {
        promoted
    };
    board.put_piece(us, placed, to);
    let ghost b3 = board@;

    // 4. Castling: relocate the rook.
    let mut rf: usize = 0;
    let mut rt: usize = 0;
    if is_castling {
        if to == G1 {
            rf = H1;
            rt = F1;
        } else if to == C1 {
            rf = A1;
            rt = D1;
        } else if to == G8 {
            rf = H8;
            rt = F8;
        } else {
            rf = A8;
            rt = D8;
        }
        proof {
            assert(rf == castle_rook_from(to as int) && rt == castle_rook_to(to as int));
            assert(has(b0, usi, ROOK as int, rf as int));
            lemma_placement_other(b0, usi, KING as int, from as int, usi, ROOK as int, rf as int);
            lemma_placement_other(b2, usi, KING as int, to as int, usi, ROOK as int, rf as int);
            assert(has(b3, usi, ROOK as int, rf as int));
        }
        board.remove_piece(us, ROOK, rf);
        proof {
            let b4 = board@;
            assert(b0.piece_list[rt as int] == PNONE);
            lemma_placement_other(b0, usi, KING as int, from as int, usi, ROOK as int, rt as int);
            lemma_placement_other(b2, usi, KING as int, to as int, usi, ROOK as int, rt as int);
            lemma_placement_other(b3, usi, ROOK as int, rf as int, usi, ROOK as int, rt as int);
            assert(b4.piece_list[rt as int] == PNONE);
        }
        board.put_piece(us, ROOK, rt);
    }
    let ghost b5 = board@;

    // 5. En passant: remove the opponent pawn behind the target square.
    let mut ep_pawn_sq: usize = 0;
    if is_ep {
        ep_pawn_sq = if us == WHITE {
            to - 8
        } else {
            to + 8
        };
        proof {
            assert(ep_pawn_sq as int == ep_pawn_square(usi, to as int));
            assert(has(b0, oppi, PAWN as int, ep_pawn_sq as int));
            // The origin square is not the square of the captured pawn:
            // both sides would otherwise occupy it.
            assert(occ_side(b0, usi, from as int));
            assert(occ_side(b0, oppi, ep_pawn_sq as int));
            assert(from != ep_pawn_sq);
            lemma_placement_other(b0, usi, PAWN as int, from as int, oppi, PAWN as int,
                ep_pawn_sq as int);
            lemma_placement_other(b2, usi, PAWN as int, to as int, oppi, PAWN as int,
                ep_pawn_sq as int);
            assert(has(b5, oppi, PAWN as int, ep_pawn_sq as int));
        }
        board.remove_piece(opp, PAWN, ep_pawn_sq);
    }
    proof {
        assert(board@ == spec_placements(b0, m, usi));
    }
}

/// Perform all mutations of the given pseudo-legal move. The resulting
/// position is well formed, records the move and the snapshot of the old
/// irreversible state, and undoing it restores the old position exactly.
#[verifier::rlimit(100)]
#[verifier::spinoff_prover]
pub fn apply_move(board: &mut Board, m: Move)
    requires
        wf(old(board)@),
        move_ok(old(board)@, m),
    ensures
        wf(final(board)@),
        final(board)@.history == old(board)@.history.push(old(board)@.game_state),
        final(board)@.game_state.next_move == m,
        final(board)@.game_state.active_color == 1 - old(board)@.game_state.active_color,
        undoable(final(board)@),
        undo_spec(final(board)@) == old(board)@,
        piece_count(final(board)@) == piece_count(old(board)@) - (if is_capture_move(m) {
            1int
        } else {
            0int
        }),
        final(board)@.game_state.halfmove_clock == (if m.piece_s() == PAWN || m.captured_s()
            != PNONE {
            0u8
        } else if old(board)@.game_state.halfmove_clock < 255 {
            (old(board)@.game_state.halfmove_clock + 1) as u8
        } else {
            255u8
        }),
        final(board)@.game_state.en_passant == (if m.is_double() {
            Some(ep_pawn_square(old(board)@.game_state.active_color as int, m.to_s() as int) as u8)
        } else {
            None::<u8>
        }),
        final(board)@.game_state.castling == perms_from(
            old(board)@.game_state.castling,
            m,
            old(board)@.game_state.active_color as int,
        ),
        final(board)@.game_state.fullmove_number == (if old(board)@.game_state.active_color == 1
            && old(board)@.game_state.fullmove_number < 0xFFFF {
            (old(board)@.game_state.fullmove_number + 1) as u16
        } else {
            old(board)@.game_state.fullmove_number
        }),
        placements_eq(
            final(board)@,
            spec_placements(pushed(old(board)@), m, old(board)@.game_state.active_color as int),
        ),
        final(board)@.zpieces == old(board)@.zpieces,
{
    proof {
        lemma_castle_mask_bits();
    }
    let ghost pre = board@;
    let us = board.us();
    let piece = m.piece();
    let from = m.from();
    let to = m.to();
    let captured = m.captured();
    let is_castling = m.castling();
    let is_double = m.double_step();
    let ghost usi = us as int;

    apply_placements(board, m);
    let ghost b0 = pushed(pre);
    let ghost pl_done = board@;

    // Castling permissions: rook captures on a corner, castling itself,
    // and king or rook moves off their home squares each clear rights.
    let mut perms = board.game_state.castling;
    if captured == ROOK {
        if us == WHITE {
            if to == H8 {
                perms = perms & !Castling::BK;
            }
            if to == A8 {
                perms = perms & !Castling::BQ;
            }
        } else {
            if to == H1 {
                perms = perms & !Castling::WK;
            }
            if to == A1 {
                perms = perms & !Castling::WQ;
            }
        }
    }
    if is_castling {
        if us == WHITE {
            perms = perms & !(Castling::WK | Castling::WQ);
        } else {
            perms = perms & !(Castling::BK | Castling::BQ);
        }
    }
    if !is_castling && (piece == KING || piece == ROOK) {
        if from == H1 {
            perms = perms & !Castling::WK;
        }
        if from == A1 {
            perms = perms & !Castling::WQ;
        }
        if from == E1 {
            perms = perms & !(Castling::WK | Castling::WQ);
        }
        if from == H8 {
            perms = perms & !Castling::BK;
        }
        if from == A8 {
            perms = perms & !Castling::BQ;
        }
        if from == E8 {
            perms = perms & !(Castling::BK | Castling::BQ);
        }
    }
    proof {
        assert(perms < 16);
    }
    board.update_castling_permissions(perms);

    // Clear the en-passant square; a double step sets it anew.
    if board.game_state.en_passant.is_some() {
        board.clear_ep_square();
    }
    if is_double {
        let ep_sq = if us == WHITE {
            to - 8
        } else {
            to + 8
        };
        proof {
            assert(ep_sq as int == ep_pawn_square(usi, to as int));
        }
        board.set_ep_square(ep_sq);
    }

    // Flip the side to move.
    board.swap_side();

    // Clocks and the move that led here.
    let ghost gs_pre = board@;
    if piece == PAWN || captured != PNONE {
        board.game_state.halfmove_clock = 0;
    } else if board.game_state.halfmove_clock < 255 {
        board.game_state.halfmove_clock = board.game_state.halfmove_clock + 1;
    }
    if us == BLACK && board.game_state.fullmove_number < 0xFFFF {
        board.game_state.fullmove_number = board.game_state.fullmove_number + 1;
    }
    board.game_state.next_move = m;
    proof {
        lemma_scalar_gs_change(gs_pre, board@);
    }

    let ghost fin = board@;
    proof {
        assert(perms == perms_from(pre.game_state.castling, m, usi));
        lemma_apply_finish(pre, b0, pl_done, fin, m, usi, perms);
    }
}

/// Take back the last made move: reverse each placement in the opposite
/// order, restore the irreversible state from the top history snapshot,
/// and pop it. The result is exactly `undo_spec` of the position, so after
/// a make the board is bit-for-bit the position before it.
#[verifier::rlimit(100)]
#[verifier::spinoff_prover]
pub fn unmake_move(board: &mut Board)
    requires
        wf_base(old(board)@),
        undoable(old(board)@),
    ensures
        final(board)@ == undo_spec(old(board)@),
{
    let ghost pre = board@;
    let hist_len = board.history.len();
    let snap = board.history[hist_len - 1];
    let m = board.game_state.next_move;
    let us = snap.active_color as usize;
    let opp = 1 - us;
    let f = m.from();
    let t = m.to();
    let p = m.piece();
    let cap = m.captured();
    let prom = m.promoted();
    let placed = if prom == PNONE {
        p
    } else {
        prom
    };
    let ghost usi = us as int;
    let ghost oppi = opp as int;

    // Put the en-passant pawn back.
    if m.en_passant() {
        let ps = if us == 0 {
            t - 8
        } else {
            t + 8
        };
        proof {
            assert(ps as int == ep_pawn_square(usi, t as int));
        }
        board.put_piece(opp, PAWN, ps);
    }
    let ghost u1 = board@;

    // Move the castling rook back to its corner.
    if m.castling() {
        let rfv: usize;
        let rtv: usize;
        if t == G1 {
            rfv = H1;
            rtv = F1;
        } else if t == C1 {
            rfv = A1;
            rtv = D1;
        } else if t == G8 {
            rfv = H8;
            rtv = F8;
        } else {
            rfv = A8;
            rtv = D8;
        }
        proof {
            assert(rfv == castle_rook_from(t as int) && rtv == castle_rook_to(t as int));
        }
        board.remove_piece(us, ROOK, rtv);
        proof {
            lemma_placement_other(u1, usi, ROOK as int, rtv as int, usi, ROOK as int, rfv as int);
        }
        board.put_piece(us, ROOK, rfv);
    }
    let ghost u2 = board@;

    // Take the moved (or promoted) piece off the destination and restore
    // the moving piece on its origin.
    proof {
        if m.is_ep() {
            lemma_placement_other(pre, oppi, PAWN as int, ep_pawn_square(usi, t as int), usi,
                placed as int, t as int);
        }
        if m.is_castle() {
            lemma_placement_other(u1, usi, ROOK as int, castle_rook_to(t as int), usi,
                placed as int, t as int);
            lemma_placement_other(spec_rem(u1, usi, ROOK as int, castle_rook_to(t as int)), usi,
                ROOK as int, castle_rook_from(t as int), usi, placed as int, t as int);
        }
        assert(has(u2, usi, placed as int, t as int));
    }
    board.remove_piece(us, placed, t);
    proof {
        if m.is_ep() {
            lemma_placement_other(pre, oppi, PAWN as int, ep_pawn_square(usi, t as int), usi,
                p as int, f as int);
        }
        if m.is_castle() {
            lemma_placement_other(u1, usi, ROOK as int, castle_rook_to(t as int), usi, p as int,
                f as int);
            lemma_placement_other(spec_rem(u1, usi, ROOK as int, castle_rook_to(t as int)), usi,
                ROOK as int, castle_rook_from(t as int), usi, p as int, f as int);
        }
        lemma_placement_other(u2, usi, placed as int, t as int, usi, p as int, f as int);
        assert(board@.piece_list[f as int] == PNONE);
    }
    board.put_piece(us, p, f);

    // Restore the captured piece.
    if cap != PNONE {
        proof {
            lemma_placement_other(spec_rem(u2, usi, placed as int, t as int), usi, p as int,
                f as int, oppi, cap as int, t as int);
            assert(board@.piece_list[t as int] == PNONE);
        }
        board.put_piece(opp, cap, t);
    }

    // Restore the irreversible state and pop its snapshot.
    board.game_state = snap;
    board.history.pop();
    proof {
        assert(board@.history =~= pre.history.drop_last());
        assert(board@ =~= undo_spec(pre));
    }
}

/// Conclude the contract of a made move from the placement relation and
/// the final game-state fields.
#[verifier::rlimit(100)]
#[verifier::spinoff_prover]
proof fn lemma_apply_finish(
    pre: BoardModel,
    b0: BoardModel,
    pl_done: BoardModel,
    fin: BoardModel,
    m: Move,
    usi: int,
    perms: u8,
)
    requires
        wf(pre),
        move_ok(pre, m),
        usi == pre.game_state.active_color as int,
        b0 == pushed(pre),
        pl_done == spec_placements(b0, m, usi),
        placements_eq(fin, pl_done),
        lengths_ok(fin),
        wf_base(fin),
        fin.history == pl_done.history,
        fin.game_state.next_move == m,
        fin.game_state.castling == perms,
        perms_from(pre.game_state.castling, m, usi) == perms,
        fin.game_state.active_color == 1 - usi,
        fin.game_state.en_passant == (if m.is_double() {
            Some(ep_pawn_square(usi, m.to_s() as int) as u8)
        } else {
            None::<u8>
        }),
        fin.zpieces == pre.zpieces,
        fin.zcastling == pre.zcastling,
        fin.zsides == pre.zsides,
        fin.zep == pre.zep,
    ensures
        wf_gs(fin),
        fin.history == pre.history.push(pre.game_state),
        undoable(fin),
        undo_spec(fin) == pre,
        piece_count(fin) == piece_count(pre) - (if is_capture_move(m) {
            1int
        } else {
            0int
        }),
{
    lemma_bit_basics();
    let t = m.to_s() as int;
    lemma_undo_after_placements(pre, b0, pl_done, m, usi);
    lemma_undo_placements_congruence(fin, pl_done, usi, m);
    assert(fin.history.last() == pre.game_state);
    assert(fin.history.drop_last() =~= pre.history);
    assert(undo_spec(fin) =~= pre);
    lemma_undoable_after(pre, b0, pl_done, fin, m, usi);
    lemma_wf_gs_after(pre, b0, pl_done, fin, m, usi, castle_rook_from(t), castle_rook_to(t),
        ep_pawn_square(usi, t), perms, m.captured_s() != PNONE, m.is_castle(), m.is_ep(),
        m.is_double());
    // Piece count: the placements account for exactly the captured piece.
    lemma_piece_count_after(pre, b0, pl_done, fin, m, usi);
}

/// The piece count after a move drops by one exactly for captures.
#[verifier::rlimit(100)]
#[verifier::spinoff_prover]
proof fn lemma_piece_count_after(
    pre: BoardModel,
    b0: BoardModel,
    pl_done: BoardModel,
    fin: BoardModel,
    m: Move,
    usi: int,
)
    requires
        wf(pre),
        move_ok(pre, m),
        usi == pre.game_state.active_color as int,
        b0 == pushed(pre),
        pl_done == spec_placements(b0, m, usi),
        placements_eq(fin, pl_done),
        lengths_ok(fin),
    ensures
        piece_count(fin) == piece_count(pre) - (if is_capture_move(m) {
            1int
        } else {
            0int
        }),
{
    lemma_bit_basics();
    let oppi = 1 - usi;
    let f = m.from_s() as int;
    let t = m.to_s() as int;
    let p = m.piece_s() as int;
    let cap = m.captured_s() as int;
    let prom = m.promoted_s() as int;
    let placed: int = if prom != PNONE {
        prom
    } else {
        p
    };
    assert(forall|s2: int, p2: int, sq2: int| has(b0, s2, p2, sq2) == has(pre, s2, p2, sq2));
    crate::board::lemma_same_but_scalars(pre, b0);
    assert(forall|sq: int|
        0 <= sq < 64 && sq != 0 ==> #[trigger] count_contrib(b0, sq) == count_contrib(pre, sq));
    lemma_count_sum_congruence(pre, b0, 0, 64);
    let c1 = if cap != PNONE {
        spec_rem(b0, oppi, cap, t)
    } else {
        b0
    };
    if cap != PNONE {
        lemma_spec_rem_wf(b0, oppi, cap, t);
        lemma_placement_other(b0, oppi, cap, t, usi, p, f);
        lemma_placement_other(b0, oppi, cap, t, usi, p, t);
    }
    let c2 = spec_rem(c1, usi, p, f);
    lemma_spec_rem_wf(c1, usi, p, f);
    lemma_placement_other(c1, usi, p, f, usi, placed, t);
    let c3 = spec_put(c2, usi, placed, t);
    lemma_spec_put_wf(c2, usi, placed, t);
    let rfq = castle_rook_from(t);
    let rtq = castle_rook_to(t);
    let c5 = if m.is_castle() {
        spec_put(spec_rem(c3, usi, ROOK as int, rfq), usi, ROOK as int, rtq)
    } else {
        c3
    };
    if m.is_castle() {
        assert(has(b0, usi, ROOK as int, rfq));
        lemma_placement_other(b0, usi, KING as int, f, usi, ROOK as int, rfq);
        lemma_placement_other(c2, usi, KING as int, t, usi, ROOK as int, rfq);
        lemma_spec_rem_wf(c3, usi, ROOK as int, rfq);
        lemma_placement_other(b0, usi, KING as int, f, usi, ROOK as int, rtq);
        lemma_placement_other(c2, usi, KING as int, t, usi, ROOK as int, rtq);
        lemma_placement_other(c3, usi, ROOK as int, rfq, usi, ROOK as int, rtq);
        lemma_spec_put_wf(spec_rem(c3, usi, ROOK as int, rfq), usi, ROOK as int, rtq);
    }
    let ps = ep_pawn_square(usi, t);
    let c6 = if m.is_ep() {
        spec_rem(c5, oppi, PAWN as int, ps)
    } else {
        c5
    };
    if m.is_ep() {
        assert(occ_side(b0, usi, f) && occ_side(b0, oppi, ps));
        assert(f != ps);
        lemma_placement_other(b0, usi, PAWN as int, f, oppi, PAWN as int, ps);
        lemma_placement_other(c2, usi, PAWN as int, t, oppi, PAWN as int, ps);
        lemma_spec_rem_wf(c5, oppi, PAWN as int, ps);
    }
    assert(pl_done == c6);
    assert(forall|sq: int|
        0 <= sq < 64 && sq != 0 ==> #[trigger] count_contrib(fin, sq) == count_contrib(
            pl_done,
            sq,
        ));
    lemma_count_sum_congruence(pl_done, fin, 0, 64);
}

/// The reversal of the placements of `m`, applied to the position right
/// after those placements, restores the position `b0` they started from.
#[verifier::rlimit(100)]
#[verifier::spinoff_prover]
proof fn lemma_undo_after_placements(pre: BoardModel, b0: BoardModel, pl_done: BoardModel, m: Move, usi: int)
    requires
        wf(pre),
        move_ok(pre, m),
        usi == pre.game_state.active_color as int,
        b0 == pushed(pre),
        pl_done == spec_placements(b0, m, usi),
    ensures
        placements_eq(undo_placements(pl_done, usi, m), b0),
        undo_placements(pl_done, usi, m).game_state.next_move == b0.game_state.next_move,
        wf_base(pl_done),
{
    lemma_bit_basics();
    let oppi = 1 - usi;
    let f = m.from_s() as int;
    let t = m.to_s() as int;
    let p = m.piece_s() as int;
    let cap = m.captured_s() as int;
    let prom = m.promoted_s() as int;
    let placed: int = if prom != PNONE {
        prom
    } else {
        p
    };
    assert(forall|s2: int, p2: int, sq2: int| has(b0, s2, p2, sq2) == has(pre, s2, p2, sq2));
    crate::board::lemma_same_but_scalars(pre, b0);
    assert(wf_base(b0));
    assert(wf_gs(b0));
    // Rebuild the chain of placement effects.
    let c1 = if cap != PNONE {
        spec_rem(b0, oppi, cap, t)
    } else {
        b0
    };
    if cap != PNONE {
        lemma_spec_rem_wf(b0, oppi, cap, t);
        lemma_placement_other(b0, oppi, cap, t, usi, p, f);
        lemma_placement_other(b0, oppi, cap, t, usi, p, t);
    }
    assert(wf_base(c1));
    assert(has(c1, usi, p, f));
    assert(c1.piece_list[t] == PNONE);
    let c2 = spec_rem(c1, usi, p, f);
    lemma_spec_rem_wf(c1, usi, p, f);
    lemma_placement_other(c1, usi, p, f, usi, placed, t);
    assert(c2.piece_list[t] == PNONE);
    let c3 = spec_put(c2, usi, placed, t);
    lemma_spec_put_wf(c2, usi, placed, t);
    let rfq = castle_rook_from(t);
    let rtq = castle_rook_to(t);
    let c5 = if m.is_castle() {
        spec_put(spec_rem(c3, usi, ROOK as int, rfq), usi, ROOK as int, rtq)
    } else {
        c3
    };
    if m.is_castle() {
        assert(has(b0, usi, ROOK as int, rfq));
        lemma_placement_other(b0, usi, KING as int, f, usi, ROOK as int, rfq);
        lemma_placement_other(c2, usi, KING as int, t, usi, ROOK as int, rfq);
        assert(has(c3, usi, ROOK as int, rfq));
        lemma_spec_rem_wf(c3, usi, ROOK as int, rfq);
        lemma_placement_other(b0, usi, KING as int, f, usi, ROOK as int, rtq);
        lemma_placement_other(c2, usi, KING as int, t, usi, ROOK as int, rtq);
        lemma_placement_other(c3, usi, ROOK as int, rfq, usi, ROOK as int, rtq);
        assert(spec_rem(c3, usi, ROOK as int, rfq).piece_list[rtq] == PNONE);
        lemma_spec_put_wf(spec_rem(c3, usi, ROOK as int, rfq), usi, ROOK as int, rtq);
    }
    assert(wf_base(c5));
    let ps = ep_pawn_square(usi, t);
    let c6 = if m.is_ep() {
        spec_rem(c5, oppi, PAWN as int, ps)
    } else {
        c5
    };
    if m.is_ep() {
        assert(has(b0, oppi, PAWN as int, ps));
        assert(occ_side(b0, usi, f) && occ_side(b0, oppi, ps));
        assert(f != ps);
        lemma_placement_other(b0, usi, PAWN as int, f, oppi, PAWN as int, ps);
        lemma_placement_other(c2, usi, PAWN as int, t, oppi, PAWN as int, ps);
        assert(has(c5, oppi, PAWN as int, ps));
        lemma_spec_rem_wf(c5, oppi, PAWN as int, ps);
    }
    assert(pl_done == c6);
    assert(wf_base(pl_done));
    // Now unwind: each reversal step cancels the matching placement.
    let u1 = if m.is_ep() {
        spec_put(c6, oppi, PAWN as int, ps)
    } else {
        c6
    };
    if m.is_ep() {
        lemma_put_rem_cancel(c5, oppi, PAWN as int, ps);
    }
    assert(u1 == c5);
    let u2 = if m.is_castle() {
        spec_put(spec_rem(u1, usi, ROOK as int, rtq), usi, ROOK as int, rfq)
    } else {
        u1
    };
    if m.is_castle() {
        let c4 = spec_rem(c3, usi, ROOK as int, rfq);
        lemma_rem_put_cancel(c4, usi, ROOK as int, rtq);
        assert(spec_rem(u1, usi, ROOK as int, rtq) == c4);
        lemma_put_rem_cancel(c3, usi, ROOK as int, rfq);
        assert(u2 == c3);
    }
    assert(u2 == c3);
    lemma_rem_put_cancel(c2, usi, placed, t);
    assert(spec_rem(u2, usi, placed, t) == c2);
    lemma_put_rem_cancel(c1, usi, p, f);
    let u3 = spec_put(spec_rem(u2, usi, placed, t), usi, p, f);
    assert(u3 == c1);
    let u4 = if cap != PNONE {
        spec_put(u3, oppi, cap, t)
    } else {
        u3
    };
    if cap != PNONE {
        lemma_put_rem_cancel(b0, oppi, cap, t);
    }
    assert(u4 == b0);
    assert(undo_placements(pl_done, usi, m) == u4);
}

/// The chain of placement effects of a move, starting from the position
/// with the snapshot already pushed.
pub open spec fn spec_placements(b0: BoardModel, m: Move, usi: int) -> BoardModel {
    let oppi = 1 - usi;
    let f = m.from_s() as int;
    let t = m.to_s() as int;
    let p = m.piece_s() as int;
    let cap = m.captured_s() as int;
    let prom = m.promoted_s() as int;
    let placed: int = if prom != PNONE {
        prom
    } else {
        p
    };
    let c1 = if cap != PNONE {
        spec_rem(b0, oppi, cap, t)
    } else {
        b0
    };
    let c3 = spec_put(spec_rem(c1, usi, p, f), usi, placed, t);
    let c5 = if m.is_castle() {
        spec_put(
            spec_rem(c3, usi, ROOK as int, castle_rook_from(t)),
            usi,
            ROOK as int,
            castle_rook_to(t),
        )
    } else {
        c3
    };
    if m.is_ep() {
        spec_rem(c5, 1 - usi, PAWN as int, ep_pawn_square(usi, t))
    } else {
        c5
    }
}

/// Changing only the clocks and the recorded move preserves the structural
/// invariants: neither is part of any recomputation.
proof fn lemma_scalar_gs_change(pre: BoardModel, post: BoardModel)
    requires
        wf_base(pre),
        post == (BoardModel {
            game_state: GameState {
                halfmove_clock: post.game_state.halfmove_clock,
                fullmove_number: post.game_state.fullmove_number,
                next_move: post.game_state.next_move,
                ..pre.game_state
            },
            ..pre
        }),
    ensures
        wf_base(post),
{
    crate::board::lemma_same_but_scalars(pre, post);
}


/// Everything `undoable` asks of the position after a made move.
#[verifier::rlimit(100)]
#[verifier::spinoff_prover]
proof fn lemma_undoable_after(pre: BoardModel, b0: BoardModel, pl_done: BoardModel, fin: BoardModel, m: Move, usi: int)
    requires
        wf(pre),
        move_ok(pre, m),
        usi == pre.game_state.active_color as int,
        b0 == pushed(pre),
        pl_done == spec_placements(b0, m, usi),
        placements_eq(fin, pl_done),
        fin.history == pl_done.history,
        fin.game_state.next_move == m,
        lengths_ok(fin),
    ensures
        undoable(fin),
{
    lemma_bit_basics();
    let oppi = 1 - usi;
    let f = m.from_s() as int;
    let t = m.to_s() as int;
    let p = m.piece_s() as int;
    let cap = m.captured_s() as int;
    let prom = m.promoted_s() as int;
    let placed: int = if prom != PNONE {
        prom
    } else {
        p
    };
    assert(fin.history.last() == pre.game_state);
    assert(forall|s2: int, p2: int, sq2: int| has(b0, s2, p2, sq2) == has(pre, s2, p2, sq2));
    crate::board::lemma_same_but_scalars(pre, b0);
    assert(wf_base(b0));
    assert(wf_gs(b0));
    // Rebuild the chain to read off the final placement facts.
    let c1 = if cap != PNONE {
        spec_rem(b0, oppi, cap, t)
    } else {
        b0
    };
    if cap != PNONE {
        lemma_spec_rem_wf(b0, oppi, cap, t);
        lemma_placement_other(b0, oppi, cap, t, usi, p, f);
        lemma_placement_other(b0, oppi, cap, t, usi, p, t);
    }
    let c2 = spec_rem(c1, usi, p, f);
    lemma_spec_rem_wf(c1, usi, p, f);
    lemma_placement_other(c1, usi, p, f, usi, placed, t);
    let c3 = spec_put(c2, usi, placed, t);
    lemma_spec_put_wf(c2, usi, placed, t);
    assert(has(c3, usi, placed, t));
    assert(c3.piece_list[f] == PNONE || f == t);
    let rfq = castle_rook_from(t);
    let rtq = castle_rook_to(t);
    let c5 = if m.is_castle() {
        spec_put(spec_rem(c3, usi, ROOK as int, rfq), usi, ROOK as int, rtq)
    } else {
        c3
    };
    if m.is_castle() {
        assert(has(b0, usi, ROOK as int, rfq));
        lemma_placement_other(b0, usi, KING as int, f, usi, ROOK as int, rfq);
        lemma_placement_other(c2, usi, KING as int, t, usi, ROOK as int, rfq);
        lemma_spec_rem_wf(c3, usi, ROOK as int, rfq);
        lemma_placement_other(b0, usi, KING as int, f, usi, ROOK as int, rtq);
        lemma_placement_other(c2, usi, KING as int, t, usi, ROOK as int, rtq);
        lemma_placement_other(c3, usi, ROOK as int, rfq, usi, ROOK as int, rtq);
        lemma_spec_put_wf(spec_rem(c3, usi, ROOK as int, rfq), usi, ROOK as int, rtq);
        // The king on its destination and the empty origin are untouched
        // by the rook relocation.
        lemma_placement_other(c3, usi, ROOK as int, rfq, usi, placed, t);
        lemma_placement_other(spec_rem(c3, usi, ROOK as int, rfq), usi, ROOK as int, rtq, usi,
            placed, t);
        assert(has(c5, usi, placed, t));
        assert(c5.piece_list[f] == PNONE);
        assert(has(c5, usi, ROOK as int, rtq));
        assert(c5.piece_list[rfq] == PNONE);
    }
    let ps = ep_pawn_square(usi, t);
    let c6 = if m.is_ep() {
        spec_rem(c5, oppi, PAWN as int, ps)
    } else {
        c5
    };
    if m.is_ep() {
        assert(occ_side(b0, usi, f) && occ_side(b0, oppi, ps));
        assert(f != ps);
        lemma_placement_other(b0, usi, PAWN as int, f, oppi, PAWN as int, ps);
        lemma_placement_other(c2, usi, PAWN as int, t, oppi, PAWN as int, ps);
        lemma_spec_rem_wf(c5, oppi, PAWN as int, ps);
        lemma_placement_other(c5, oppi, PAWN as int, ps, usi, placed, t);
        assert(has(c6, usi, placed, t));
        assert(c6.piece_list[f] == PNONE);
        assert(c6.piece_list[ps] == PNONE);
    }
    assert(pl_done == c6);
    assert(has(fin, usi, placed, t) == has(pl_done, usi, placed, t));
    assert(has(fin, usi, placed, t));
    assert(fin.piece_list[f] == PNONE);
}

/// The semantic game-state invariants hold after a made move.
#[verifier::rlimit(100)]
#[verifier::spinoff_prover]
proof fn lemma_wf_gs_after(
    pre: BoardModel,
    b0: BoardModel,
    pl_done: BoardModel,
    fin: BoardModel,
    m: Move,
    usi: int,
    rfq: int,
    rtq: int,
    psq: int,
    perms: u8,
    did_cap: bool,
    did_castle: bool,
    did_ep: bool,
    did_double: bool,
)
    requires
        wf(pre),
        move_ok(pre, m),
        usi == pre.game_state.active_color as int,
        b0 == pushed(pre),
        pl_done == spec_placements(b0, m, usi),
        placements_eq(fin, pl_done),
        lengths_ok(fin),
        wf_base(fin),
        did_cap == (m.captured_s() != PNONE),
        did_castle == m.is_castle(),
        did_ep == m.is_ep(),
        did_double == m.is_double(),
        did_castle ==> rfq == castle_rook_from(m.to_s() as int) && rtq == castle_rook_to(
            m.to_s() as int,
        ),
        did_ep ==> psq == ep_pawn_square(usi, m.to_s() as int),
        fin.game_state.castling == perms,
        perms_from(pre.game_state.castling, m, usi) == perms,
        fin.game_state.active_color == 1 - usi,
        fin.game_state.en_passant == (if did_double {
            Some(ep_pawn_square(usi, m.to_s() as int) as u8)
        } else {
            None::<u8>
        }),
    ensures
        wf_gs(fin),
{
    lemma_bit_basics();
    lemma_castle_mask_bits();
    let oppi = 1 - usi;
    let f = m.from_s() as int;
    let t = m.to_s() as int;
    let p = m.piece_s() as int;
    let cap = m.captured_s() as int;
    let prom = m.promoted_s() as int;
    let placed: int = if prom != PNONE {
        prom
    } else {
        p
    };
    assert(forall|s2: int, p2: int, sq2: int| has(b0, s2, p2, sq2) == has(pre, s2, p2, sq2));
    crate::board::lemma_same_but_scalars(pre, b0);
    assert(wf_base(b0));
    assert(wf_gs(b0));
    // Transport: a square left alone by every placement keeps its pieces.
    let c1 = if cap != PNONE {
        spec_rem(b0, oppi, cap, t)
    } else {
        b0
    };
    if cap != PNONE {
        lemma_spec_rem_wf(b0, oppi, cap, t);
        lemma_placement_other(b0, oppi, cap, t, usi, p, f);
        lemma_placement_other(b0, oppi, cap, t, usi, p, t);
    }
    let c2 = spec_rem(c1, usi, p, f);
    lemma_spec_rem_wf(c1, usi, p, f);
    lemma_placement_other(c1, usi, p, f, usi, placed, t);
    let c3 = spec_put(c2, usi, placed, t);
    lemma_spec_put_wf(c2, usi, placed, t);
    let c4 = if did_castle {
        spec_rem(c3, usi, ROOK as int, rfq)
    } else {
        c3
    };
    let c5 = if did_castle {
        spec_put(c4, usi, ROOK as int, rtq)
    } else {
        c3
    };
    if did_castle {
        assert(has(b0, usi, ROOK as int, rfq));
        lemma_placement_other(b0, usi, KING as int, f, usi, ROOK as int, rfq);
        lemma_placement_other(c2, usi, KING as int, t, usi, ROOK as int, rfq);
        lemma_spec_rem_wf(c3, usi, ROOK as int, rfq);
        lemma_placement_other(b0, usi, KING as int, f, usi, ROOK as int, rtq);
        lemma_placement_other(c2, usi, KING as int, t, usi, ROOK as int, rtq);
        lemma_placement_other(c3, usi, ROOK as int, rfq, usi, ROOK as int, rtq);
        lemma_spec_put_wf(c4, usi, ROOK as int, rtq);
    }
    let c6 = if did_ep {
        spec_rem(c5, oppi, PAWN as int, psq)
    } else {
        c5
    };
    if did_ep {
        assert(occ_side(b0, usi, f) && occ_side(b0, oppi, psq));
        assert(f != psq);
        lemma_placement_other(b0, usi, PAWN as int, f, oppi, PAWN as int, psq);
        lemma_placement_other(c2, usi, PAWN as int, t, oppi, PAWN as int, psq);
        lemma_spec_rem_wf(c5, oppi, PAWN as int, psq);
    }
    assert(pl_done == c6);
    // Any (side, piece, square) untouched by all placement steps carries
    // over from the start position.
    assert forall|s2: int, p2: int, sq2: int|
        0 <= s2 < 2 && 0 <= p2 < 6 && 0 <= sq2 < 64 && sq2 != f && sq2 != t && (!did_castle || (
        sq2 != rfq && sq2 != rtq)) && (!did_ep || sq2 != psq) implies #[trigger] has(
        fin,
        s2,
        p2,
        sq2,
    ) == has(pre, s2, p2, sq2) by {
        if cap != PNONE {
            lemma_placement_other(b0, oppi, cap, t, s2, p2, sq2);
        }
        lemma_placement_other(c1, usi, p, f, s2, p2, sq2);
        lemma_placement_other(c2, usi, placed, t, s2, p2, sq2);
        if did_castle {
            lemma_placement_other(c3, usi, ROOK as int, rfq, s2, p2, sq2);
            lemma_placement_other(c4, usi, ROOK as int, rtq, s2, p2, sq2);
        }
        if did_ep {
            lemma_placement_other(c5, oppi, PAWN as int, psq, s2, p2, sq2);
        }
        assert(has(pl_done, s2, p2, sq2) == has(b0, s2, p2, sq2));
        assert(has(fin, s2, p2, sq2) == has(pl_done, s2, p2, sq2));
    }
    // Kings: our king either did not move, or stands on the destination.
    lemma_kings_after(pre, b0, c1, c2, c3, c4, c5, c6, fin, m, usi, rfq, rtq, psq, did_cap,
        did_castle, did_ep);
    // Castling rights: a still-standing right means king and rook never
    // moved and were not captured.
    lemma_rights_after(pre, fin, m, usi, rfq, rtq, psq, perms, did_cap, did_castle, did_ep);
    // En-passant square of the new position.
    if did_double {
        let e = ep_pawn_square(usi, t);
        assert(fin.game_state.en_passant == Some(e as u8));
        if usi == 0 {
            assert(8 <= f < 16 && t == f + 16);
            assert(16 <= e < 24);
            assert(has(fin, usi, placed, t) == has(pl_done, usi, placed, t));
            lemma_transport_placed(pre, b0, c1, c2, c3, fin, m, usi);
            assert(has(fin, 0, PAWN as int, e + 8));
            assert(e != f && e != t);
            assert(fin.piece_list[e] == pre.piece_list[e]);
        } else {
            assert(48 <= f < 56 && f == t + 16);
            assert(40 <= e < 48);
            lemma_transport_placed(pre, b0, c1, c2, c3, fin, m, usi);
            assert(has(fin, 1, PAWN as int, e - 8));
            assert(e != f && e != t);
            assert(fin.piece_list[e] == pre.piece_list[e]);
        }
    }
}

/// The moved piece (or its promotion) stands on the destination square of
/// the final position when the move is neither castling nor en passant
/// relocated afterwards; used for the double-step case.
#[verifier::rlimit(100)]
#[verifier::spinoff_prover]
proof fn lemma_transport_placed(pre: BoardModel, b0: BoardModel, c1: BoardModel, c2: BoardModel, c3: BoardModel, fin: BoardModel, m: Move, usi: int)
    requires
        wf(pre),
        move_ok(pre, m),
        m.is_double(),
        usi == pre.game_state.active_color as int,
        b0 == pushed(pre),
        c1 == b0,
        c2 == spec_rem(c1, usi, m.piece_s() as int, m.from_s() as int),
        c3 == spec_put(c2, usi, m.piece_s() as int, m.to_s() as int),
        placements_eq(fin, c3),
    ensures
        has(fin, usi, PAWN as int, m.to_s() as int),
{
    lemma_bit_basics();
    let f = m.from_s() as int;
    let t = m.to_s() as int;
    assert(forall|s2: int, p2: int, sq2: int| has(b0, s2, p2, sq2) == has(pre, s2, p2, sq2));
    crate::board::lemma_same_but_scalars(pre, b0);
    assert(wf_base(b0));
    lemma_spec_rem_wf(c1, usi, PAWN as int, f);
    lemma_placement_other(c1, usi, PAWN as int, f, usi, PAWN as int, t);
    lemma_spec_put_wf(c2, usi, PAWN as int, t);
    assert(has(c3, usi, PAWN as int, t));
    assert(has(fin, usi, PAWN as int, t) == has(c3, usi, PAWN as int, t));
}

/// The castling permissions computed by the move's rules.
pub open spec fn perms_from(c0: u8, m: Move, usi: int) -> u8 {
    let f = m.from_s() as int;
    let t = m.to_s() as int;
    let p = m.piece_s() as int;
    let cap = m.captured_s() as int;
    let c1 = if cap == ROOK {
        if usi == 0 {
            if t == H8 {
                c0 & !Castling::BK
            } else if t == A8 {
                c0 & !Castling::BQ
            } else {
                c0
            }
        } else {
            if t == H1 {
                c0 & !Castling::WK
            } else if t == A1 {
                c0 & !Castling::WQ
            } else {
                c0
            }
        }
    } else {
        c0
    };
    let c2 = if m.is_castle() {
        if usi == 0 {
            c1 & !(Castling::WK | Castling::WQ)
        } else {
            c1 & !(Castling::BK | Castling::BQ)
        }
    } else {
        c1
    };
    if !m.is_castle() && (p == KING || p == ROOK) {
        let d1 = if f == H1 {
            c2 & !Castling::WK
        } else {
            c2
        };
        let d2 = if f == A1 {
            d1 & !Castling::WQ
        } else {
            d1
        };
        let d3 = if f == E1 {
            d2 & !(Castling::WK | Castling::WQ)
        } else {
            d2
        };
        let d4 = if f == H8 {
            d3 & !Castling::BK
        } else {
            d3
        };
        let d5 = if f == A8 {
            d4 & !Castling::BQ
        } else {
            d4
        };
        if f == E8 {
            d5 & !(Castling::BK | Castling::BQ)
        } else {
            d5
        }
    } else {
        c2
    }
}

/// Both kings stand on the board after a made move.
#[verifier::rlimit(100)]
#[verifier::spinoff_prover]
proof fn lemma_kings_after(
    pre: BoardModel,
    b0: BoardModel,
    c1: BoardModel,
    c2: BoardModel,
    c3: BoardModel,
    c4: BoardModel,
    c5: BoardModel,
    c6: BoardModel,
    fin: BoardModel,
    m: Move,
    usi: int,
    rfq: int,
    rtq: int,
    psq: int,
    did_cap: bool,
    did_castle: bool,
    did_ep: bool,
)
    requires
        wf(pre),
        move_ok(pre, m),
        usi == pre.game_state.active_color as int,
        b0 == pushed(pre),
        did_cap == (m.captured_s() != PNONE),
        did_castle == m.is_castle(),
        did_ep == m.is_ep(),
        c1 == (if did_cap {
            spec_rem(b0, 1 - usi, m.captured_s() as int, m.to_s() as int)
        } else {
            b0
        }),
        c2 == spec_rem(c1, usi, m.piece_s() as int, m.from_s() as int),
        c3 == spec_put(
            c2,
            usi,
            if m.promoted_s() != PNONE {
                m.promoted_s() as int
            } else {
                m.piece_s() as int
            },
            m.to_s() as int,
        ),
        did_castle ==> rfq == castle_rook_from(m.to_s() as int) && rtq == castle_rook_to(
            m.to_s() as int,
        ) && c4 == spec_rem(c3, usi, ROOK as int, rfq) && c5 == spec_put(c4, usi, ROOK as int, rtq),
        !did_castle ==> c5 == c3,
        did_ep ==> psq == ep_pawn_square(usi, m.to_s() as int) && c6 == spec_rem(
            c5,
            1 - usi,
            PAWN as int,
            psq,
        ),
        !did_ep ==> c6 == c5,
        placements_eq(fin, c6),
        lengths_ok(fin),
    ensures
        fin.bb_side[usi * 6 + KING] != 0,
        fin.bb_side[(1 - usi) * 6 + KING] != 0,
{
    lemma_bit_basics();
    let oppi = 1 - usi;
    let f = m.from_s() as int;
    let t = m.to_s() as int;
    let p = m.piece_s() as int;
    let cap = m.captured_s() as int;
    let prom = m.promoted_s() as int;
    let placed: int = if prom != PNONE {
        prom
    } else {
        p
    };
    assert(forall|s2: int, p2: int, sq2: int| has(b0, s2, p2, sq2) == has(pre, s2, p2, sq2));
    crate::board::lemma_same_but_scalars(pre, b0);
    assert(wf_base(b0));
    assert(wf_gs(b0));
    // The opponent king board is never an operand: no placement uses the
    // slot (opponent, king).
    assert(c1.bb_side[oppi * 6 + KING] == b0.bb_side[oppi * 6 + KING]);
    assert(c2.bb_side[oppi * 6 + KING] == c1.bb_side[oppi * 6 + KING]);
    assert(c3.bb_side[oppi * 6 + KING] == c2.bb_side[oppi * 6 + KING]);
    assert(c5.bb_side[oppi * 6 + KING] == c3.bb_side[oppi * 6 + KING]);
    assert(c6.bb_side[oppi * 6 + KING] == c5.bb_side[oppi * 6 + KING]);
    assert(fin.bb_side[oppi * 6 + KING] == pre.bb_side[oppi * 6 + KING]);
    if p == KING {
        // Our king moved: it stands on its destination.
        if cap != PNONE {
            lemma_spec_rem_wf(b0, oppi, cap, t);
            lemma_placement_other(b0, oppi, cap, t, usi, p, f);
            lemma_placement_other(b0, oppi, cap, t, usi, p, t);
        }
        lemma_spec_rem_wf(c1, usi, p, f);
        lemma_placement_other(c1, usi, p, f, usi, placed, t);
        lemma_spec_put_wf(c2, usi, placed, t);
        assert(has(c3, usi, KING as int, t));
        if did_castle {
            lemma_placement_other(c3, usi, ROOK as int, rfq, usi, KING as int, t);
            lemma_placement_other(c4, usi, ROOK as int, rtq, usi, KING as int, t);
        }
        if did_ep {
            lemma_placement_other(c5, oppi, PAWN as int, psq, usi, KING as int, t);
        }
        assert(has(c6, usi, KING as int, t));
        assert(has(fin, usi, KING as int, t) == has(c6, usi, KING as int, t));
        lemma_has_nonzero(fin, usi, KING as int, t);
    } else {
        // Our king board is untouched: every placement uses another slot.
        assert(c1.bb_side[usi * 6 + KING] == b0.bb_side[usi * 6 + KING]);
        assert(c2.bb_side[usi * 6 + KING] == c1.bb_side[usi * 6 + KING]);
        assert(c3.bb_side[usi * 6 + KING] == c2.bb_side[usi * 6 + KING]);
        assert(c5.bb_side[usi * 6 + KING] == c3.bb_side[usi * 6 + KING]);
        assert(c6.bb_side[usi * 6 + KING] == c5.bb_side[usi * 6 + KING]);
        assert(fin.bb_side[usi * 6 + KING] == pre.bb_side[usi * 6 + KING]);
    }
}

/// A set bit makes the board non-zero.
proof fn lemma_has_nonzero(m: BoardModel, s: int, p: int, sq: int)
    requires
        lengths_ok(m),
        0 <= s < 2,
        0 <= p < 6,
        0 <= sq < 64,
        has(m, s, p, sq),
    ensures
        m.bb_side[s * 6 + p] != 0,
{
    lemma_zero_iff_no_bits(m.bb_side[s * 6 + p]);
}

/// A still-standing castling right after a move means the king and rook of
/// that right are still on their home squares.
#[verifier::rlimit(100)]
#[verifier::spinoff_prover]
proof fn lemma_rights_after(
    pre: BoardModel,
    fin: BoardModel,
    m: Move,
    usi: int,
    rfq: int,
    rtq: int,
    psq: int,
    perms: u8,
    did_cap: bool,
    did_castle: bool,
    did_ep: bool,
)
    requires
        wf(pre),
        move_ok(pre, m),
        usi == pre.game_state.active_color as int,
        lengths_ok(fin),
        fin.game_state.castling == perms,
        perms_from(pre.game_state.castling, m, usi) == perms,
        did_cap == (m.captured_s() != PNONE),
        did_castle == m.is_castle(),
        did_ep == m.is_ep(),
        did_castle ==> rfq == castle_rook_from(m.to_s() as int) && rtq == castle_rook_to(
            m.to_s() as int,
        ),
        did_ep ==> psq == ep_pawn_square(usi, m.to_s() as int),
        forall|s2: int, p2: int, sq2: int|
            0 <= s2 < 2 && 0 <= p2 < 6 && 0 <= sq2 < 64 && sq2 != m.from_s() as int && sq2
                != m.to_s() as int && (!did_castle || (sq2 != rfq && sq2 != rtq)) && (!did_ep
                || sq2 != psq) ==> #[trigger] has(fin, s2, p2, sq2) == has(pre, s2, p2, sq2),
    ensures
        perms & Castling::WK != 0 ==> has(fin, 0, KING as int, E1 as int) && has(
            fin,
            0,
            ROOK as int,
            H1 as int,
        ),
        perms & Castling::WQ != 0 ==> has(fin, 0, KING as int, E1 as int) && has(
            fin,
            0,
            ROOK as int,
            A1 as int,
        ),
        perms & Castling::BK != 0 ==> has(fin, 1, KING as int, E8 as int) && has(
            fin,
            1,
            ROOK as int,
            H8 as int,
        ),
        perms & Castling::BQ != 0 ==> has(fin, 1, KING as int, E8 as int) && has(
            fin,
            1,
            ROOK as int,
            A8 as int,
        ),
{
    lemma_bit_basics();
    lemma_castle_mask_bits();
    let f = m.from_s() as int;
    let t = m.to_s() as int;
    let p = m.piece_s() as int;
    let cap = m.captured_s() as int;
    let c0 = pre.game_state.castling;
    // White king side.
    if perms & Castling::WK != 0 {
        assert(c0 & Castling::WK != 0);
        assert(has(pre, 0, KING as int, E1 as int) && has(pre, 0, ROOK as int, H1 as int));
        lemma_right_squares_untouched(pre, m, usi, rfq, rtq, psq, perms, did_cap, did_castle,
            did_ep, 0, E1 as int, H1 as int, Castling::WK);
        assert(has(fin, 0, KING as int, E1 as int) == has(pre, 0, KING as int, E1 as int));
        assert(has(fin, 0, ROOK as int, H1 as int) == has(pre, 0, ROOK as int, H1 as int));
    }
    if perms & Castling::WQ != 0 {
        assert(c0 & Castling::WQ != 0);
        assert(has(pre, 0, KING as int, E1 as int) && has(pre, 0, ROOK as int, A1 as int));
        lemma_right_squares_untouched(pre, m, usi, rfq, rtq, psq, perms, did_cap, did_castle,
            did_ep, 0, E1 as int, A1 as int, Castling::WQ);
        assert(has(fin, 0, KING as int, E1 as int) == has(pre, 0, KING as int, E1 as int));
        assert(has(fin, 0, ROOK as int, A1 as int) == has(pre, 0, ROOK as int, A1 as int));
    }
    if perms & Castling::BK != 0 {
        assert(c0 & Castling::BK != 0);
        assert(has(pre, 1, KING as int, E8 as int) && has(pre, 1, ROOK as int, H8 as int));
        lemma_right_squares_untouched(pre, m, usi, rfq, rtq, psq, perms, did_cap, did_castle,
            did_ep, 1, E8 as int, H8 as int, Castling::BK);
        assert(has(fin, 1, KING as int, E8 as int) == has(pre, 1, KING as int, E8 as int));
        assert(has(fin, 1, ROOK as int, H8 as int) == has(pre, 1, ROOK as int, H8 as int));
    }
    if perms & Castling::BQ != 0 {
        assert(c0 & Castling::BQ != 0);
        assert(has(pre, 1, KING as int, E8 as int) && has(pre, 1, ROOK as int, A8 as int));
        lemma_right_squares_untouched(pre, m, usi, rfq, rtq, psq, perms, did_cap, did_castle,
            did_ep, 1, E8 as int, A8 as int, Castling::BQ);
        assert(has(fin, 1, KING as int, E8 as int) == has(pre, 1, KING as int, E8 as int));
        assert(has(fin, 1, ROOK as int, A8 as int) == has(pre, 1, ROOK as int, A8 as int));
    }
}

/// If a castling right survives the move's permission updates, the move
/// touched neither the king home square nor the rook home square of that
/// right.
#[verifier::rlimit(100)]
#[verifier::spinoff_prover]
proof fn lemma_right_squares_untouched(
    pre: BoardModel,
    m: Move,
    usi: int,
    rfq: int,
    rtq: int,
    psq: int,
    perms: u8,
    did_cap: bool,
    did_castle: bool,
    did_ep: bool,
    side_c: int,
    ksq: int,
    rsq: int,
    bitmask: u8,
)
    requires
        wf(pre),
        move_ok(pre, m),
        usi == pre.game_state.active_color as int,
        perms_from(pre.game_state.castling, m, usi) == perms,
        did_cap == (m.captured_s() != PNONE),
        did_castle == m.is_castle(),
        did_ep == m.is_ep(),
        did_castle ==> rfq == castle_rook_from(m.to_s() as int) && rtq == castle_rook_to(
            m.to_s() as int,
        ),
        did_ep ==> psq == ep_pawn_square(usi, m.to_s() as int),
        perms & bitmask != 0,
        (side_c == 0 && ksq == E1 && (rsq == H1 && bitmask == Castling::WK || rsq == A1 && bitmask
            == Castling::WQ)) || (side_c == 1 && ksq == E8 && (rsq == H8 && bitmask == Castling::BK
            || rsq == A8 && bitmask == Castling::BQ)),
        has(pre, side_c, KING as int, ksq),
        has(pre, side_c, ROOK as int, rsq),
    ensures
        m.from_s() as int != ksq,
        m.from_s() as int != rsq,
        m.to_s() as int != ksq,
        m.to_s() as int != rsq,
        did_castle ==> rfq != ksq && rfq != rsq && rtq != ksq && rtq != rsq,
        did_ep ==> psq != ksq && psq != rsq,
{
    lemma_bit_basics();
    lemma_castle_mask_bits();
    let f = m.from_s() as int;
    let t = m.to_s() as int;
    let p = m.piece_s() as int;
    let cap = m.captured_s() as int;
    let c0 = pre.game_state.castling;
    assert(c0 & bitmask != 0);
    // The piece list pins what stands on the two home squares.
    assert(pre.piece_list[ksq] == KING && occ_side(pre, side_c, ksq));
    assert(pre.piece_list[rsq] == ROOK && occ_side(pre, side_c, rsq));
    // Origin square: the moved piece belongs to the side to move.
    assert(pre.piece_list[f] == p && occ_side(pre, usi, f));
    if usi == side_c {
        // Our own move: moving off either home square clears the right.
        if f == ksq {
            assert(p == KING);
            assert(perms & bitmask == 0);
        }
        if f == rsq {
            assert(p == ROOK);
            assert(perms & bitmask == 0);
        }
        if did_castle {
            assert(perms & bitmask == 0);
        }
    } else {
        // The opponent moved: its pieces stand on neither home square.
        assert(occ_side(pre, usi, f));
        assert(f != ksq && f != rsq);
    }
    // Destination square: capturing the rook clears the right; anything
    // else cannot land on an occupied home square.
    if t == ksq {
        if cap != PNONE {
            assert(has(pre, 1 - usi, cap, t));
            assert(pre.piece_list[t] == cap);
            assert(cap == KING);
            assert(false);
        } else {
            assert(!m.is_ep() || pre.game_state.en_passant == Some(m.to_s() as u8));
            if m.is_ep() {
                assert(pre.piece_list[t] == PNONE);
            }
            assert(pre.piece_list[t] == PNONE);
            assert(false);
        }
    }
    if t == rsq {
        if cap != PNONE {
            assert(pre.piece_list[t] == cap);
            assert(cap == ROOK);
            assert(usi != side_c);
            assert(perms & bitmask == 0);
            assert(false);
        } else {
            if m.is_ep() {
                assert(pre.piece_list[t] == PNONE);
            }
            assert(pre.piece_list[t] == PNONE);
            assert(false);
        }
    }
    if did_castle {
        // The surviving right belongs to the opponent of the castling
        // side, whose rook squares lie on the other back rank.
        assert(usi != side_c);
        if usi == 0 {
            assert(rfq == H1 || rfq == A1);
            assert(rtq == F1 || rtq == D1);
            assert(side_c == 1);
        } else {
            assert(rfq == H8 || rfq == A8);
            assert(rtq == F8 || rtq == D8);
            assert(side_c == 0);
        }
    }
    if did_ep {
        // The removed pawn stands next to the en-passant square, never on
        // a back rank.
        if usi == 0 {
            assert(40 <= t < 48);
            assert(32 <= psq < 40);
        } else {
            assert(16 <= t < 24);
            assert(24 <= psq < 32);
        }
    }
}



/// Make a move: apply every mutation, then check that the mover's own king
/// is not attacked. An illegal move is taken back on the spot, leaving the
/// board bit-for-bit as it was.
pub fn make_move(board: &mut Board, m: Move, mg: &crate::movegen::MoveGenerator) -> (legal: bool)
    requires
        wf(old(board)@),
        move_ok(old(board)@, m),
        mg.wf(),
    ensures
        legal == !crate::movegen::attacked_spec(
            spec_placements(pushed(old(board)@), m, old(board)@.game_state.active_color as int),
            1 - old(board)@.game_state.active_color as int,
            crate::board::king_square_spec(
                spec_placements(
                    pushed(old(board)@),
                    m,
                    old(board)@.game_state.active_color as int,
                ),
                old(board)@.game_state.active_color as int,
            ),
        ),
        !legal ==> final(board)@ == old(board)@,
        legal ==> wf(final(board)@),
        legal ==> final(board)@.history == old(board)@.history.push(old(board)@.game_state),
        legal ==> final(board)@.game_state.next_move == m,
        legal ==> final(board)@.game_state.active_color == 1 - old(
            board,
        )@.game_state.active_color,
        legal ==> undoable(final(board)@),
        legal ==> undo_spec(final(board)@) == old(board)@,
        legal ==> piece_count(final(board)@) == piece_count(old(board)@) - (if is_capture_move(
            m,
        ) {
            1int
        } else {
            0int
        }),
        legal ==> final(board)@.game_state.halfmove_clock == (if m.piece_s() == PAWN
            || m.captured_s() != PNONE {
            0u8
        } else if old(board)@.game_state.halfmove_clock < 255 {
            (old(board)@.game_state.halfmove_clock + 1) as u8
        } else {
            255u8
        }),
        legal ==> final(board)@.game_state.en_passant == (if m.is_double() {
            Some(ep_pawn_square(old(board)@.game_state.active_color as int, m.to_s() as int) as u8)
        } else {
            None::<u8>
        }),
        legal ==> final(board)@.game_state.castling == perms_from(
            old(board)@.game_state.castling,
            m,
            old(board)@.game_state.active_color as int,
        ),
        legal ==> final(board)@.game_state.fullmove_number == (if old(
            board,
        )@.game_state.active_color == 1 && old(board)@.game_state.fullmove_number < 0xFFFF {
            (old(board)@.game_state.fullmove_number + 1) as u16
        } else {
            old(board)@.game_state.fullmove_number
        }),
        legal ==> !crate::movegen::attacked_spec(
            final(board)@,
            final(board)@.game_state.active_color as int,
            crate::board::king_square_spec(
                final(board)@,
                1 - final(board)@.game_state.active_color as int,
            ),
        ),
{
    let us = board.us();
    let opp = board.opponent();
    let ghost pre = board@;
    let ghost sp = spec_placements(pushed(pre), m, us as int);
    apply_move(board, m);
    let king_sq = board.king_square(us);
    let attacked = mg.square_attacked(board, opp, king_sq);
    proof {
        // The legality test reads only the piece placement, which equals
        // the placement-complete position of the move.
        let mid = board@;
        assert(mid.bb_side == sp.bb_side && mid.bb_pieces == sp.bb_pieces);
        assert(crate::board::king_square_spec(mid, us as int) == crate::board::king_square_spec(
            sp,
            us as int,
        ));
        assert(crate::movegen::occ_all(mid) == crate::movegen::occ_all(sp));
        assert(attacked == crate::movegen::attacked_spec(sp, opp as int, king_sq as int));
    }
    if attacked {
        unmake_move(board);
        false
    } else {
        true
    }
}

} // verus!
