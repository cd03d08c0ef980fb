//! The board: piece bitboards, per-side occupancy, piece list, material
//! counters, the irreversible game state and its history stack. The four
//! placement primitives and the ancillary game-state mutators are the only
//! operations that ever touch this state; each one preserves the board
//! invariants and keeps the hash key consistent.

use vstd::prelude::*;
use crate::bits::{bit, lemma_bit_basics, lemma_zero_iff_no_bits};
use crate::boardproofs::{
    lemma_spec_put_wf, lemma_spec_rem_wf, lemma_z_fold_same, lemma_empty_square_bits,
    lemma_mat_sum_congruence, lemma_z_fold_congruence, lemma_count_sum_congruence,
};
use crate::defs::{KING, PNONE, Piece, Side, Square, Bitboard};
use crate::gamestate::GameState;
use crate::model::{
    BoardModel, wf_base, wf_gs, wf, spec_put, spec_rem, has, occ_side, or6, mat_sum, mat_contrib,
    z_contrib, z_fold, zobrist_scratch, castle_key, side_key, ep_key, piece_key, piece_value,
    piece_count, count_sum, count_contrib, placements_eq, lengths_ok, side_of,
};
use crate::zobrist::ZobristRandoms;
use vstd::std_specs::bits::axiom_u64_trailing_zeros;

verus! {

pub struct Board {
    pub bb_side: Vec<u64>,
    pub bb_pieces: Vec<u64>,
    pub game_state: GameState,
    pub history: Vec<GameState>,
    pub piece_list: Vec<usize>,
    pub material_count: Vec<u16>,
    pub zobrist_randoms: ZobristRandoms,
}

impl View for Board {
    type V = BoardModel;

    open spec fn view(&self) -> BoardModel {
        BoardModel {
            bb_side: self.bb_side@,
            bb_pieces: self.bb_pieces@,
            piece_list: self.piece_list@,
            material: self.material_count@,
            game_state: self.game_state,
            history: self.history@,
            zpieces: self.zobrist_randoms.rnd_pieces@,
            zcastling: self.zobrist_randoms.rnd_castling@,
            zsides: self.zobrist_randoms.rnd_sides@,
            zep: self.zobrist_randoms.rnd_en_passant@,
        }
    }
}

/// Centipawn value of a piece type.
pub fn value_of(piece: Piece) -> (r: u16)
    requires
        piece <= 6,
    ensures
        r == piece_value(piece as int),
{
    match piece {
        1 => 900,
        2 => 500,
        3 => 300,
        4 => 300,
        5 => 100,
        _ => 0,
    }
}

impl Board {
    /// The model is empty: no pieces anywhere, zeroed game state.
    pub open spec fn is_empty_model(m: BoardModel) -> bool {
        &&& forall|i: int| 0 <= i < 12 ==> m.bb_side[i] == 0
        &&& forall|s: int| 0 <= s < 2 ==> m.bb_pieces[s] == 0
        &&& forall|sq: int| 0 <= sq < 64 ==> m.piece_list[sq] == PNONE
        &&& forall|s: int| 0 <= s < 2 ==> m.material[s] == 0
        &&& m.game_state.active_color == 0
        &&& m.game_state.castling == 0
        &&& m.game_state.en_passant is None
        &&& m.game_state.halfmove_clock == 0
        &&& m.game_state.fullmove_number == 0
        &&& m.history.len() == 0
    }

    /// Create an empty board with its hashing table; the hash key of the
    /// empty position is set so that the key always equals its
    /// recomputation from scratch.
    pub fn new() -> (board: Board)
        ensures
            wf_base(board@),
            Board::is_empty_model(board@),
    {
        let zobrist_randoms = ZobristRandoms::new();
        let mut bb_side: Vec<u64> = Vec::new();
        for i in 0..12usize
            invariant
                bb_side@.len() == i,
                forall|k: int| 0 <= k < i ==> bb_side@[k] == 0,
        {
            bb_side.push(0);
        }
        let mut bb_pieces: Vec<u64> = Vec::new();
        bb_pieces.push(0);
        bb_pieces.push(0);
        let mut piece_list: Vec<usize> = Vec::new();
        for i in 0..64usize
            invariant
                piece_list@.len() == i,
                forall|k: int| 0 <= k < i ==> piece_list@[k] == PNONE,
        {
            piece_list.push(PNONE);
        }
        let mut material_count: Vec<u16> = Vec::new();
        material_count.push(0);
        material_count.push(0);
        let mut game_state = GameState::new();
        let base_key = zobrist_randoms.castling(0) ^ zobrist_randoms.side(0)
            ^ zobrist_randoms.en_passant(None);
        game_state.zobrist_key = base_key;
        let board = Board {
            bb_side,
            bb_pieces,
            game_state,
            history: Vec::new(),
            piece_list,
            material_count,
            zobrist_randoms,
        };
        proof {
            lemma_empty_board_wf(board@);
        }
        board
    }

    /// Clear the board back to the empty position.
    pub fn reset(&mut self)
        requires
            lengths_ok(old(self)@),
        ensures
            wf_base(final(self)@),
            Board::is_empty_model(final(self)@),
            final(self)@.zpieces == old(self)@.zpieces,
            final(self)@.zcastling == old(self)@.zcastling,
            final(self)@.zsides == old(self)@.zsides,
            final(self)@.zep == old(self)@.zep,
    {
        let mut i: usize = 0;
        while i < 12
            invariant
                self.bb_side@.len() == 12,
                forall|k: int| 0 <= k < i ==> self.bb_side@[k] == 0,
                i <= 12,
                self.bb_pieces@.len() == 2,
                self.piece_list@.len() == 64,
                self.material_count@.len() == 2,
                self.zobrist_randoms.rnd_pieces@ == old(self).zobrist_randoms.rnd_pieces@,
                self.zobrist_randoms.rnd_castling@ == old(self).zobrist_randoms.rnd_castling@,
                self.zobrist_randoms.rnd_sides@ == old(self).zobrist_randoms.rnd_sides@,
                self.zobrist_randoms.rnd_en_passant@ == old(self).zobrist_randoms.rnd_en_passant@,
                lengths_ok(old(self)@),
            decreases 12 - i,
        {
            self.bb_side[i] = 0;
            i = i + 1;
        }
        self.bb_pieces[0] = 0;
        self.bb_pieces[1] = 0;
        let mut sq: usize = 0;
        while sq < 64
            invariant
                self.bb_side@.len() == 12,
                forall|k: int| 0 <= k < 12 ==> self.bb_side@[k] == 0,
                self.bb_pieces@.len() == 2,
                self.bb_pieces@[0] == 0,
                self.bb_pieces@[1] == 0,
                self.piece_list@.len() == 64,
                forall|k: int| 0 <= k < sq ==> self.piece_list@[k] == PNONE,
                sq <= 64,
                self.material_count@.len() == 2,
                self.zobrist_randoms.rnd_pieces@ == old(self).zobrist_randoms.rnd_pieces@,
                self.zobrist_randoms.rnd_castling@ == old(self).zobrist_randoms.rnd_castling@,
                self.zobrist_randoms.rnd_sides@ == old(self).zobrist_randoms.rnd_sides@,
                self.zobrist_randoms.rnd_en_passant@ == old(self).zobrist_randoms.rnd_en_passant@,
                lengths_ok(old(self)@),
            decreases 64 - sq,
        {
            self.piece_list[sq] = PNONE;
            sq = sq + 1;
        }
        self.material_count[0] = 0;
        self.material_count[1] = 0;
        self.game_state = GameState::new();
        let base_key = self.zobrist_randoms.castling(0) ^ self.zobrist_randoms.side(0)
            ^ self.zobrist_randoms.en_passant(None);
        self.game_state.zobrist_key = base_key;
        self.history.clear();
        proof {
            lemma_empty_board_wf(self@);
        }
    }

    /// Bitboard of one piece type of one side.
    pub fn get_pieces(&self, piece: Piece, side: Side) -> (r: Bitboard)
        requires
            lengths_ok(self@),
            side < 2,
            piece < 6,
        ensures
            r == self@.bb_side[side * 6 + piece],
    {
        self.bb_side[side * 6 + piece]
    }

    /// All occupied squares of both sides.
    pub fn occupancy(&self) -> (r: Bitboard)
        requires
            lengths_ok(self@),
        ensures
            r == (self@.bb_pieces[0] | self@.bb_pieces[1]),
    {
        self.bb_pieces[0] | self.bb_pieces[1]
    }

    /// The side to move.
    pub fn us(&self) -> (r: usize)
        requires
            self@.game_state.active_color < 2,
        ensures
            r == self@.game_state.active_color as int,
            r < 2,
    {
        self.game_state.active_color as usize
    }

    /// The side not to move.
    pub fn opponent(&self) -> (r: usize)
        requires
            self@.game_state.active_color < 2,
        ensures
            r == 1 - self@.game_state.active_color as int,
            r < 2,
    {
        let a = self.game_state.active_color;
        proof {
            assert(a < 2 ==> (a ^ 1) == 1 - a) by (bit_vector);
        }
        (a ^ 1) as usize
    }

    /// Square of the king of the given side.
    pub fn king_square(&self, side: Side) -> (r: Square)
        requires
            lengths_ok(self@),
            side < 2,
            self@.bb_side[side * 6 + KING] != 0,
        ensures
            r < 64,
            has(self@, side as int, KING as int, r as int),
            r == king_square_spec(self@, side as int),
    {
        let bb = self.bb_side[side * 6 + KING];
        proof {
            axiom_u64_trailing_zeros(bb);
        }
        bb.trailing_zeros() as usize
    }

    /// Put a piece onto an empty square: the primitive placement mutation.
    pub fn put_piece(&mut self, side: Side, piece: Piece, square: Square)
        requires
            wf_base(old(self)@),
            side < 2,
            piece < 6,
            square < 64,
            old(self)@.piece_list[square as int] == PNONE,
        ensures
            final(self)@ == spec_put(old(self)@, side as int, piece as int, square as int),
            wf_base(final(self)@),
            final(self)@.material[side as int] == old(self)@.material[side as int] + piece_value(
                piece as int,
            ),
            piece_count(final(self)@) == piece_count(old(self)@) + 1,
    {
        proof {
            lemma_bit_basics();
            lemma_empty_square_bits(self@, square as int);
            lemma_spec_put_wf(self@, side as int, piece as int, square as int);
            assert(!(has(self@, side as int, piece as int, square as int)));
        }
        let mask: u64 = 1u64 << (square as u64);
        let slot = side * 6 + piece;
        let ghost pre = self@;
        self.bb_side[slot] = self.bb_side[slot] | mask;
        self.bb_pieces[side] = self.bb_pieces[side] | mask;
        let key = self.zobrist_randoms.piece(side, piece, square);
        self.game_state.zobrist_key = self.game_state.zobrist_key ^ key;
        let v = value_of(piece);
        proof {
            assert(pre.material[side as int] + piece_value(piece as int) <= 0xFFFF);
        }
        self.material_count[side] = self.material_count[side] + v;
        self.piece_list[square] = piece;
        proof {
            assert(pre.bb_side[side * 6 + piece] | mask == pre.bb_side[side * 6 + piece] ^ mask);
            assert(pre.bb_pieces[side as int] | mask == pre.bb_pieces[side as int] ^ mask);
            assert(self@ =~= spec_put(pre, side as int, piece as int, square as int));
        }
    }

    /// Remove a piece from its square: the exact inverse of `put_piece`.
    pub fn remove_piece(&mut self, side: Side, piece: Piece, square: Square)
        requires
            wf_base(old(self)@),
            side < 2,
            piece < 6,
            square < 64,
            has(old(self)@, side as int, piece as int, square as int),
        ensures
            final(self)@ == spec_rem(old(self)@, side as int, piece as int, square as int),
            wf_base(final(self)@),
            final(self)@.material[side as int] == old(self)@.material[side as int] - piece_value(
                piece as int,
            ),
            piece_count(final(self)@) == piece_count(old(self)@) - 1,
            final(self)@.piece_list[square as int] == PNONE,
    {
        proof {
            lemma_bit_basics();
            lemma_spec_rem_wf(self@, side as int, piece as int, square as int);
        }
        let mask: u64 = 1u64 << (square as u64);
        let slot = side * 6 + piece;
        let ghost pre = self@;
        self.piece_list[square] = PNONE;
        let v = value_of(piece);
        proof {
            assert(pre.material[side as int] >= piece_value(piece as int));
        }
        self.material_count[side] = self.material_count[side] - v;
        let key = self.zobrist_randoms.piece(side, piece, square);
        self.game_state.zobrist_key = self.game_state.zobrist_key ^ key;
        self.bb_side[slot] = self.bb_side[slot] ^ mask;
        self.bb_pieces[side] = self.bb_pieces[side] ^ mask;
        proof {
            assert(self@ =~= spec_rem(pre, side as int, piece as int, square as int));
        }
    }

    /// Remove a piece from its origin square and put it on the (empty)
    /// destination square.
    pub fn move_piece(&mut self, side: Side, piece: Piece, from: Square, to: Square)
        requires
            wf_base(old(self)@),
            side < 2,
            piece < 6,
            from < 64,
            to < 64,
            from != to,
            has(old(self)@, side as int, piece as int, from as int),
            old(self)@.piece_list[to as int] == PNONE,
        ensures
            final(self)@ == spec_put(
                spec_rem(old(self)@, side as int, piece as int, from as int),
                side as int,
                piece as int,
                to as int,
            ),
            wf_base(final(self)@),
    {
        self.remove_piece(side, piece, from);
        self.put_piece(side, piece, to);
    }
}

impl Board {
    /// Set the en-passant target square, keeping the hash key consistent.
    pub fn set_ep_square(&mut self, square: Square)
        requires
            wf_base(old(self)@),
            square < 64,
        ensures
            wf_base(final(self)@),
            final(self)@ == (BoardModel {
                game_state: GameState {
                    en_passant: Some(square as u8),
                    zobrist_key: final(self)@.game_state.zobrist_key,
                    ..old(self)@.game_state
                },
                ..old(self)@
            }),
    {
        let ghost pre = self@;
        let k_old = self.zobrist_randoms.en_passant(self.game_state.en_passant);
        self.game_state.zobrist_key = self.game_state.zobrist_key ^ k_old;
        self.game_state.en_passant = Some(square as u8);
        let k_new = self.zobrist_randoms.en_passant(self.game_state.en_passant);
        self.game_state.zobrist_key = self.game_state.zobrist_key ^ k_new;
        proof {
            lemma_ep_like_rekey(pre, self@, ep_key(pre, pre.game_state.en_passant), ep_key(self@,
                self@.game_state.en_passant));
            assert(self@ =~= BoardModel {
                game_state: GameState {
                    en_passant: Some(square as u8),
                    zobrist_key: self@.game_state.zobrist_key,
                    ..pre.game_state
                },
                ..pre
            });
        }
    }

    /// Clear the en-passant square; clearing an already clear square leaves
    /// the key unchanged because the same slot is folded out and back in.
    pub fn clear_ep_square(&mut self)
        requires
            wf_base(old(self)@),
        ensures
            wf_base(final(self)@),
            final(self)@ == (BoardModel {
                game_state: GameState {
                    en_passant: None,
                    zobrist_key: final(self)@.game_state.zobrist_key,
                    ..old(self)@.game_state
                },
                ..old(self)@
            }),
    {
        let ghost pre = self@;
        let k_old = self.zobrist_randoms.en_passant(self.game_state.en_passant);
        self.game_state.zobrist_key = self.game_state.zobrist_key ^ k_old;
        self.game_state.en_passant = None;
        let k_new = self.zobrist_randoms.en_passant(self.game_state.en_passant);
        self.game_state.zobrist_key = self.game_state.zobrist_key ^ k_new;
        proof {
            lemma_ep_like_rekey(pre, self@, ep_key(pre, pre.game_state.en_passant), ep_key(self@,
                self@.game_state.en_passant));
            assert(self@ =~= BoardModel {
                game_state: GameState {
                    en_passant: None,
                    zobrist_key: self@.game_state.zobrist_key,
                    ..pre.game_state
                },
                ..pre
            });
        }
    }

    /// Flip the side to move, keeping the hash key consistent.
    pub fn swap_side(&mut self)
        requires
            wf_base(old(self)@),
        ensures
            wf_base(final(self)@),
            final(self)@.game_state.active_color == 1 - old(self)@.game_state.active_color,
            final(self)@ == (BoardModel {
                game_state: GameState {
                    active_color: final(self)@.game_state.active_color,
                    zobrist_key: final(self)@.game_state.zobrist_key,
                    ..old(self)@.game_state
                },
                ..old(self)@
            }),
    {
        let ghost pre = self@;
        let a = self.game_state.active_color;
        proof {
            assert(a < 2 ==> (a ^ 1) == 1 - a) by (bit_vector);
        }
        let k_old = self.zobrist_randoms.side(a as usize);
        self.game_state.zobrist_key = self.game_state.zobrist_key ^ k_old;
        self.game_state.active_color = a ^ 1;
        let k_new = self.zobrist_randoms.side(self.game_state.active_color as usize);
        self.game_state.zobrist_key = self.game_state.zobrist_key ^ k_new;
        proof {
            lemma_side_rekey(pre, self@);
            assert(self@ =~= BoardModel {
                game_state: GameState {
                    active_color: self@.game_state.active_color,
                    zobrist_key: self@.game_state.zobrist_key,
                    ..pre.game_state
                },
                ..pre
            });
        }
    }

    /// Replace the castling permission bitmask, keeping the hash key
    /// consistent.
    pub fn update_castling_permissions(&mut self, new_permissions: u8)
        requires
            wf_base(old(self)@),
            new_permissions < 16,
        ensures
            wf_base(final(self)@),
            final(self)@.game_state.castling == new_permissions,
            final(self)@ == (BoardModel {
                game_state: GameState {
                    castling: new_permissions,
                    zobrist_key: final(self)@.game_state.zobrist_key,
                    ..old(self)@.game_state
                },
                ..old(self)@
            }),
    {
        let ghost pre = self@;
        let k_old = self.zobrist_randoms.castling(self.game_state.castling);
        self.game_state.zobrist_key = self.game_state.zobrist_key ^ k_old;
        self.game_state.castling = new_permissions;
        let k_new = self.zobrist_randoms.castling(self.game_state.castling);
        self.game_state.zobrist_key = self.game_state.zobrist_key ^ k_new;
        proof {
            lemma_castle_rekey(pre, self@);
            assert(self@ =~= BoardModel {
                game_state: GameState {
                    castling: new_permissions,
                    zobrist_key: self@.game_state.zobrist_key,
                    ..pre.game_state
                },
                ..pre
            });
        }
    }
}


/// A change that leaves every placement field and key table untouched
/// carries all placement-related invariants over, and leaves the hash fold
/// unchanged.
proof fn lemma_placements_carry(pre: BoardModel, post: BoardModel)
    requires
        wf_base(pre),
        lengths_ok(post),
        placements_eq(post, pre),
        post.zpieces == pre.zpieces,
        post.zcastling == pre.zcastling,
        post.zsides == pre.zsides,
        post.zep == pre.zep,
    ensures
        forall|s: int| 0 <= s < 2 ==> post.bb_pieces[s] == #[trigger] or6(post, s),
        forall|sq: int| 0 <= sq < 64 ==> !(#[trigger] occ_side(post, 0, sq) && occ_side(
            post,
            1,
            sq,
        )),
        forall|sq: int| 0 <= sq < 64 ==> #[trigger] post.piece_list[sq] <= 6,
        forall|sq: int|
            0 <= sq < 64 ==> ((#[trigger] post.piece_list[sq] == 6) <==> (!occ_side(post, 0, sq)
                && !occ_side(post, 1, sq))),
        forall|s: int, p: int, sq: int|
            0 <= s < 2 && 0 <= p < 6 && 0 <= sq < 64 ==> (#[trigger] has(post, s, p, sq) <==> (
            post.piece_list[sq] == p && occ_side(post, s, sq))),
        forall|s: int| 0 <= s < 2 ==> #[trigger] post.material[s] == mat_sum(post, s, 64),
        z_fold(post, 64) == z_fold(pre, 64),
{
    assert(forall|s: int, sq: int|
        0 <= s < 2 && 0 <= sq < 64 ==> #[trigger] occ_side(post, s, sq) == occ_side(pre, s, sq));
    assert(forall|s: int, p: int, sq: int|
        0 <= s < 2 && 0 <= p < 6 && 0 <= sq < 64 ==> #[trigger] has(post, s, p, sq) == has(
            pre,
            s,
            p,
            sq,
        ));
    assert(forall|s: int| 0 <= s < 2 ==> #[trigger] or6(post, s) == or6(pre, s));
    assert forall|s: int| 0 <= s < 2 implies #[trigger] post.material[s] == mat_sum(post, s, 64) by {
        assert(forall|sq: int|
            0 <= sq < 64 ==> #[trigger] mat_contrib(post, s, sq) == mat_contrib(pre, s, sq));
        lemma_mat_sum_congruence(pre, post, s, 0, 64);
        assert(mat_contrib(post, s, 0) == mat_contrib(pre, s, 0));
    }
    assert(forall|sq: int| 0 <= sq < 64 ==> #[trigger] z_contrib(post, sq) == z_contrib(pre, sq));
    lemma_z_fold_same(pre, post, 64);
}

/// Replacing only the en-passant slot of the hash, by folding the old slot
/// key out and the new one in, keeps the key equal to its recomputation.
proof fn lemma_ep_like_rekey(pre: BoardModel, post: BoardModel, k_old: u64, k_new: u64)
    requires
        wf_base(pre),
        lengths_ok(post),
        placements_eq(post, pre),
        post.zpieces == pre.zpieces,
        post.zcastling == pre.zcastling,
        post.zsides == pre.zsides,
        post.zep == pre.zep,
        post.game_state.active_color == pre.game_state.active_color,
        post.game_state.castling == pre.game_state.castling,
        post.game_state.en_passant is Some ==> post.game_state.en_passant->0 < 64,
        k_old == ep_key(pre, pre.game_state.en_passant),
        k_new == ep_key(post, post.game_state.en_passant),
        post.game_state.zobrist_key == pre.game_state.zobrist_key ^ k_old ^ k_new,
    ensures
        wf_base(post),
{
    lemma_bit_basics();
    lemma_placements_carry(pre, post);
    let zf = z_fold(pre, 64);
    let ck = castle_key(pre, pre.game_state.castling);
    let sk = side_key(pre, pre.game_state.active_color as int);
    let e0 = ep_key(pre, pre.game_state.en_passant);
    let e1 = ep_key(post, post.game_state.en_passant);
    assert(pre.game_state.zobrist_key == ((zf ^ ck) ^ sk) ^ e0);
    assert((((((zf ^ ck) ^ sk) ^ e0) ^ e0) ^ e1) == ((zf ^ ck) ^ sk) ^ e1);
    assert(zobrist_scratch(post) == ((zf ^ ck) ^ sk) ^ e1);
}

/// Like the en-passant rekeying, for the side-to-move slot.
proof fn lemma_side_rekey(pre: BoardModel, post: BoardModel)
    requires
        wf_base(pre),
        lengths_ok(post),
        placements_eq(post, pre),
        post.zpieces == pre.zpieces,
        post.zcastling == pre.zcastling,
        post.zsides == pre.zsides,
        post.zep == pre.zep,
        post.game_state.active_color < 2,
        post.game_state.castling == pre.game_state.castling,
        post.game_state.en_passant == pre.game_state.en_passant,
        post.game_state.zobrist_key == pre.game_state.zobrist_key ^ side_key(
            pre,
            pre.game_state.active_color as int,
        ) ^ side_key(post, post.game_state.active_color as int),
    ensures
        wf_base(post),
{
    lemma_bit_basics();
    lemma_placements_carry(pre, post);
    let zf = z_fold(pre, 64);
    let ck = castle_key(pre, pre.game_state.castling);
    let s0 = side_key(pre, pre.game_state.active_color as int);
    let s1 = side_key(post, post.game_state.active_color as int);
    let ek = ep_key(pre, pre.game_state.en_passant);
    assert(pre.game_state.zobrist_key == ((zf ^ ck) ^ s0) ^ ek);
    assert((((((zf ^ ck) ^ s0) ^ ek) ^ s0) ^ s1) == ((zf ^ ck) ^ s1) ^ ek) by {
        assert((((zf ^ ck) ^ s0) ^ ek) ^ s0 == (((zf ^ ck) ^ s0) ^ s0) ^ ek);
        assert(((zf ^ ck) ^ s0) ^ s0 == zf ^ ck);
        assert(((zf ^ ck) ^ ek) ^ s1 == ((zf ^ ck) ^ s1) ^ ek);
    }
    assert(zobrist_scratch(post) == ((zf ^ ck) ^ s1) ^ ek);
}

/// Like the en-passant rekeying, for the castling slot.
proof fn lemma_castle_rekey(pre: BoardModel, post: BoardModel)
    requires
        wf_base(pre),
        lengths_ok(post),
        placements_eq(post, pre),
        post.zpieces == pre.zpieces,
        post.zcastling == pre.zcastling,
        post.zsides == pre.zsides,
        post.zep == pre.zep,
        post.game_state.active_color == pre.game_state.active_color,
        post.game_state.castling < 16,
        post.game_state.en_passant == pre.game_state.en_passant,
        post.game_state.zobrist_key == pre.game_state.zobrist_key ^ castle_key(
            pre,
            pre.game_state.castling,
        ) ^ castle_key(post, post.game_state.castling),
    ensures
        wf_base(post),
{
    lemma_bit_basics();
    lemma_placements_carry(pre, post);
    let zf = z_fold(pre, 64);
    let c0 = castle_key(pre, pre.game_state.castling);
    let c1 = castle_key(post, post.game_state.castling);
    let sk = side_key(pre, pre.game_state.active_color as int);
    let ek = ep_key(pre, pre.game_state.en_passant);
    assert(pre.game_state.zobrist_key == ((zf ^ c0) ^ sk) ^ ek);
    assert((((((zf ^ c0) ^ sk) ^ ek) ^ c0) ^ c1) == ((zf ^ c1) ^ sk) ^ ek) by {
        assert((((zf ^ c0) ^ sk) ^ ek) ^ c0 == (((zf ^ c0) ^ sk) ^ c0) ^ ek);
        assert(((zf ^ c0) ^ sk) ^ c0 == ((zf ^ c0) ^ c0) ^ sk);
        assert((zf ^ c0) ^ c0 == zf);
        assert(((zf ^ sk) ^ ek) ^ c1 == ((zf ^ sk) ^ c1) ^ ek);
        assert((zf ^ sk) ^ c1 == (zf ^ c1) ^ sk);
    }
    assert(zobrist_scratch(post) == ((zf ^ c1) ^ sk) ^ ek);
}

/// The square the engine uses as the king's square: the lowest set bit of
/// the king's board.
pub open spec fn king_square_spec(m: BoardModel, s: int) -> int {
    vstd::std_specs::bits::u64_trailing_zeros(m.bb_side[s * 6 + KING]) as int
}

/// Changing only the clocks and the recorded move leaves the structural
/// invariants intact: the hash recomputation reads none of them.
pub proof fn lemma_same_but_scalars(pre: BoardModel, post: BoardModel)
    requires
        wf_base(pre),
        placements_eq(post, pre),
        post.zpieces == pre.zpieces,
        post.zcastling == pre.zcastling,
        post.zsides == pre.zsides,
        post.zep == pre.zep,
        post.game_state.active_color == pre.game_state.active_color,
        post.game_state.castling == pre.game_state.castling,
        post.game_state.en_passant == pre.game_state.en_passant,
        post.game_state.zobrist_key == pre.game_state.zobrist_key,
    ensures
        wf_base(post),
{
    lemma_placements_carry(pre, post);
    assert(zobrist_scratch(post) == zobrist_scratch(pre));
}

/// A freshly cleared board with the base hash key satisfies the structural
/// invariants.
pub proof fn lemma_empty_board_wf(m: BoardModel)
    requires
        lengths_ok(m),
        forall|i: int| 0 <= i < 12 ==> m.bb_side[i] == 0,
        forall|s: int| 0 <= s < 2 ==> m.bb_pieces[s] == 0,
        forall|sq: int| 0 <= sq < 64 ==> m.piece_list[sq] == PNONE,
        forall|s: int| 0 <= s < 2 ==> m.material[s] == 0,
        m.game_state.active_color == 0,
        m.game_state.castling == 0,
        m.game_state.en_passant is None,
        m.game_state.zobrist_key == m.zcastling[0] ^ m.zsides[0] ^ m.zep[8],
    ensures
        wf_base(m),
{
    lemma_bit_basics();
    lemma_zero_iff_no_bits(0);
    assert(forall|s: int| 0 <= s < 2 ==> #[trigger] or6(m, s) == (0u64 | 0u64 | 0u64 | 0u64 | 0u64
        | 0u64));
    assert(0u64 | 0u64 == 0u64) by (bit_vector);
    assert(forall|sq: int| 0 <= sq < 64 ==> !(#[trigger] occ_side(m, 0, sq)));
    assert(forall|sq: int| 0 <= sq < 64 ==> !(#[trigger] occ_side(m, 1, sq)));
    assert forall|s: int, p: int, sq: int|
        0 <= s < 2 && 0 <= p < 6 && 0 <= sq < 64 implies !(has(m, s, p, sq)) by {
        assert(m.bb_side[s * 6 + p] == 0);
    }
    lemma_zero_mat_sum(m, 0, 64);
    lemma_zero_mat_sum(m, 1, 64);
    lemma_zero_z_fold(m, 64);
    assert(z_fold(m, 64) ^ castle_key(m, 0) == m.zcastling[0]);
    assert(zobrist_scratch(m) == m.zcastling[0] ^ m.zsides[0] ^ m.zep[8]);
}

/// The material fold over an all-empty piece list is zero.
pub proof fn lemma_zero_mat_sum(m: BoardModel, s: int, n: int)
    requires
        n <= 64,
        forall|sq: int| 0 <= sq < 64 ==> #[trigger] m.piece_list[sq] == PNONE,
    ensures
        mat_sum(m, s, n) == 0,
    decreases n,
{
    if n > 0 {
        lemma_zero_mat_sum(m, s, n - 1);
    }
}

/// The hash fold over an all-empty piece list is zero.
pub proof fn lemma_zero_z_fold(m: BoardModel, n: int)
    requires
        n <= 64,
        forall|sq: int| 0 <= sq < 64 ==> #[trigger] m.piece_list[sq] == PNONE,
    ensures
        z_fold(m, n) == 0,
    decreases n,
{
    lemma_bit_basics();
    if n > 0 {
        lemma_zero_z_fold(m, n - 1);
    }
}

} // verus!
