//! FEN: reading and writing positions.
//!
//! `fen_read` parses the six standard fields. On any error the board is
//! left untouched; on success the board satisfies the full well-formedness
//! invariant: the parser validates one king per side, and quietly drops a
//! castling right or en-passant square that the piece placement does not
//! back, so that every loaded position upholds what make/unmake rely on.

use vstd::prelude::*;
use vstd::string::StringExecFns;
use crate::bits::lemma_zero_iff_no_bits;
use crate::board::Board;
use crate::defs::{
    KING, QUEEN, ROOK, BISHOP, KNIGHT, PAWN, PNONE, WHITE, BLACK, Castling, A1, E1, H1, A8, E8,
    H8, FEN_START_POSITION,
};
use crate::model::{BoardModel, wf, wf_base, wf_gs, has, occ_side, lengths_ok};

verus! {

#[derive(Debug, Clone, Copy, PartialEq, Eq, Structural)]
pub enum FenError {
    Parts,
    PiecePlacement,
    Color,
    CastlingField,
    EnPassant,
    HalfmoveClock,
    FullmoveNumber,
}

/// The parsed piece placement: piece type and owning side per square, with
/// exactly one king per side recorded.
struct Placement {
    pl: Vec<usize>,
    side: Vec<usize>,
    wk_sq: usize,
    bk_sq: usize,
}

impl Placement {
    spec fn wf(self) -> bool {
        &&& self.pl@.len() == 64
        &&& self.side@.len() == 64
        &&& forall|k: int| 0 <= k < 64 ==> #[trigger] self.pl@[k] <= 6
        &&& forall|k: int| 0 <= k < 64 ==> (self.pl@[k] != PNONE ==> #[trigger] self.side@[k] < 2)
        &&& self.wk_sq < 64
        &&& self.bk_sq < 64
        &&& self.pl@[self.wk_sq as int] == KING
        &&& self.side@[self.wk_sq as int] == 0
        &&& self.pl@[self.bk_sq as int] == KING
        &&& self.side@[self.bk_sq as int] == 1
    }
}

/// Parse the piece-placement field.
fn parse_placement(bytes: &[u8], start: usize, end: usize) -> (res: Result<Placement, FenError>)
    requires
        start <= end <= bytes@.len(),
    ensures
        res is Ok ==> res->Ok_0.wf(),
{
    let mut pl: Vec<usize> = Vec::new();
    let mut side: Vec<usize> = Vec::new();
    for k in 0..64usize
        invariant
            pl@.len() == k,
            side@.len() == k,
            forall|j: int| 0 <= j < k ==> #[trigger] pl@[j] == PNONE,
            forall|j: int| 0 <= j < k ==> #[trigger] side@[j] == 2,
    {
        pl.push(PNONE);
        side.push(2);
    }
    let mut rank: usize = 7;
    let mut file: usize = 0;
    let mut wk_count: u32 = 0;
    let mut bk_count: u32 = 0;
    let mut wk_sq: usize = 0;
    let mut bk_sq: usize = 0;
    let mut i = start;
    while i < end
        invariant
            start <= i <= end <= bytes@.len(),
            rank <= 7,
            file <= 8,
            pl@.len() == 64,
            side@.len() == 64,
            forall|k: int| 0 <= k < 64 ==> #[trigger] pl@[k] <= 6,
            forall|k: int| 0 <= k < 64 ==> (pl@[k] != PNONE ==> #[trigger] side@[k] < 2),
            wk_count >= 1 ==> wk_sq < 64 && pl@[wk_sq as int] == KING && side@[wk_sq as int] == 0,
            bk_count >= 1 ==> bk_sq < 64 && pl@[bk_sq as int] == KING && side@[bk_sq as int] == 1,
        decreases end - i,
    {
        let c = bytes[i];
        if c == 47 {
            // '/': next rank down.
            if file != 8 || rank == 0 {
                return Err(FenError::PiecePlacement);
            }
            rank = rank - 1;
            file = 0;
        } else if 49 <= c && c <= 56 {
            // '1'..'8': skip empty squares.
            let skip = (c - 48) as usize;
            if file + skip > 8 {
                return Err(FenError::PiecePlacement);
            }
            file = file + skip;
        } else {
            if file >= 8 {
                return Err(FenError::PiecePlacement);
            }
            let piece: usize;
            let s: usize;
            match c {
                75 => {
                    piece = KING;
                    s = 0;
                },
                81 => {
                    piece = QUEEN;
                    s = 0;
                },
                82 => {
                    piece = ROOK;
                    s = 0;
                },
                66 => {
                    piece = BISHOP;
                    s = 0;
                },
                78 => {
                    piece = KNIGHT;
                    s = 0;
                },
                80 => {
                    piece = PAWN;
                    s = 0;
                },
                107 => {
                    piece = KING;
                    s = 1;
                },
                113 => {
                    piece = QUEEN;
                    s = 1;
                },
                114 => {
                    piece = ROOK;
                    s = 1;
                },
                98 => {
                    piece = BISHOP;
                    s = 1;
                },
                110 => {
                    piece = KNIGHT;
                    s = 1;
                },
                112 => {
                    piece = PAWN;
                    s = 1;
                },
                _ => {
                    return Err(FenError::PiecePlacement);
                },
            }
            let sq = rank * 8 + file;
            if pl[sq] != PNONE {
                return Err(FenError::PiecePlacement);
            }
            pl[sq] = piece;
            side[sq] = s;
            if piece == KING {
                if s == 0 {
                    if wk_count >= 1 {
                        return Err(FenError::PiecePlacement);
                    }
                    wk_count = wk_count + 1;
                    wk_sq = sq;
                } else {
                    if bk_count >= 1 {
                        return Err(FenError::PiecePlacement);
                    }
                    bk_count = bk_count + 1;
                    bk_sq = sq;
                }
            }
            file = file + 1;
        }
        i = i + 1;
    }
    if rank != 0 || file != 8 || wk_count != 1 || bk_count != 1 {
        return Err(FenError::PiecePlacement);
    }
    Ok(Placement { pl, side, wk_sq, bk_sq })
}

/// Parse an unsigned decimal number of at most `max` from a field.
fn parse_number(bytes: &[u8], start: usize, end: usize, max: u32) -> (res: Result<u32, ()>)
    requires
        start <= end <= bytes@.len(),
        9 <= max,
    ensures
        res is Ok ==> res->Ok_0 <= max,
{
    if start == end {
        return Err(());
    }
    let mut v: u32 = 0;
    let mut i = start;
    while i < end
        invariant
            start <= i <= end <= bytes@.len(),
            9 <= max,
            v <= max,
        decreases end - i,
    {
        let c = bytes[i];
        if c < 48 || c > 57 {
            return Err(());
        }
        let d = (c - 48) as u32;
        if v > (max - d) / 10 {
            return Err(());
        }
        v = v * 10 + d;
        i = i + 1;
    }
    Ok(v)
}

/// Read a FEN string into the board. On any parse error the board is left
/// exactly as it was; on success the position satisfies the full board
/// invariant and has an empty history.
#[verifier::rlimit(100)]
#[verifier::spinoff_prover]
pub fn fen_read(board: &mut Board, fen: &str) -> (res: Result<(), FenError>)
    requires
        lengths_ok(old(board)@),
    ensures
        res is Err ==> final(board)@ == old(board)@,
        res is Ok ==> wf(final(board)@),
        res is Ok ==> final(board)@.history.len() == 0,
        final(board)@.zpieces == old(board)@.zpieces,
        final(board)@.zcastling == old(board)@.zcastling,
        final(board)@.zsides == old(board)@.zsides,
        final(board)@.zep == old(board)@.zep,
{
    let bytes = fen.as_bytes();
    let n = bytes.len();
    // Split into whitespace-separated fields.
    let mut starts: Vec<usize> = Vec::new();
    let mut ends: Vec<usize> = Vec::new();
    let mut i: usize = 0;
    while i < n
        invariant
            i <= n,
            n == bytes@.len(),
            starts@.len() == ends@.len(),
            forall|k: int|
                0 <= k < starts@.len() ==> #[trigger] starts@[k] <= ends@[k] && ends@[k] <= n,
        decreases n - i,
    {
        if bytes[i] == 32 {
            i = i + 1;
        } else {
            let st = i;
            while i < n && bytes[i] != 32
                invariant
                    st <= i <= n,
                    n == bytes@.len(),
                decreases n - i,
            {
                i = i + 1;
            }
            starts.push(st);
            ends.push(i);
        }
    }
    if starts.len() != 6 {
        return Err(FenError::Parts);
    }

    // Field 1: piece placement.
    let placement = match parse_placement(bytes, starts[0], ends[0]) {
        Ok(p) => p,
        Err(e) => {
            return Err(e);
        },
    };

    // Field 2: side to move.
    let color: usize;
    if ends[1] - starts[1] != 1 {
        return Err(FenError::Color);
    }
    let cb = bytes[starts[1]];
    if cb == 119 {
        color = 0;
    } else if cb == 98 {
        color = 1;
    } else {
        return Err(FenError::Color);
    }

    // Field 3: castling permissions.
    let mut mask: u8 = 0;
    let s2 = starts[2];
    let e2 = ends[2];
    if e2 - s2 == 1 && bytes[s2] == 45 {
        // "-": no rights.
    } else {
        if e2 == s2 || e2 - s2 > 4 {
            return Err(FenError::CastlingField);
        }
        let mut j = s2;
        while j < e2
            invariant
                s2 <= j <= e2 <= bytes@.len(),
                mask < 16,
            decreases e2 - j,
        {
            let c = bytes[j];
            if c == 75 {
                mask = mask | Castling::WK;
            } else if c == 81 {
                mask = mask | Castling::WQ;
            } else if c == 107 {
                mask = mask | Castling::BK;
            } else if c == 113 {
                mask = mask | Castling::BQ;
            } else {
                return Err(FenError::CastlingField);
            }
            proof {
                lemma_mask_or_bits();
            }
            j = j + 1;
        }
    }
    // Drop any right that the piece placement does not back.
    let mut mask2 = mask;
    if !(placement.pl[E1] == KING && placement.side[E1] == 0) {
        mask2 = mask2 & !(Castling::WK | Castling::WQ);
    }
    if !(placement.pl[H1] == ROOK && placement.side[H1] == 0) {
        mask2 = mask2 & !Castling::WK;
    }
    if !(placement.pl[A1] == ROOK && placement.side[A1] == 0) {
        mask2 = mask2 & !Castling::WQ;
    }
    if !(placement.pl[E8] == KING && placement.side[E8] == 1) {
        mask2 = mask2 & !(Castling::BK | Castling::BQ);
    }
    if !(placement.pl[H8] == ROOK && placement.side[H8] == 1) {
        mask2 = mask2 & !Castling::BK;
    }
    if !(placement.pl[A8] == ROOK && placement.side[A8] == 1) {
        mask2 = mask2 & !Castling::BQ;
    }
    proof {
        lemma_mask_clear_bits();
    }

    // Field 4: en-passant square.
    let s3 = starts[3];
    let e3 = ends[3];
    let mut ep: Option<usize> = None;
    if e3 - s3 == 1 && bytes[s3] == 45 {
        // "-": none.
    } else {
        if e3 - s3 != 2 {
            return Err(FenError::EnPassant);
        }
        let fc = bytes[s3];
        let rc = bytes[s3 + 1];
        if fc < 97 || fc > 104 {
            return Err(FenError::EnPassant);
        }
        if rc != 51 && rc != 54 {
            return Err(FenError::EnPassant);
        }
        let f = (fc - 97) as usize;
        let r = (rc - 49) as usize;
        let e_sq = r * 8 + f;
        // Keep the square only when the placement backs it for the side
        // to move; otherwise drop it.
        if color == 0 && r == 5 {
            if placement.pl[e_sq] == PNONE && placement.pl[e_sq - 8] == PAWN && placement.side[e_sq
                - 8] == 1 {
                ep = Some(e_sq);
            }
        }
        if color == 1 && r == 2 {
            if placement.pl[e_sq] == PNONE && placement.pl[e_sq + 8] == PAWN && placement.side[e_sq
                + 8] == 0 {
                ep = Some(e_sq);
            }
        }
    }

    // Fields 5 and 6: the clocks.
    let halfmove = match parse_number(bytes, starts[4], ends[4], 255) {
        Ok(v) => v as u8,
        Err(_) => {
            return Err(FenError::HalfmoveClock);
        },
    };
    let fullmove = match parse_number(bytes, starts[5], ends[5], 0xFFFF) {
        Ok(v) => v as u16,
        Err(_) => {
            return Err(FenError::FullmoveNumber);
        },
    };

    // Commit: rebuild the board through the verified primitives.
    board.reset();
    let mut sq: usize = 0;
    while sq < 64
        invariant
            sq <= 64,
            placement.wf(),
            wf_base(board@),
            board@.game_state.active_color == 0,
            board@.game_state.castling == 0,
            board@.game_state.en_passant is None,
            board@.game_state.halfmove_clock == 0,
            board@.game_state.fullmove_number == 0,
            board@.history.len() == 0,
            board@.zpieces == old(board)@.zpieces,
            board@.zcastling == old(board)@.zcastling,
            board@.zsides == old(board)@.zsides,
            board@.zep == old(board)@.zep,
            forall|k: int| sq <= k < 64 ==> #[trigger] board@.piece_list[k] == PNONE,
            forall|k: int|
                0 <= k < sq && placement.pl@[k] != PNONE ==> has(
                    board@,
                    placement.side@[k] as int,
                    placement.pl@[k] as int,
                    k,
                ),
            forall|k: int|
                0 <= k < sq && placement.pl@[k] == PNONE ==> #[trigger] board@.piece_list[k]
                    == PNONE,
        decreases 64 - sq,
    {
        let ghost before = board@;
        let p = placement.pl[sq];
        if p != PNONE {
            let s = placement.side[sq];
            board.put_piece(s, p, sq);
            proof {
                crate::boardproofs::lemma_spec_put_wf(before, s as int, p as int, sq as int);
                assert(has(board@, s as int, p as int, sq as int));
                assert forall|k: int|
                    0 <= k < sq && placement.pl@[k] != PNONE implies has(
                    board@,
                    placement.side@[k] as int,
                    placement.pl@[k] as int,
                    k,
                ) by {
                    crate::boardproofs::lemma_placement_other(before, s as int, p as int,
                        sq as int, placement.side@[k] as int, placement.pl@[k] as int, k);
                }
            }
        }
        sq = sq + 1;
    }
    let ghost placed = board@;
    proof {
        assert(has(placed, 0, KING as int, placement.wk_sq as int));
        assert(has(placed, 1, KING as int, placement.bk_sq as int));
        assert(placement.pl@[4] == KING && placement.side@[4] == 0 ==> has(
            placed,
            0,
            KING as int,
            4,
        ));
        assert(placement.pl@[7] == ROOK && placement.side@[7] == 0 ==> has(
            placed,
            0,
            ROOK as int,
            7,
        ));
        assert(placement.pl@[0] == ROOK && placement.side@[0] == 0 ==> has(
            placed,
            0,
            ROOK as int,
            0,
        ));
        assert(placement.pl@[60] == KING && placement.side@[60] == 1 ==> has(
            placed,
            1,
            KING as int,
            60,
        ));
        assert(placement.pl@[63] == ROOK && placement.side@[63] == 1 ==> has(
            placed,
            1,
            ROOK as int,
            63,
        ));
        assert(placement.pl@[56] == ROOK && placement.side@[56] == 1 ==> has(
            placed,
            1,
            ROOK as int,
            56,
        ));
        assert(forall|k: int|
            0 <= k < 64 && placement.pl@[k] != PNONE ==> has(
                placed,
                placement.side@[k] as int,
                #[trigger] placement.pl@[k] as int,
                k,
            ));
    }
    board.update_castling_permissions(mask2);
    if color == 1 {
        board.swap_side();
    }
    match ep {
        Some(e_sq) => {
            board.set_ep_square(e_sq);
        },
        None => {},
    }
    let ghost pre_scalars = board@;
    board.game_state.halfmove_clock = halfmove;
    board.game_state.fullmove_number = fullmove;
    proof {
        crate::board::lemma_same_but_scalars(pre_scalars, board@);
        lemma_mask_clear_bits();
        let fin = board@;
        assert(fin.bb_side == placed.bb_side);
        assert(forall|s2: int, p2: int, k: int| has(fin, s2, p2, k) == has(placed, s2, p2, k));
        assert(fin.game_state.castling == mask2);
        assert(has(fin, 0, KING as int, placement.wk_sq as int));
        assert(has(fin, 1, KING as int, placement.bk_sq as int));
        lemma_zero_iff_no_bits(fin.bb_side[KING as int]);
        lemma_zero_iff_no_bits(fin.bb_side[6 + KING as int]);
        assert(fin.bb_side[KING as int] != 0);
        assert(fin.bb_side[6 + KING as int] != 0);
        assert(mask2 & Castling::WK != 0 ==> has(fin, 0, KING as int, 4) && has(
            fin,
            0,
            ROOK as int,
            7,
        ));
        assert(mask2 & Castling::WQ != 0 ==> has(fin, 0, KING as int, 4) && has(
            fin,
            0,
            ROOK as int,
            0,
        ));
        assert(mask2 & Castling::BK != 0 ==> has(fin, 1, KING as int, 60) && has(
            fin,
            1,
            ROOK as int,
            63,
        ));
        assert(mask2 & Castling::BQ != 0 ==> has(fin, 1, KING as int, 60) && has(
            fin,
            1,
            ROOK as int,
            56,
        ));
        assert(wf_gs(fin));
    }
    Ok(())
}

/// Or-ing a castling letter into a mask below 16 stays below 16.
proof fn lemma_mask_or_bits()
    by (bit_vector)
    ensures
        forall|m: u8| m < 16 ==> #[trigger] (m | 1u8) < 16,
        forall|m: u8| m < 16 ==> #[trigger] (m | 2u8) < 16,
        forall|m: u8| m < 16 ==> #[trigger] (m | 4u8) < 16,
        forall|m: u8| m < 16 ==> #[trigger] (m | 8u8) < 16,
{
}

/// Facts about clearing castling bits during validation.
proof fn lemma_mask_clear_bits()
    by (bit_vector)
    ensures
        forall|a: u8, b: u8| a < 16 ==> #[trigger] (a & !b) < 16,
        forall|c: u8| #[trigger] (c & c) == c,
        forall|a: u8, b: u8, c: u8| (b & c) == c ==> (#[trigger] ((a & !b) & c)) == 0,
        forall|a: u8, b: u8, c: u8| (a & c) == 0 ==> (#[trigger] ((a & !b) & c)) == 0,
        forall|a: u8, b: u8, c: u8| (#[trigger] ((a & !b) & c)) != 0 ==> (a & c) != 0,
        (1u8 | 2u8) == 3u8,
        (4u8 | 8u8) == 12u8,
        (3u8 & 1u8) == 1u8,
        (3u8 & 2u8) == 2u8,
        (12u8 & 4u8) == 4u8,
        (12u8 & 8u8) == 8u8,
{
}


/// The board letter of a piece, by owning side.
fn piece_letter(piece: usize, side: usize) -> &'static str {
    if side == 0 {
        match piece {
            0 => "K",
            1 => "Q",
            2 => "R",
            3 => "B",
            4 => "N",
            _ => "P",
        }
    } else {
        match piece {
            0 => "k",
            1 => "q",
            2 => "r",
            3 => "b",
            4 => "n",
            _ => "p",
        }
    }
}

/// A single decimal digit as text.
fn digit_str(d: usize) -> &'static str {
    match d {
        0 => "0",
        1 => "1",
        2 => "2",
        3 => "3",
        4 => "4",
        5 => "5",
        6 => "6",
        7 => "7",
        8 => "8",
        _ => "9",
    }
}

/// Append an unsigned number in decimal.
fn append_number(out: &mut String, v: u32) {
    let mut digits: Vec<usize> = Vec::new();
    let mut x = v;
    if x == 0 {
        out.append("0");
        return;
    }
    while x > 0
        invariant
            digits@.len() <= 10,
        decreases x,
    {
        if digits.len() < 10 {
            digits.push((x % 10) as usize);
        }
        x = x / 10;
    }
    let mut i = digits.len();
    while i > 0
        invariant
            i <= digits@.len(),
        decreases i,
    {
        i = i - 1;
        out.append(digit_str(digits[i]));
    }
}

impl Board {
    /// Write the position as a six-field FEN string: reading it back
    /// yields this position again, which the tests exercise on a corpus.
    pub fn fen_string(&self) -> String
        requires
            lengths_ok(self@),
            self@.game_state.en_passant is Some ==> self@.game_state.en_passant->0 < 64,
    {
        let mut out = String::new();
        // Field 1: piece placement, rank 8 down to rank 1.
        let mut r: usize = 8;
        while r > 0
            invariant
                r <= 8,
                lengths_ok(self@),
            decreases r,
        {
            r = r - 1;
            let mut empties: usize = 0;
            let mut f: usize = 0;
            while f < 8
                invariant
                    f <= 8,
                    r < 8,
                    empties <= f,
                    lengths_ok(self@),
                decreases 8 - f,
            {
                let sq = r * 8 + f;
                let p = self.piece_list[sq];
                if p == PNONE {
                    empties = empties + 1;
                } else {
                    if empties > 0 {
                        out.append(digit_str(empties));
                        empties = 0;
                    }
                    let side: usize = if (self.bb_pieces[0] >> (sq as u64)) & 1u64 == 1u64 {
                        0
                    } else {
                        1
                    };
                    out.append(piece_letter(p, side));
                }
                f = f + 1;
            }
            if empties > 0 {
                out.append(digit_str(empties));
            }
            if r > 0 {
                out.append("/");
            }
        }
        // Field 2: side to move.
        if self.game_state.active_color == 0 {
            out.append(" w ");
        } else {
            out.append(" b ");
        }
        // Field 3: castling permissions.
        let c = self.game_state.castling;
        if c == 0 {
            out.append("-");
        } else {
            if c & Castling::WK != 0 {
                out.append("K");
            }
            if c & Castling::WQ != 0 {
                out.append("Q");
            }
            if c & Castling::BK != 0 {
                out.append("k");
            }
            if c & Castling::BQ != 0 {
                out.append("q");
            }
        }
        out.append(" ");
        // Field 4: en-passant square.
        match self.game_state.en_passant {
            Some(e) => {
                let e_sq = e as usize;
                let file = e_sq % 8;
                let rank = e_sq / 8;
                let file_name = match file {
                    0 => "a",
                    1 => "b",
                    2 => "c",
                    3 => "d",
                    4 => "e",
                    5 => "f",
                    6 => "g",
                    _ => "h",
                };
                out.append(file_name);
                out.append(digit_str(rank + 1));
            },
            None => {
                out.append("-");
            },
        }
        out.append(" ");
        // Fields 5 and 6: the clocks.
        append_number(&mut out, self.game_state.halfmove_clock as u32);
        out.append(" ");
        append_number(&mut out, self.game_state.fullmove_number as u32);
        out
    }
}


} // verus!
