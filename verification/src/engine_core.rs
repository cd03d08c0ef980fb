//! Engine logic between the protocols and the search: building the legal
//! move list, matching an incoming move against it, setting up a position
//! from a FEN string and a move sequence, and parsing UCI commands.

use vstd::prelude::*;
use crate::board::{Board, king_square_spec};
use crate::defs::{PNONE, QUEEN, ROOK, BISHOP, KNIGHT, FEN_START_POSITION};
use crate::engine_defs::{GameTime, SearchMode, SearchParams, UciReport};
use crate::fen::{fen_read, FenError};
use crate::makemove::{make_move, unmake_move, pushed, spec_placements};
use crate::model::{BoardModel, wf, move_ok, lengths_ok};
use crate::movedefs::{Move, MoveList};
use crate::movegen::{MoveGenerator, MoveType, attacked_spec, gen_ok};
use vstd::string::StrSliceExecFns;

verus! {

/// A move is legal for a position when it is pseudo-legal and, once
/// applied, leaves the mover's king unattacked.
pub open spec fn is_legal_spec(b: BoardModel, m: Move) -> bool {
    let us = b.game_state.active_color as int;
    &&& move_ok(b, m)
    &&& !attacked_spec(
        spec_placements(pushed(b), m, us),
        1 - us,
        king_square_spec(spec_placements(pushed(b), m, us), us),
    )
}

#[derive(Debug, Clone, Copy, PartialEq, Eq, Structural)]
pub enum SetupError {
    Fen(FenError),
    BadMoveString,
    IllegalMove,
}

/// Collect the legal moves of the side to move. The board is used as
/// scratch space and comes back exactly as it was.
pub fn create_legal_move_list(board: &mut Board, mg: &MoveGenerator) -> (legal: MoveList)
    requires
        wf(old(board)@),
        mg.wf(),
    ensures
        final(board)@ == old(board)@,
        forall|i: int| 0 <= i < legal@.len() ==> is_legal_spec(old(board)@, #[trigger] legal@[i]),
{
    let ghost pre = board@;
    let mut ml = MoveList::new();
    mg.generate_moves(board, &mut ml, MoveType::All);
    let mut legal = MoveList::new();
    let n = ml.len();
    let mut i: usize = 0;
    while i < n
        invariant
            pre == old(board)@,
            wf(pre),
            mg.wf(),
            board@ == pre,
            n == ml@.len(),
            i <= n,
            forall|k: int| 0 <= k < n ==> gen_ok(pre, MoveType::All, #[trigger] ml@[k]),
            forall|k: int| 0 <= k < legal@.len() ==> is_legal_spec(pre, #[trigger] legal@[k]),
        decreases n - i,
    {
        let m = ml.get_move(i);
        proof {
            assert(gen_ok(pre, MoveType::All, ml@[i as int]));
        }
        if make_move(board, m, mg) {
            unmake_move(board);
            proof {
                assert(board@ == pre);
            }
            legal.push(m);
        }
        i = i + 1;
    }
    legal
}

/// Find the legal move matching an origin, destination and promotion, if
/// there is one.
pub fn is_legal_move(legal_moves: &MoveList, from: usize, to: usize, promoted: usize) -> (r: Option<
    Move,
>)
    ensures
        match r {
            Some(m) => exists|i: int|
                0 <= i < legal_moves@.len() && #[trigger] legal_moves@[i] == m && m.from_s() == from
                    && m.to_s() == to && m.promoted_s() == promoted,
            None => forall|i: int|
                0 <= i < legal_moves@.len() ==> !(#[trigger] legal_moves@[i].from_s() == from
                    && legal_moves@[i].to_s() == to && legal_moves@[i].promoted_s() == promoted),
        },
{
    let n = legal_moves.len();
    let mut i: usize = 0;
    while i < n
        invariant
            n == legal_moves@.len(),
            i <= n,
            forall|k: int|
                0 <= k < i ==> !(#[trigger] legal_moves@[k].from_s() == from
                    && legal_moves@[k].to_s() == to && legal_moves@[k].promoted_s() == promoted),
        decreases n - i,
    {
        let m = legal_moves.get_move(i);
        if m.from() == from && m.to() == to && m.promoted() == promoted {
            return Some(m);
        }
        i = i + 1;
    }
    None
}

/// Parse a long-algebraic move string such as `e2e4` or `e7e8q` into its
/// origin square, destination square and promotion piece.
pub fn parse_algebraic_move(s: &[u8]) -> (r: Option<(usize, usize, usize)>)
    ensures
        match r {
            Some(t) => t.0 < 64 && t.1 < 64 && (t.2 < 6 || t.2 == PNONE),
            None => true,
        },
{
    let n = s.len();
    if n != 4 && n != 5 {
        return None;
    }
    let ff = s[0];
    let fr = s[1];
    let tf = s[2];
    let tr = s[3];
    if ff < 97 || ff > 104 || tf < 97 || tf > 104 || fr < 49 || fr > 56 || tr < 49 || tr > 56 {
        return None;
    }
    let from = ((fr - 49) as usize) * 8 + ((ff - 97) as usize);
    let to = ((tr - 49) as usize) * 8 + ((tf - 97) as usize);
    let promoted: usize;
    if n == 5 {
        match s[4] {
            113 => {
                promoted = QUEEN;
            },
            114 => {
                promoted = ROOK;
            },
            98 => {
                promoted = BISHOP;
            },
            110 => {
                promoted = KNIGHT;
            },
            _ => {
                return None;
            },
        }
    } else {
        promoted = PNONE;
    }
    Some((from, to, promoted))
}

/// The setup failed already at the FEN stage.
pub open spec fn is_fen_error(r: Result<(), SetupError>) -> bool {
    r matches Err(SetupError::Fen(_))
}

/// Set up a position from a FEN string and a sequence of long-algebraic
/// moves, applying each move only if it is legal. A bad FEN leaves the
/// board untouched; a bad or illegal move stops the sequence with the
/// prefix applied. Any non-error outcome is a well-formed position.
pub fn setup_position(board: &mut Board, mg: &MoveGenerator, fen: &str, moves: &Vec<String>) -> (r:
    Result<(), SetupError>)
    requires
        lengths_ok(old(board)@),
        mg.wf(),
    ensures
        is_fen_error(r) ==> final(board)@ == old(board)@,
        !is_fen_error(r) ==> wf(final(board)@),
{
    match fen_read(board, fen) {
        Ok(()) => {},
        Err(e) => {
            return Err(SetupError::Fen(e));
        },
    }
    let n = moves.len();
    let mut i: usize = 0;
    while i < n
        invariant
            wf(board@),
            mg.wf(),
            n == moves@.len(),
            i <= n,
        decreases n - i,
    {
        let triple = match parse_algebraic_move(moves[i].as_str().as_bytes()) {
            Some(t) => t,
            None => {
                return Err(SetupError::BadMoveString);
            },
        };
        let legal = create_legal_move_list(board, mg);
        let m = match is_legal_move(&legal, triple.0, triple.1, triple.2) {
            Some(m) => m,
            None => {
                return Err(SetupError::IllegalMove);
            },
        };
        proof {
            let k = choose|k: int|
                0 <= k < legal@.len() && legal@[k] == m && m.from_s() == triple.0 && m.to_s()
                    == triple.1 && m.promoted_s() == triple.2;
            assert(is_legal_spec(board@, legal@[k]));
        }
        let ok = make_move(board, m, mg);
        if !ok {
            return Err(SetupError::IllegalMove);
        }
        i = i + 1;
    }
    Ok(())
}

/// Parse one UCI input line into a report. The fixed commands are matched
/// exactly; `position` and `go` carry their arguments along.
pub fn parse_uci_command(line: &str) -> (r: UciReport) {
    if !line.is_ascii() {
        return UciReport::Unknown;
    }
    let bytes = line.as_bytes();
    let n = bytes.len();
    // Tokenize on spaces.
    let mut starts: Vec<usize> = Vec::new();
    let mut ends: Vec<usize> = Vec::new();
    let mut i: usize = 0;
    while i < n
        invariant
            i <= n,
            n == bytes@.len(),
            starts@.len() == ends@.len(),
            forall|k: int|
                0 <= k < starts@.len() ==> #[trigger] starts@[k] <= ends@[k] && ends@[k] <= n,
            forall|k1: int, k2: int|
                0 <= k1 < k2 < starts@.len() ==> #[trigger] ends@[k1] <= #[trigger] starts@[k2],
            ends@.len() > 0 ==> ends@[ends@.len() - 1] <= i,
        decreases n - i,
    {
        if bytes[i] == 32 || bytes[i] == 13 || bytes[i] == 10 || bytes[i] == 9 {
            i = i + 1;
        } else {
            let st = i;
            i = i + 1;
            while i < n && bytes[i] != 32 && bytes[i] != 13 && bytes[i] != 10 && bytes[i] != 9
                invariant
                    st < i,
                    i <= n,
                    n == bytes@.len(),
                decreases n - i,
            {
                i = i + 1;
            }
            proof {
                assert forall|k1: int| 0 <= k1 < starts@.len() implies ends@[k1] <= st by {
                    let last = starts@.len() - 1;
                    if k1 < last {
                        assert(ends@[k1] <= starts@[last]);
                        assert(starts@[last] <= ends@[last]);
                    }
                }
            }
            starts.push(st);
            ends.push(i);
        }
    }
    let ntok = starts.len();
    if ntok == 0 {
        return UciReport::Unknown;
    }
    let t0 = line.substring_ascii(starts[0], ends[0]);
    if str_eq(t0, "uci") {
        return UciReport::Uci;
    }
    if str_eq(t0, "isready") {
        return UciReport::IsReady;
    }
    if str_eq(t0, "ucinewgame") {
        return UciReport::UciNewGame;
    }
    if str_eq(t0, "stop") {
        return UciReport::Stop;
    }
    if str_eq(t0, "quit") {
        return UciReport::Quit;
    }
    if str_eq(t0, "board") {
        return UciReport::Board;
    }
    if str_eq(t0, "eval") {
        return UciReport::Eval;
    }
    if str_eq(t0, "help") {
        return UciReport::Help;
    }
    if str_eq(t0, "position") {
        if ntok < 2 {
            return UciReport::Unknown;
        }
        let t1 = line.substring_ascii(starts[1], ends[1]);
        let fen_string: String;
        let mut next: usize = 2;
        if str_eq(t1, "startpos") {
            fen_string = FEN_START_POSITION.to_owned();
        } else if str_eq(t1, "fen") && ntok >= 8 {
            // The six FEN fields follow as one span.
            proof {
                assert(starts@[2] <= ends@[2] && ends@[2] <= starts@[3]);
                assert(starts@[3] <= ends@[3] && ends@[3] <= starts@[4]);
                assert(starts@[4] <= ends@[4] && ends@[4] <= starts@[5]);
                assert(starts@[5] <= ends@[5] && ends@[5] <= starts@[6]);
                assert(starts@[6] <= ends@[6] && ends@[6] <= starts@[7]);
                assert(starts@[2] <= ends@[7]);
            }
            fen_string = line.substring_ascii(starts[2], ends[7]).to_owned();
            next = 8;
        } else {
            return UciReport::Unknown;
        }
        let mut move_strings: Vec<String> = Vec::new();
        if next < ntok {
            let tm = line.substring_ascii(starts[next], ends[next]);
            if str_eq(tm, "moves") {
                let mut k = next + 1;
                while k < ntok
                    invariant
                        k <= ntok,
                        ntok == starts@.len(),
                        starts@.len() == ends@.len(),
                        n == line@.len(),
                        line.is_ascii(),
                        forall|j: int|
                            0 <= j < starts@.len() ==> #[trigger] starts@[j] <= ends@[j]
                                && ends@[j] <= n,
                    decreases ntok - k,
                {
                    let ms = line.substring_ascii(starts[k], ends[k]);
                    move_strings.push(ms.to_owned());
                    k = k + 1;
                }
            }
        }
        return UciReport::Position(fen_string, move_strings);
    }
    if str_eq(t0, "go") {
        if ntok == 1 {
            return UciReport::GoInfinite;
        }
        let mut sp_mode = SearchMode::Infinite;
        let mut depth: u8 = 0;
        let mut move_time: u128 = 0;
        let mut nodes: usize = 0;
        let mut gt = GameTime::new();
        let mut saw_clock = false;
        let mut k: usize = 1;
        while k < ntok
            invariant
                k <= ntok,
                ntok == starts@.len(),
                starts@.len() == ends@.len(),
                n == line@.len(),
                line.is_ascii(),
                forall|j: int|
                    0 <= j < starts@.len() ==> #[trigger] starts@[j] <= ends@[j] && ends@[j] <= n,
            decreases ntok - k,
        {
            let w = line.substring_ascii(starts[k], ends[k]);
            let has_arg = k + 1 < ntok;
            if str_eq(w, "infinite") {
                sp_mode = SearchMode::Infinite;
            } else if has_arg {
                let arg = line.substring_ascii(starts[k + 1], ends[k + 1]);
                if str_eq(w, "depth") {
                    match parse_u128(arg.as_bytes()) {
                        Some(v) => {
                            depth = if v > 255 {
                                255
                            } else {
                                v as u8
                            };
                            sp_mode = SearchMode::Depth;
                        },
                        None => {
                            return UciReport::Unknown;
                        },
                    }
                    k = k + 1;
                } else if str_eq(w, "movetime") {
                    match parse_u128(arg.as_bytes()) {
                        Some(v) => {
                            move_time = v;
                            sp_mode = SearchMode::MoveTime;
                        },
                        None => {
                            return UciReport::Unknown;
                        },
                    }
                    k = k + 1;
                } else if str_eq(w, "nodes") {
                    match parse_u128(arg.as_bytes()) {
                        Some(v) => {
                            nodes = if v > usize::MAX as u128 {
                                usize::MAX
                            } else {
                                v as usize
                            };
                            sp_mode = SearchMode::Nodes;
                        },
                        None => {
                            return UciReport::Unknown;
                        },
                    }
                    k = k + 1;
                } else if str_eq(w, "wtime") {
                    match parse_u128(arg.as_bytes()) {
                        Some(v) => {
                            gt.wtime = v;
                            saw_clock = true;
                        },
                        None => {
                            return UciReport::Unknown;
                        },
                    }
                    k = k + 1;
                } else if str_eq(w, "btime") {
                    match parse_u128(arg.as_bytes()) {
                        Some(v) => {
                            gt.btime = v;
                            saw_clock = true;
                        },
                        None => {
                            return UciReport::Unknown;
                        },
                    }
                    k = k + 1;
                } else if str_eq(w, "winc") {
                    match parse_u128(arg.as_bytes()) {
                        Some(v) => {
                            gt.winc = v;
                        },
                        None => {
                            return UciReport::Unknown;
                        },
                    }
                    k = k + 1;
                } else if str_eq(w, "binc") {
                    match parse_u128(arg.as_bytes()) {
                        Some(v) => {
                            gt.binc = v;
                        },
                        None => {
                            return UciReport::Unknown;
                        },
                    }
                    k = k + 1;
                } else if str_eq(w, "movestogo") {
                    match parse_u128(arg.as_bytes()) {
                        Some(v) => {
                            gt.moves_to_go = Some(
                                if v > 0xFFFF {
                                    0xFFFF
                                } else {
                                    v as u16
                                },
                            );
                            saw_clock = true;
                        },
                        None => {
                            return UciReport::Unknown;
                        },
                    }
                    k = k + 1;
                }
            }
            k = k + 1;
        }
        if saw_clock {
            return UciReport::GoGameTime(gt);
        }
        match sp_mode {
            SearchMode::Depth => {
                return UciReport::GoDepth(depth);
            },
            SearchMode::MoveTime => {
                return UciReport::GoMoveTime(move_time);
            },
            SearchMode::Nodes => {
                return UciReport::GoNodes(nodes);
            },
            _ => {
                return UciReport::GoInfinite;
            },
        }
    }
    UciReport::Unknown
}

/// Byte-for-byte equality of two ASCII strings.
fn str_eq(a: &str, b: &str) -> bool {
    let ab = a.as_bytes();
    let bb = b.as_bytes();
    let n = ab.len();
    if n != bb.len() {
        return false;
    }
    let mut i: usize = 0;
    while i < n
        invariant
            n == ab@.len() == bb@.len(),
            i <= n,
        decreases n - i,
    {
        if ab[i] != bb[i] {
            return false;
        }
        i = i + 1;
    }
    true
}

/// Parse an unsigned decimal number.
fn parse_u128(s: &[u8]) -> (r: Option<u128>) {
    let n = s.len();
    if n == 0 || n > 30 {
        return None;
    }
    let mut v: u128 = 0;
    let mut i: usize = 0;
    while i < n
        invariant
            i <= n <= 30,
            n == s@.len(),
            v < 0x1_0000_0000_0000_0000_0000_0000_0000,
        decreases n - i,
    {
        let c = s[i];
        if c < 48 || c > 57 {
            return None;
        }
        if v >= 0x1000_0000_0000_0000_0000_0000_0000 {
            return None;
        }
        v = v * 10 + ((c - 48) as u128);
        i = i + 1;
    }
    Some(v)
}

} // verus!
