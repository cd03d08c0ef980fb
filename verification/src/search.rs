//! Draw detection and search bookkeeping.

use vstd::prelude::*;
use crate::bits::{count_bits, pop64};
use crate::board::Board;
use crate::defs::{
    KING, QUEEN, ROOK, BISHOP, KNIGHT, PAWN, PNONE, MAX_MOVE_RULE, MAX_DEPTH,
};
use crate::engine_defs::{
    SearchControl, SearchMode, SearchParams, SearchTerminate, SearchReport, SearchSummary,
    SearchCurrentMove, SearchStats, Information, GameTime, CHECKMATE, INF, DRAW, STALEMATE,
    OVERHEAD,
};
use crate::gamestate::GameState;
use crate::makemove::{make_move, unmake_move, is_capture_move};
use crate::model::{BoardModel, wf, wf_base, lengths_ok, move_ok, piece_count};
use crate::movedefs::{Move, MoveList};
use crate::movegen::{MoveGenerator, MoveType, gen_ok, ml_extended};
use crate::shell::{elapsed_millis, try_recv_control, send_information};
use crate::boardproofs::lemma_count_sum_bounds;

verus! {

pub struct Search;

/// Number of positions in the history, back to the last irreversible move,
/// whose hash key equals the current one.
pub open spec fn repetition_count(hist: Seq<GameState>, key: u64, n: int) -> int
    decreases n,
{
    if n <= 0 {
        0
    } else {
        let c = if hist[n - 1].zobrist_key == key {
            1int
        } else {
            0int
        };
        if hist[n - 1].halfmove_clock == 0 {
            c
        } else {
            repetition_count(hist, key, n - 1) + c
        }
    }
}

/// Neither side can force mate: no pawns, no major pieces, no bishop pair,
/// and no bishop-knight pair. Bishop square colors are deliberately not
/// inspected.
pub open spec fn insufficient_material_spec(m: crate::model::BoardModel) -> bool {
    &&& pop64(m.bb_side[PAWN as int]) == 0
    &&& pop64(m.bb_side[6 + PAWN]) == 0
    &&& pop64(m.bb_side[QUEEN as int]) == 0
    &&& pop64(m.bb_side[6 + QUEEN]) == 0
    &&& pop64(m.bb_side[ROOK as int]) == 0
    &&& pop64(m.bb_side[6 + ROOK]) == 0
    &&& pop64(m.bb_side[BISHOP as int]) <= 1
    &&& pop64(m.bb_side[6 + BISHOP]) <= 1
    &&& !(pop64(m.bb_side[BISHOP as int]) > 0 && pop64(m.bb_side[KNIGHT as int]) > 0)
    &&& !(pop64(m.bb_side[6 + BISHOP]) > 0 && pop64(m.bb_side[6 + KNIGHT]) > 0)
}

/// The repetition count lies between zero and the number of scanned
/// snapshots.
pub proof fn lemma_repetition_count_bounds(hist: Seq<GameState>, key: u64, n: int)
    ensures
        0 <= repetition_count(hist, key, n) <= (if n >= 0 {
            n
        } else {
            0
        }),
    decreases (if n >= 0 {
        n
    } else {
        0
    }),
{
    if n > 0 {
        lemma_repetition_count_bounds(hist, key, n - 1);
    }
}

impl Search {
    /// Nodes per second from a node count and elapsed milliseconds,
    /// rounded to the nearest integer.
    pub fn nodes_per_second(nodes: usize, msecs: u128) -> (nps: usize)
        ensures
            msecs == 0 ==> nps == 0,
            msecs > 0 ==> ({
                let q = ((nodes as int) * 1000 + (msecs as int) / 2) / (msecs as int);
                nps == q || (q > usize::MAX && nps == usize::MAX)
            }),
    {
        if msecs == 0 {
            0
        } else {
            let scaled: u128 = (nodes as u128) * 1000 + msecs / 2;
            let q = scaled / msecs;
            if q > usize::MAX as u128 {
                usize::MAX
            } else {
                q as usize
            }
        }
    }

    /// Count the positions since the last irreversible move that repeat
    /// the current hash key, capped at 255. One repetition already counts
    /// as a draw at a search node: the deliberate pruning shortcut.
    pub fn is_repetition(board: &Board) -> (r: u8)
        ensures
            ({
                let c = repetition_count(
                    board@.history,
                    board@.game_state.zobrist_key,
                    board@.history.len() as int,
                );
                r == if c > 255 {
                    255int
                } else {
                    c
                }
            }),
    {
        proof {
            lemma_repetition_count_bounds(
                board@.history,
                board@.game_state.zobrist_key,
                board@.history.len() as int,
            );
        }
        let key = board.game_state.zobrist_key;
        let mut count: usize = 0;
        let hist_len = board.history.len();
        let mut i = hist_len;
        let mut stopped = false;
        while i > 0 && !stopped
            invariant
                hist_len == board@.history.len(),
                i <= board@.history.len(),
                key == board@.game_state.zobrist_key,
                !stopped ==> count + repetition_count(board@.history, key, i as int)
                    == repetition_count(
                    board@.history,
                    key,
                    board@.history.len() as int,
                ),
                stopped ==> count == repetition_count(
                    board@.history,
                    key,
                    board@.history.len() as int,
                ),
                count <= board@.history.len(),
            decreases i,
        {
            i = i - 1;
            let h = &board.history[i];
            proof {
                let hist = board@.history;
                let c: int = if hist[i as int].zobrist_key == key {
                    1int
                } else {
                    0int
                };
                lemma_repetition_count_bounds(hist, key, i as int);
                assert(repetition_count(hist, key, i + 1) == (if hist[i as int].halfmove_clock
                    == 0 {
                    c
                } else {
                    repetition_count(hist, key, i as int) + c
                }));
                lemma_repetition_count_bounds(hist, key, board@.history.len() as int);
            }
            if h.zobrist_key == key {
                proof {
                    assert(repetition_count(board@.history, key, i + 1) >= 1);
                    assert(count < hist_len);
                }
                count = count + 1;
            }
            if h.halfmove_clock == 0 {
                stopped = true;
            }
        }
        if count > 255 {
            255
        } else {
            count as u8
        }
    }

    /// The simplistic insufficient-material rule of the draw detection.
    pub fn is_insufficient_material(board: &Board) -> (r: bool)
        requires
            lengths_ok(board@),
        ensures
            r == insufficient_material_spec(board@),
    {
        let w_p = count_bits(board.get_pieces(PAWN, 0));
        let b_p = count_bits(board.get_pieces(PAWN, 1));
        let w_q = count_bits(board.get_pieces(QUEEN, 0));
        let b_q = count_bits(board.get_pieces(QUEEN, 1));
        let w_r = count_bits(board.get_pieces(ROOK, 0));
        let b_r = count_bits(board.get_pieces(ROOK, 1));
        let w_b = count_bits(board.get_pieces(BISHOP, 0));
        let b_b = count_bits(board.get_pieces(BISHOP, 1));
        let w_n = count_bits(board.get_pieces(KNIGHT, 0));
        let b_n = count_bits(board.get_pieces(KNIGHT, 1));
        w_p == 0 && b_p == 0 && w_q == 0 && b_q == 0 && w_r == 0 && b_r == 0 && w_b <= 1 && b_b
            <= 1 && !(w_b > 0 && w_n > 0) && !(b_b > 0 && b_n > 0)
    }

    /// Draw by the fifty-move rule, by repetition along the current line,
    /// or by insufficient material.
    pub fn is_draw(board: &Board) -> (r: bool)
        requires
            lengths_ok(board@),
        ensures
            r == (board@.game_state.halfmove_clock >= MAX_MOVE_RULE
                || insufficient_material_spec(board@) || repetition_count(
                board@.history,
                board@.game_state.zobrist_key,
                board@.history.len() as int,
            ) > 0),
    {
        let max_move_rule = board.game_state.halfmove_clock >= MAX_MOVE_RULE;
        max_move_rule || Search::is_insufficient_material(board) || Search::is_repetition(board)
            > 0
    }
}


/// Static evaluation: the material difference from the side to move's
/// view, kept within a bound well below the mate scores.
pub open spec fn eval_spec(m: BoardModel) -> int {
    let us = m.game_state.active_color as int;
    let d = m.material[us] - m.material[1 - us];
    if d > 20000 {
        20000
    } else if d < -20000 {
        -20000
    } else {
        d
    }
}

/// Evaluate the position for the side to move, in centipawns.
pub fn evaluate_position(board: &Board) -> (score: i16)
    requires
        wf_base(board@),
    ensures
        score == eval_spec(board@),
        -20000 <= score <= 20000,
{
    let us = board.us();
    let opp = board.opponent();
    let d: i32 = (board.material_count[us] as i32) - (board.material_count[opp] as i32);
    if d > 20000 {
        20000
    } else if d < -20000 {
        -20000
    } else {
        d as i16
    }
}

/// Mutable search bookkeeping: current iteration depth, ply from the
/// root, node count, termination flag, and the best move so far.
pub struct SearchInfo {
    pub depth: u8,
    pub ply: u8,
    pub nodes: u64,
    pub terminate: SearchTerminate,
    pub best_move: Move,
    pub pv: Vec<Move>,
}

impl SearchInfo {
    pub fn new() -> (r: SearchInfo)
        ensures
            r.ply == 0,
            r.nodes == 0,
            r.terminate == SearchTerminate::Nothing,
    {
        SearchInfo {
            depth: 0,
            ply: 0,
            nodes: 0,
            terminate: SearchTerminate::Nothing,
            best_move: Move { data: 0 },
            pv: Vec::new(),
        }
    }
}

/// The termination decision from the search mode, the limits, and what has
/// been received and measured so far.
pub open spec fn termination_spec(
    params: SearchParams,
    cmd: Option<SearchControl>,
    elapsed: u128,
    nodes: u64,
    depth: u8,
    allotted: u128,
    current: SearchTerminate,
) -> SearchTerminate {
    if cmd matches Some(SearchControl::Stop) {
        SearchTerminate::Stop
    } else if cmd matches Some(SearchControl::Quit) {
        SearchTerminate::Quit
    } else if params.search_mode == SearchMode::Depth && depth > params.depth {
        SearchTerminate::Stop
    } else if params.search_mode == SearchMode::MoveTime && elapsed >= params.move_time {
        SearchTerminate::Stop
    } else if params.search_mode == SearchMode::Nodes && nodes >= params.nodes as u64 {
        SearchTerminate::Stop
    } else if params.search_mode == SearchMode::GameTime && elapsed >= allotted {
        SearchTerminate::Stop
    } else {
        current
    }
}

/// Milliseconds allotted to this move under a game clock: the remaining
/// time split over the moves to go (or a fixed horizon) plus the
/// increment, less the protocol overhead.
pub open spec fn allotment_spec(gt: GameTime, side: int) -> int {
    let remaining: int = if side == 0 {
        gt.wtime as int
    } else {
        gt.btime as int
    };
    let inc: int = if side == 0 {
        gt.winc as int
    } else {
        gt.binc as int
    };
    let mtg: int = match gt.moves_to_go {
        Some(n) => if n == 0 {
            1
        } else {
            n as int
        },
        None => 25,
    };
    let split = remaining / mtg;
    let base = if split + inc > u128::MAX {
        u128::MAX as int
    } else {
        split + inc
    };
    if base > OVERHEAD {
        base - OVERHEAD
    } else {
        0
    }
}

impl Search {
    /// Compute this move's time budget from the game clock.
    pub fn game_time_allotment(gt: &GameTime, side: usize) -> (r: u128)
        requires
            side < 2,
        ensures
            r == allotment_spec(*gt, side as int),
    {
        let remaining = if side == 0 {
            gt.wtime
        } else {
            gt.btime
        };
        let inc = if side == 0 {
            gt.winc
        } else {
            gt.binc
        };
        let mtg: u128 = match gt.moves_to_go {
            Some(n) => if n == 0 {
                1
            } else {
                n as u128
            },
            None => 25,
        };
        let split = remaining / mtg;
        let total = if split <= u128::MAX - inc {
            split + inc
        } else {
            u128::MAX
        };
        if total > OVERHEAD {
            total - OVERHEAD
        } else {
            0
        }
    }

    /// Decide whether the search must stop: an incoming command, the depth
    /// or node limit, the fixed move time, or the game-time allotment.
    pub fn check_termination(
        params: &SearchParams,
        cmd: Option<SearchControl>,
        elapsed: u128,
        nodes: u64,
        depth: u8,
        allotted: u128,
        current: SearchTerminate,
    ) -> (t: SearchTerminate)
        ensures
            t == termination_spec(*params, cmd, elapsed, nodes, depth, allotted, current),
    {
        match cmd {
            Some(SearchControl::Stop) => {
                return SearchTerminate::Stop;
            },
            Some(SearchControl::Quit) => {
                return SearchTerminate::Quit;
            },
            _ => {},
        }
        match params.search_mode {
            SearchMode::Depth => {
                if depth > params.depth {
                    return SearchTerminate::Stop;
                }
            },
            SearchMode::MoveTime => {
                if elapsed >= params.move_time {
                    return SearchTerminate::Stop;
                }
            },
            SearchMode::Nodes => {
                if nodes >= params.nodes as u64 {
                    return SearchTerminate::Stop;
                }
            },
            SearchMode::GameTime => {
                if elapsed >= allotted {
                    return SearchTerminate::Stop;
                }
            },
            SearchMode::Infinite => {},
            SearchMode::Nothing => {},
        }
        current
    }

    /// Poll the control channel and the clock at a checkpoint and update
    /// the termination flag.
    fn poll_termination(
        info: &mut SearchInfo,
        params: &SearchParams,
        control_rx: &crossbeam_channel::Receiver<SearchControl>,
        timer: &std::time::Instant,
        allotted: u128,
    )
        ensures
            final(info).ply == old(info).ply,
            final(info).nodes == old(info).nodes,
    {
        let cmd = try_recv_control(control_rx);
        let elapsed = elapsed_millis(timer);
        let t = Search::check_termination(
            params,
            cmd,
            elapsed,
            info.nodes,
            info.depth,
            allotted,
            info.terminate,
        );
        info.terminate = t;
    }

    /// Report the move currently searched at the root.
    pub fn send_current_move(
        report_tx: &crossbeam_channel::Sender<Information>,
        current: Move,
        count: u8,
    ) {
        let scm = SearchCurrentMove { curr_move: current, curr_move_number: count };
        let _delivered = send_information(
            report_tx,
            Information::Search(SearchReport::SearchCurrentMove(scm)),
        );
    }

    /// Report node count and speed.
    pub fn send_stats(
        report_tx: &crossbeam_channel::Sender<Information>,
        timer: &std::time::Instant,
        nodes: u64,
    ) {
        let msecs = elapsed_millis(timer);
        let nodes_us = if nodes > usize::MAX as u64 {
            usize::MAX
        } else {
            nodes as usize
        };
        let nps = Search::nodes_per_second(nodes_us, msecs);
        let stats = SearchStats { time: msecs, nodes: nodes_us, nps };
        let _delivered = send_information(
            report_tx,
            Information::Search(SearchReport::SearchStats(stats)),
        );
    }

    /// Quiescence search: evaluate, then follow captures only, so the
    /// returned value does not sit in the middle of a capture sequence.
    /// Fail-hard: the result lies in the given window, and the board comes
    /// back exactly as it was.
    #[verifier::rlimit(100)]
    #[verifier::spinoff_prover]
    pub fn quiescence(
        board: &mut Board,
        mg: &MoveGenerator,
        alpha: i16,
        beta: i16,
        info: &mut SearchInfo,
    ) -> (score: i16)
        requires
            wf(old(board)@),
            mg.wf(),
            -INF <= alpha < beta <= INF,
            old(info).ply as int + piece_count(old(board)@) <= 250,
        ensures
            final(board)@ == old(board)@,
            final(info).ply == old(info).ply,
            alpha <= score <= beta,
        decreases piece_count(old(board)@),
    {
        let ghost pre = board@;
        let mut cur_alpha = alpha;
        proof {
            lemma_count_sum_bounds(pre, 64);
        }
        info.nodes = if info.nodes < u64::MAX {
            info.nodes + 1
        } else {
            info.nodes
        };
        let stand_pat = evaluate_position(board);
        if stand_pat >= beta {
            return beta;
        }
        if stand_pat > cur_alpha {
            cur_alpha = stand_pat;
        }
        let mut ml = MoveList::new();
        mg.generate_moves(board, &mut ml, MoveType::Captures);
        let n = ml.len();
        let mut i: usize = 0;
        while i < n
            invariant
                pre == old(board)@,
                wf(pre),
                mg.wf(),
                board@ == pre,
                info.ply == old(info).ply,
                old(info).ply as int + piece_count(pre) <= 250,
                alpha <= cur_alpha < beta,
                -INF <= alpha,
                beta <= INF,
                n == ml@.len(),
                i <= n,
                forall|k: int| 0 <= k < n ==> gen_ok(pre, MoveType::Captures, #[trigger] ml@[k]),
            decreases n - i,
        {
            let m = ml.get_move(i);
            proof {
                assert(gen_ok(pre, MoveType::Captures, ml@[i as int]));
            }
            let legal = make_move(board, m, mg);
            if legal {
                proof {
                    assert(is_capture_move(m));
                    assert(piece_count(board@) == piece_count(pre) - 1);
                    lemma_count_sum_bounds(board@, 64);
                }
                info.ply = info.ply + 1;
                let score = -Search::quiescence(board, mg, -beta, -cur_alpha, info);
                info.ply = info.ply - 1;
                unmake_move(board);
                proof {
                    assert(board@ == pre);
                }
                if score >= beta {
                    return beta;
                }
                if score > cur_alpha {
                    cur_alpha = score;
                }
            }
            i = i + 1;
        }
        cur_alpha
    }

    /// Negamax alpha-beta, fail-hard. The board and the ply come back
    /// exactly as they were; the score is in the window, a mate score for
    /// the side to move, a draw score, or the static evaluation at the
    /// depth ceiling.
    #[verifier::rlimit(100)]
    #[verifier::spinoff_prover]
    pub fn alpha_beta(
        board: &mut Board,
        mg: &MoveGenerator,
        depth: u8,
        alpha: i16,
        beta: i16,
        pv: &mut Vec<Move>,
        info: &mut SearchInfo,
        params: &SearchParams,
        control_rx: &crossbeam_channel::Receiver<SearchControl>,
        report_tx: &crossbeam_channel::Sender<Information>,
        timer: &std::time::Instant,
        allotted: u128,
    ) -> (score: i16)
        requires
            wf(old(board)@),
            mg.wf(),
            -INF <= alpha < beta <= INF,
            old(info).ply <= MAX_DEPTH,
        ensures
            final(board)@ == old(board)@,
            final(info).ply == old(info).ply,
            -CHECKMATE <= score <= CHECKMATE,
            (alpha <= score <= beta) || score == DRAW || score == -CHECKMATE + old(info).ply
                || (old(info).ply >= MAX_DEPTH && score == eval_spec(old(board)@)),
        decreases depth,
    {
        let ghost pre = board@;
        let mut cur_alpha = alpha;
        let is_root = info.ply == 0;

        // Checkpoint: poll the clock and the control channel.
        if info.nodes & 2047 == 0 {
            Search::poll_termination(info, params, control_rx, timer, allotted);
        }
        if depth == 0 {
            proof {
                lemma_count_sum_bounds(pre, 64);
            }
            return Search::quiescence(board, mg, cur_alpha, beta, info);
        }
        if info.ply >= MAX_DEPTH {
            return evaluate_position(board);
        }
        info.nodes = if info.nodes < u64::MAX {
            info.nodes + 1
        } else {
            info.nodes
        };

        let mut ml = MoveList::new();
        mg.generate_moves(board, &mut ml, MoveType::All);
        let n = ml.len();
        let mut legal_moves_found: u8 = 0;
        let mut best_move = Move::new(0);
        let mut i: usize = 0;
        while i < n
            invariant
                pre == old(board)@,
                wf(pre),
                mg.wf(),
                board@ == pre,
                info.ply == old(info).ply,
                old(info).ply < MAX_DEPTH,
                alpha <= cur_alpha < beta,
                -INF <= alpha,
                beta <= INF,
                n == ml@.len(),
                i <= n,
                depth >= 1,
                forall|k: int| 0 <= k < n ==> gen_ok(pre, MoveType::All, #[trigger] ml@[k]),
            decreases n - i,
        {
            if !matches!(info.terminate, SearchTerminate::Nothing) {
                break;
            }
            let m = ml.get_move(i);
            proof {
                assert(gen_ok(pre, MoveType::All, ml@[i as int]));
            }
            let legal = make_move(board, m, mg);
            if legal {
                if is_root {
                    Search::send_current_move(report_tx, m, legal_moves_found);
                }
                legal_moves_found = if legal_moves_found < 255 {
                    legal_moves_found + 1
                } else {
                    legal_moves_found
                };
                info.ply = info.ply + 1;
                let mut node_pv: Vec<Move> = Vec::new();
                let score = if Search::is_draw(board) {
                    DRAW
                } else {
                    -Search::alpha_beta(
                        board,
                        mg,
                        depth - 1,
                        -beta,
                        -cur_alpha,
                        &mut node_pv,
                        info,
                        params,
                        control_rx,
                        report_tx,
                        timer,
                        allotted,
                    )
                };
                info.ply = info.ply - 1;
                unmake_move(board);
                proof {
                    assert(board@ == pre);
                }
                if score >= beta {
                    return beta;
                }
                if score > cur_alpha {
                    cur_alpha = score;
                    best_move = m;
                    pv.clear();
                    pv.push(best_move);
                    pv.append(&mut node_pv);
                }
            }
            i = i + 1;
        }
        if legal_moves_found == 0 && matches!(info.terminate, SearchTerminate::Nothing) {
            let us = board.us();
            let opp = board.opponent();
            let king_sq = board.king_square(us);
            let in_check = mg.square_attacked(board, opp, king_sq);
            if in_check {
                return -CHECKMATE + (info.ply as i16);
            } else {
                return STALEMATE;
            }
        }
        info.best_move = best_move;
        cur_alpha
    }

    /// Iterative deepening: search depth by depth, keep the result of the
    /// last completed depth, and report each completed iteration. The
    /// board comes back exactly as it was.
    pub fn iterative_deepening(
        board: &mut Board,
        mg: &MoveGenerator,
        params: &SearchParams,
        control_rx: &crossbeam_channel::Receiver<SearchControl>,
        report_tx: &crossbeam_channel::Sender<Information>,
    ) -> (result: (Move, i16))
        requires
            wf(old(board)@),
            mg.wf(),
        ensures
            final(board)@ == old(board)@,
    {
        let timer = crate::shell::instant_now();
        let us = board.us();
        let allotted: u128 = if params.search_mode == SearchMode::GameTime {
            Search::game_time_allotment(&params.game_time, us)
        } else {
            0
        };
        let target_depth: u8 = if params.search_mode == SearchMode::Depth {
            if params.depth > MAX_DEPTH {
                MAX_DEPTH
            } else {
                params.depth
            }
        } else {
            MAX_DEPTH
        };
        let mut info = SearchInfo::new();
        let mut best_move = Move::new(0);
        let mut best_score: i16 = 0;
        let mut depth: u8 = 1;
        while depth <= target_depth
            invariant
                wf(old(board)@),
                mg.wf(),
                board@ == old(board)@,
                info.ply == 0,
                1 <= depth,
                target_depth <= MAX_DEPTH,
            decreases target_depth + 1 - depth,
        {
            info.depth = depth;
            let mut pv: Vec<Move> = Vec::new();
            let score = Search::alpha_beta(
                board,
                mg,
                depth,
                -INF,
                INF,
                &mut pv,
                &mut info,
                params,
                control_rx,
                report_tx,
                &timer,
                allotted,
            );
            if matches!(info.terminate, SearchTerminate::Nothing) {
                // The iteration completed: keep and report its result.
                if pv.len() > 0 {
                    best_move = pv[0];
                }
                best_score = score;
                let msecs = elapsed_millis(&timer);
                let nodes_us = if info.nodes > usize::MAX as u64 {
                    usize::MAX
                } else {
                    info.nodes as usize
                };
                let summary = SearchSummary {
                    depth,
                    time: msecs,
                    cp: score,
                    nodes: nodes_us,
                    nps: Search::nodes_per_second(nodes_us, msecs),
                    pv,
                };
                let _delivered = send_information(
                    report_tx,
                    Information::Search(SearchReport::SearchSummary(summary)),
                );
                // A forced mate needs no deeper confirmation.
                if score >= CHECKMATE - (MAX_DEPTH as i16) || score <= -CHECKMATE + (
                MAX_DEPTH as i16) {
                    break;
                }
            } else {
                break;
            }
            // Re-check the outside limits between iterations.
            Search::poll_termination(&mut info, params, control_rx, &timer, allotted);
            if !matches!(info.terminate, SearchTerminate::Nothing) {
                break;
            }
            depth = depth + 1;
        }
        let _delivered = send_information(
            report_tx,
            Information::Search(SearchReport::Finished(best_move)),
        );
        (best_move, best_score)
    }
}

} // verus!
