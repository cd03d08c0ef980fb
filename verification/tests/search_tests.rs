use crossbeam_channel::unbounded;
use std::time::Instant;

use rookery::board::Board;
use rookery::defs::{FEN_START_POSITION, PNONE};
use rookery::engine_core::{create_legal_move_list, parse_uci_command, setup_position};
use rookery::engine_defs::{
    Information, SearchControl, SearchMode, SearchParams, UciReport, CHECKMATE, OVERHEAD,
};
use rookery::fen::fen_read;
use rookery::movedefs::MoveList;
use rookery::movegen::{MoveGenerator, MoveType};
use rookery::makemove::{make_move, unmake_move};
use rookery::search::Search;

fn board_from(fen: &str) -> Board {
    let mut b = Board::new();
    fen_read(&mut b, fen).unwrap();
    b
}

fn run_search(board: &mut Board, params: &SearchParams) -> (rookery::movedefs::Move, i16) {
    let mg = MoveGenerator::new();
    let (_control_tx, control_rx) = unbounded::<SearchControl>();
    let (report_tx, _report_rx) = unbounded::<Information>();
    Search::iterative_deepening(board, &mg, params, &control_rx, &report_tx)
}

fn perft(board: &mut Board, mg: &MoveGenerator, depth: u32) -> u64 {
    if depth == 0 {
        return 1;
    }
    let mut ml = MoveList::new();
    board.gen_all_moves(mg, &mut ml);
    let mut nodes = 0u64;
    for i in 0..ml.len() {
        let m = ml.get_move(i);
        if make_move(board, m, mg) {
            nodes += perft(board, mg, depth - 1);
            unmake_move(board);
        }
    }
    nodes
}

#[test]
fn perft_startpos() {
    let mg = MoveGenerator::new();
    let mut b = board_from(FEN_START_POSITION);
    assert_eq!(perft(&mut b, &mg, 1), 20);
    assert_eq!(perft(&mut b, &mg, 2), 400);
    assert_eq!(perft(&mut b, &mg, 3), 8_902);
}

#[test]
fn perft_kiwipete() {
    let mg = MoveGenerator::new();
    let mut b = board_from("r3k2r/p1ppqpb1/bn2pnp1/3PN3/1p2P3/2N2Q1p/PPPBBPPP/R3K2R w KQkq - 0 1");
    assert_eq!(perft(&mut b, &mg, 1), 48);
    assert_eq!(perft(&mut b, &mg, 2), 2_039);
}

#[test]
fn mate_in_one_found() {
    // Back-rank mate: the king on h8 is boxed in by its own pawns.
    let mut b = board_from("7k/6pp/8/8/8/8/8/R6K w - - 0 1");
    let mut params = SearchParams::new();
    params.depth = 3;
    params.search_mode = SearchMode::Depth;
    let (best, score) = run_search(&mut b, &params);
    // a1 is square 0, a8 is square 56.
    assert_eq!(best.from(), 0);
    assert_eq!(best.to(), 56);
    assert_eq!(score, CHECKMATE - 1);
}

#[test]
fn stalemate_is_avoided() {
    // Qg6 would stalemate the bare king; the mate via g7 must be kept.
    let mut b = board_from("7k/8/7K/8/8/8/8/6Q1 w - - 0 1");
    let mut params = SearchParams::new();
    params.depth = 4;
    params.search_mode = SearchMode::Depth;
    let (best, score) = run_search(&mut b, &params);
    // Qg6 (g1 -> g6, squares 6 -> 46) stalemates and must not be chosen.
    assert!(!(best.from() == 6 && best.to() == 46));
    assert_eq!(score, CHECKMATE - 1);
}

#[test]
fn threefold_line_is_draw() {
    let mg = MoveGenerator::new();
    let mut b = Board::new();
    let moves: Vec<String> =
        ["g1f3", "g8f6", "f3g1", "f6g8"].iter().map(|s| s.to_string()).collect();
    setup_position(&mut b, &mg, FEN_START_POSITION, &moves).unwrap();
    // The starting position has repeated once: enough for the search's
    // draw rule.
    assert!(Search::is_repetition(&b) >= 1);
    assert!(Search::is_draw(&b));
}

#[test]
fn movetime_returns_in_time_with_legal_move() {
    let mut b = board_from(FEN_START_POSITION);
    let mut params = SearchParams::new();
    params.move_time = 100;
    params.search_mode = SearchMode::MoveTime;
    let start = Instant::now();
    let (best, _score) = run_search(&mut b, &params);
    let elapsed = start.elapsed().as_millis();
    // The budget plus the protocol overhead, with slack for a slow build.
    assert!(elapsed <= 100 + OVERHEAD + 2000, "took {} ms", elapsed);
    let mg = MoveGenerator::new();
    let legal = create_legal_move_list(&mut b, &mg);
    let mut found = false;
    for i in 0..legal.len() {
        if legal.get_move(i).same_move(&best) {
            found = true;
        }
    }
    assert!(found, "best move is not legal");
}

#[test]
fn quiescence_takes_the_hanging_queen() {
    let mut b = board_from("k7/8/8/3q4/8/8/3R4/K7 w - - 0 1");
    let mut params = SearchParams::new();
    params.depth = 1;
    params.search_mode = SearchMode::Depth;
    let (best, score) = run_search(&mut b, &params);
    // d2 is square 11, d5 is square 35: the rook takes the queen.
    assert_eq!(best.from(), 11);
    assert_eq!(best.to(), 35);
    // The material swing of the queen, minus slack.
    assert!(score >= 400, "score {}", score);
}

#[test]
fn setup_position_rejects_illegal_move() {
    let mg = MoveGenerator::new();
    let mut b = Board::new();
    let moves: Vec<String> = ["e2e5"].iter().map(|s| s.to_string()).collect();
    assert!(setup_position(&mut b, &mg, FEN_START_POSITION, &moves).is_err());
}

#[test]
fn uci_parser_fixed_commands() {
    assert!(matches!(parse_uci_command("uci"), UciReport::Uci));
    assert!(matches!(parse_uci_command("isready"), UciReport::IsReady));
    assert!(matches!(parse_uci_command("ucinewgame"), UciReport::UciNewGame));
    assert!(matches!(parse_uci_command("stop"), UciReport::Stop));
    assert!(matches!(parse_uci_command("quit"), UciReport::Quit));
    assert!(matches!(parse_uci_command("flip"), UciReport::Unknown));
}

#[test]
fn uci_parser_go_and_position() {
    match parse_uci_command("go depth 6") {
        UciReport::GoDepth(d) => assert_eq!(d, 6),
        _ => panic!("expected a depth search"),
    }
    match parse_uci_command("go movetime 1500") {
        UciReport::GoMoveTime(t) => assert_eq!(t, 1500),
        _ => panic!("expected a movetime search"),
    }
    match parse_uci_command("go wtime 60000 btime 60000 winc 1000 binc 1000") {
        UciReport::GoGameTime(gt) => {
            assert_eq!(gt.wtime, 60000);
            assert_eq!(gt.binc, 1000);
        }
        _ => panic!("expected a game-time search"),
    }
    match parse_uci_command("position startpos moves e2e4 e7e5") {
        UciReport::Position(fen, moves) => {
            assert_eq!(fen, FEN_START_POSITION);
            assert_eq!(moves, vec!["e2e4".to_string(), "e7e5".to_string()]);
        }
        _ => panic!("expected a position command"),
    }
    match parse_uci_command("position fen 7k/8/6KQ/8/8/8/8/8 w - - 0 1") {
        UciReport::Position(fen, moves) => {
            assert_eq!(fen, "7k/8/6KQ/8/8/8/8/8 w - - 0 1");
            assert!(moves.is_empty());
        }
        _ => panic!("expected a position command"),
    }
}

#[test]
fn fifty_move_rule_scores_draw_in_search() {
    // Any quiet move from a clock of 99 reaches the rule threshold.
    let mut b = board_from("7k/8/6KQ/8/8/8/8/8 w - - 99 1");
    let mut params = SearchParams::new();
    params.depth = 1;
    params.search_mode = SearchMode::Depth;
    let (_best, score) = run_search(&mut b, &params);
    assert_eq!(score, 0);
}

#[test]
fn game_time_allotment_formula() {
    let gt = rookery::engine_defs::GameTime {
        wtime: 60000,
        btime: 30000,
        winc: 1000,
        binc: 0,
        moves_to_go: Some(30),
    };
    assert_eq!(Search::game_time_allotment(&gt, 0), 60000 / 30 + 1000 - OVERHEAD);
    assert_eq!(Search::game_time_allotment(&gt, 1), 30000 / 30 - OVERHEAD);
}

#[test]
fn insufficient_material_scores_draw_in_search() {
    let mut b = board_from("7k/8/6K1/8/8/8/8/8 w - - 0 1");
    assert!(Search::is_draw(&b));
    let mut params = SearchParams::new();
    params.depth = 2;
    params.search_mode = SearchMode::Depth;
    let (_best, score) = run_search(&mut b, &params);
    assert_eq!(score, 0);
}

#[test]
fn fen_round_trip_on_corpus() {
    let corpus = [
        FEN_START_POSITION,
        "r3k2r/p1ppqpb1/bn2pnp1/3PN3/1p2P3/2N2Q1p/PPPBBPPP/R3K2R w KQkq - 0 1",
        "7k/8/6KQ/8/8/8/8/8 w - - 99 1",
        "k7/8/8/3q4/8/8/3R4/K7 w - - 0 1",
        "rnbqkbnr/ppp1pppp/8/8/3pP3/8/PPPP1PPP/RNBQKBNR b KQkq e3 0 2",
        "7k/6pp/8/8/8/8/8/R6K w - - 0 1",
    ];
    for fen in corpus {
        let b = board_from(fen);
        assert_eq!(b.fen_string(), fen);
    }
}
