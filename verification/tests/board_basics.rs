use rookery::board::Board;
use rookery::defs::{FEN_START_POSITION, PAWN, KING, WHITE, BLACK};
use rookery::fen::fen_read;
use rookery::movedefs::MoveList;
use rookery::movegen::{MoveGenerator, MoveType};
use rookery::makemove::{make_move, unmake_move};
use rookery::search::Search;

fn startpos() -> Board {
    let mut b = Board::new();
    fen_read(&mut b, FEN_START_POSITION).unwrap();
    b
}

#[test]
fn startpos_loads() {
    let b = startpos();
    assert_eq!(b.game_state.active_color, 0);
    assert_eq!(b.game_state.castling, 15);
    assert_eq!(b.material_count[0], b.material_count[1]);
    assert_eq!(b.material_count[0], 900 + 2 * 500 + 2 * 300 + 2 * 300 + 8 * 100);
}

#[test]
fn startpos_has_twenty_moves() {
    let b = startpos();
    let mg = MoveGenerator::new();
    let mut ml = MoveList::new();
    let mut legal = 0;
    let mut b2 = b;
    b2.gen_all_moves(&mg, &mut ml);
    for i in 0..ml.len() {
        let m = ml.get_move(i);
        if make_move(&mut b2, m, &mg) {
            legal += 1;
            unmake_move(&mut b2);
        }
    }
    assert_eq!(legal, 20);
}

#[test]
fn make_unmake_restores_board() {
    let b = startpos();
    let mg = MoveGenerator::new();
    let mut ml = MoveList::new();
    let mut b2 = startpos();
    b2.gen_all_moves(&mg, &mut ml);
    let key_before = b2.game_state.zobrist_key;
    let hist_before = b2.history.len();
    for i in 0..ml.len() {
        let m = ml.get_move(i);
        if make_move(&mut b2, m, &mg) {
            unmake_move(&mut b2);
            assert_eq!(b2.game_state.zobrist_key, key_before);
            assert_eq!(b2.history.len(), hist_before);
            assert_eq!(b2.bb_side, b.bb_side);
            assert_eq!(b2.piece_list, b.piece_list);
            assert_eq!(b2.material_count, b.material_count);
        }
    }
}

#[test]
fn fen_error_leaves_board_unchanged() {
    let mut b = startpos();
    let key = b.game_state.zobrist_key;
    assert!(fen_read(&mut b, "not a fen").is_err());
    assert_eq!(b.game_state.zobrist_key, key);
}

#[test]
fn fifty_move_rule_draw() {
    let mut b = Board::new();
    fen_read(&mut b, "7k/8/6KQ/8/8/8/8/8 w - - 99 1").unwrap();
    assert!(!Search::is_draw(&b));
    let mg = MoveGenerator::new();
    let mut ml = MoveList::new();
    b.gen_all_moves(&mg, &mut ml);
    // Find a quiet king move and make it: the clock reaches 100.
    for i in 0..ml.len() {
        let m = ml.get_move(i);
        if m.piece() == KING && m.captured() == rookery::defs::PNONE {
            if make_move(&mut b, m, &mg) {
                assert_eq!(b.game_state.halfmove_clock, 100);
                assert!(Search::is_draw(&b));
                return;
            }
        }
    }
    panic!("no quiet king move found");
}

#[test]
fn insufficient_material_draw() {
    let mut b = Board::new();
    fen_read(&mut b, "7k/8/6K1/8/8/8/8/8 w - - 0 1").unwrap();
    assert!(Search::is_insufficient_material(&b));
    assert!(Search::is_draw(&b));
    let mut b2 = Board::new();
    fen_read(&mut b2, "7k/8/6KQ/8/8/8/8/8 w - - 0 1").unwrap();
    assert!(!Search::is_insufficient_material(&b2));
}

#[test]
fn nodes_per_second_formula() {
    assert_eq!(Search::nodes_per_second(1000, 0), 0);
    assert_eq!(Search::nodes_per_second(1000, 1000), 1000);
    assert_eq!(Search::nodes_per_second(1500, 1000), 1500);
}
