use shanks::backend::Backend;
use shanks::bitboard::BitBoard;
use shanks::board::Board;
use shanks::engine::{Engine, LOST, SEARCH_DEPTH, WON};
use shanks::gamestate::GameState;
use shanks::piece::{Color, Piece, PieceKind};
use shanks::ply::Ply;
use shanks::square::Square;
use shanks::static_eval::{static_eval, KING_VALUE, MAN_VALUE};

const WM: Piece = Piece { color: Color::White, kind: PieceKind::Man };
const WK: Piece = Piece { color: Color::White, kind: PieceKind::King };
const BM: Piece = Piece { color: Color::Black, kind: PieceKind::Man };
const BK: Piece = Piece { color: Color::Black, kind: PieceKind::King };

fn sq(file: u8, rank: u8) -> Square {
    Square::new(file, rank).unwrap()
}

fn board_with(pieces: &[(u8, u8, Piece)]) -> BitBoard {
    let mut board = BitBoard::empty();
    for &(file, rank, piece) in pieces {
        board.set_piece(sq(file, rank), piece);
    }
    board
}

fn texts(plies: &[Ply]) -> Vec<String> {
    plies.iter().map(|p| p.to_string()).collect()
}

#[test]
fn a_new_game_has_white_to_move() {
    let board = Board::default();
    assert_eq!(board.to_move(), Color::White);
    assert_eq!(board.selected(), None);
    assert_eq!(board.get_backend().get_piece(sq(0, 0)), Some(WM));
    let custom = Board::new(board_with(&[(3, 3, BK)]));
    assert_eq!(custom.to_move(), Color::White);
    assert_eq!(custom.get_backend().get_piece(sq(3, 3)), Some(BK));
}

#[test]
fn get_ply_counts_the_legal_plies_from_zero() {
    let mut board = Board::default();
    assert_eq!(board.get_ply(0).unwrap().to_string(), "a3-b4");
    assert_eq!(board.get_ply(1).unwrap().to_string(), "c3-b4");
    assert_eq!(board.get_ply(6).unwrap().to_string(), "g3-h4");
    assert!(board.get_ply(7).is_none());
    assert!(board.get_ply(usize::MAX).is_none());
    assert_eq!(
        texts(&board.legal_plies()),
        vec!["a3-b4", "c3-b4", "c3-d4", "e3-d4", "e3-f4", "g3-f4", "g3-h4"]
    );
}

#[test]
fn ply_passes_the_turn() {
    let mut board = Board::default();
    board.select(Some(sq(2, 2)));
    let ply = board.get_ply(2).unwrap();
    board.ply(ply);
    assert_eq!(board.to_move(), Color::Black);
    assert_eq!(board.selected(), None);
    assert_eq!(board.get_backend().get_piece(sq(2, 2)), None);
    assert_eq!(board.get_backend().get_piece(sq(3, 3)), Some(WM));
    assert_eq!(board.get_ply(0).unwrap().to_string(), "b6-a5");
    let reply = board.get_ply(1).unwrap();
    assert_eq!(reply.to_string(), "b6-c5");
    board.ply(reply);
    assert_eq!(board.to_move(), Color::White);
    assert_eq!(texts(&board.legal_plies()), vec!["d4-b6xc5"]);
}

#[test]
fn the_backend_can_be_changed_through_the_board() {
    let mut board = Board::default();
    board.get_backend_mut().remove_piece(sq(0, 0));
    assert_eq!(board.get_backend().get_piece(sq(0, 0)), None);
    board.get_backend_mut().set_piece(sq(3, 3), BM);
    assert_eq!(texts(&board.legal_plies()), vec!["c3-e5xd4", "e3-c5xd4"]);
}

#[test]
fn the_board_reports_the_state_of_its_backend() {
    let mut board = Board::default();
    assert_eq!(board.get_gamestate(), GameState::Win(Color::Black));
    board.legal_plies();
    assert_eq!(board.get_gamestate(), GameState::OnGoing);
    let mut won = Board::new(board_with(&[(2, 2, WM), (3, 3, BM)]));
    let capture = won.get_ply(0).unwrap();
    won.ply(capture);
    assert_eq!(won.to_move(), Color::Black);
    assert_eq!(won.get_gamestate(), GameState::Win(Color::White));
}

#[test]
fn the_starting_position_in_print() {
    let board = Board::default();
    let expected = "8 \u{B7} \u{26C2} \u{B7} \u{26C2} \u{B7} \u{26C2} \u{B7} \u{26C2} \n\
                    7 \u{26C2} \u{B7} \u{26C2} \u{B7} \u{26C2} \u{B7} \u{26C2} \u{B7} \n\
                    6 \u{B7} \u{26C2} \u{B7} \u{26C2} \u{B7} \u{26C2} \u{B7} \u{26C2} \n\
                    5 \u{B7} \u{B7} \u{B7} \u{B7} \u{B7} \u{B7} \u{B7} \u{B7} \n\
                    4 \u{B7} \u{B7} \u{B7} \u{B7} \u{B7} \u{B7} \u{B7} \u{B7} \n\
                    3 \u{26C0} \u{B7} \u{26C0} \u{B7} \u{26C0} \u{B7} \u{26C0} \u{B7} \n\
                    2 \u{B7} \u{26C0} \u{B7} \u{26C0} \u{B7} \u{26C0} \u{B7} \u{26C0} \n\
                    1 \u{26C0} \u{B7} \u{26C0} \u{B7} \u{26C0} \u{B7} \u{26C0} \u{B7} \n  a b c d e f g h\n";
    assert_eq!(board.to_string(), expected);
    assert_eq!(board.render_with("??"), expected);
}

#[test]
fn kings_in_print() {
    let board = Board::new(board_with(&[(0, 0, WK), (7, 7, BK)]));
    let text = board.to_string();
    let lines: Vec<&str> = text.lines().collect();
    assert_eq!(lines.len(), 9);
    assert_eq!(lines[0], "8 \u{B7} \u{B7} \u{B7} \u{B7} \u{B7} \u{B7} \u{B7} \u{26C3} ");
    assert_eq!(lines[7], "1 \u{26C1} \u{B7} \u{B7} \u{B7} \u{B7} \u{B7} \u{B7} \u{B7} ");
    assert_eq!(lines[8], "  a b c d e f g h");
}

#[test]
fn the_selected_square_in_print() {
    let mut board = Board::new(board_with(&[(0, 0, WK), (7, 7, BK)]));
    board.select(Some(sq(0, 0)));
    assert_eq!(board.selected(), Some(sq(0, 0)));
    let marked = board.render_with("[K]");
    assert_eq!(marked.lines().nth(7).unwrap(), "1 [K]\u{B7} \u{B7} \u{B7} \u{B7} \u{B7} \u{B7} \u{B7} ");
    colored::control::set_override(true);
    let colored_text = board.to_string();
    assert_eq!(
        colored_text.lines().nth(7).unwrap(),
        "1 \u{1b}[1;32m\u{26C1} \u{1b}[0m\u{B7} \u{B7} \u{B7} \u{B7} \u{B7} \u{B7} \u{B7} "
    );
    board.select(Some(sq(1, 0)));
    assert_eq!(
        board.to_string().lines().nth(7).unwrap(),
        "1 \u{26C1} \u{1b}[1;32m\u{B7} \u{1b}[0m\u{B7} \u{B7} \u{B7} \u{B7} \u{B7} \u{B7} "
    );
    colored::control::set_override(false);
    assert_eq!(
        board.to_string().lines().nth(7).unwrap(),
        "1 \u{26C1} \u{B7} \u{B7} \u{B7} \u{B7} \u{B7} \u{B7} \u{B7} "
    );
    colored::control::unset_override();
    board.select(None);
    assert_eq!(board.selected(), None);
}

#[test]
fn material_counts_one_for_a_man_and_three_for_a_king() {
    assert_eq!(MAN_VALUE, 1);
    assert_eq!(KING_VALUE, 3);
    assert_eq!(static_eval(&BitBoard::default(), Color::White), 0);
    assert_eq!(static_eval(&BitBoard::default(), Color::Black), 0);
    let board = board_with(&[(0, 0, WM), (2, 0, WM), (4, 0, WK), (5, 7, BM)]);
    assert_eq!(static_eval(&board, Color::White), 4);
    assert_eq!(static_eval(&board, Color::Black), -4);
    let kings = board_with(&[(0, 0, WM), (1, 7, BK), (3, 7, BK), (5, 7, BM)]);
    assert_eq!(static_eval(&kings, Color::White), 1 - 7);
    assert_eq!(static_eval(&kings, Color::Black), 7 - 1);
    assert_eq!(static_eval(&BitBoard::empty(), Color::White), 0);
}

#[test]
fn a_search_of_depth_zero_is_the_static_evaluation() {
    let mut engine = Engine::new(Color::White);
    let mut board = board_with(&[(0, 0, WM), (4, 0, WK), (5, 7, BM)]);
    assert_eq!(engine.search(&mut board, 0), 3);
    assert_eq!(engine.best_plies(&mut board, 0), (3, vec![]));
    assert_eq!(board.get_gamestate(), GameState::Win(Color::Black));
    let mut black = Engine::new(Color::Black);
    assert_eq!(black.search(&mut board, 0), -3);
}

#[test]
fn a_search_of_depth_one_scores_the_positions_after_one_ply() {
    let mut engine = Engine::new(Color::White);
    let mut start = BitBoard::default();
    let (score, plies) = engine.best_plies(&mut start, 1);
    assert_eq!(score, 0);
    assert_eq!(
        texts(&plies),
        vec!["a3-b4", "c3-b4", "c3-d4", "e3-d4", "e3-f4", "g3-f4", "g3-h4"]
    );
    assert_eq!(start.get_gamestate(), GameState::OnGoing);
    let mut engine = Engine::new(Color::White);
    let mut board = board_with(&[(2, 2, WM), (3, 3, BM), (7, 7, BM), (5, 7, BK), (0, 0, WM)]);
    assert_eq!(static_eval(&board, Color::White), 2 - 5);
    assert_eq!(engine.best_plies(&mut board, 1).0, 2 - 4);
    let mut engine = Engine::new(Color::White);
    let mut choice = board_with(&[(2, 2, WM), (1, 3, BM), (3, 3, BK), (7, 7, BM)]);
    let (score, plies) = engine.best_plies(&mut choice, 1);
    assert_eq!(score, 1 - 2);
    assert_eq!(texts(&plies), vec!["c3-e5xd4"]);
}

#[test]
fn taking_the_last_piece_wins() {
    let mut engine = Engine::new(Color::White);
    let mut board = board_with(&[(2, 2, WM), (3, 3, BM)]);
    let (score, plies) = engine.best_plies(&mut board, 1);
    assert_eq!(score, WON);
    assert_eq!(score, i64::MAX);
    assert_eq!(texts(&plies), vec!["c3-e5xd4"]);
    let mut deep = Engine::new(Color::White);
    assert_eq!(deep.search(&mut board, 5), WON);
    let mut black = Engine::new(Color::Black);
    let (score, plies) = black.best_plies(&mut board, 1);
    assert_eq!(score, WON);
    assert_eq!(texts(&plies), vec!["d4-b2xc3"]);
}

#[test]
fn a_side_without_plies_gets_the_lowest_score() {
    let mut engine = Engine::new(Color::White);
    let mut stuck = board_with(&[(0, 0, WM), (1, 1, BM), (2, 2, BM)]);
    assert_eq!(engine.best_plies(&mut stuck, 3), (LOST, vec![]));
    assert_eq!(LOST, i64::MIN);
    assert_eq!(engine.search(&mut stuck, 1), LOST);
    assert_eq!(stuck.get_gamestate(), GameState::Win(Color::Black));
}

#[test]
fn a_search_of_depth_two_lets_the_opponent_answer() {
    let mut engine = Engine::new(Color::White);
    let mut board = board_with(&[(2, 2, WM), (3, 3, BM), (7, 7, BM)]);
    assert_eq!(engine.search(&mut board, 2), 0);
    let mut engine = Engine::new(Color::White);
    let mut trap = board_with(&[(2, 0, WM), (1, 3, BM), (3, 3, BM), (7, 7, BM)]);
    let (score, plies) = engine.best_plies(&mut trap, 2);
    assert_eq!(texts(&plies), vec!["c1-b2", "c1-d2"]);
    assert_eq!(score, 1 - 3);
    let mut engine = Engine::new(Color::White);
    let mut lure = board_with(&[(1, 2, WM), (3, 4, BM), (7, 7, BM)]);
    let (score, plies) = engine.best_plies(&mut lure, 2);
    assert_eq!(score, 1 - 2);
    assert_eq!(texts(&plies), vec!["b3-a4"]);
    let mut engine = Engine::new(Color::White);
    let mut forced = board_with(&[(1, 2, WM), (0, 3, WM), (3, 4, BM), (7, 7, BM)]);
    let (score, plies) = engine.best_plies(&mut forced, 2);
    assert_eq!(score, 2 - 2);
    assert_eq!(texts(&plies), vec!["a4-b5"]);
    let mut engine = Engine::new(Color::White);
    assert_eq!(engine.best_plies(&mut forced, 1), (0, forced.get_legal_plies(Color::White)));
}

#[test]
fn a_score_once_found_is_found_again() {
    let mut engine = Engine::new(Color::White);
    let mut board = BitBoard::default();
    let first = engine.search(&mut board, 3);
    let second = engine.search(&mut board, 3);
    assert_eq!(first, second);
    let mut fresh = Engine::new(Color::White);
    assert_eq!(fresh.search(&mut BitBoard::default(), 3), first);
}

#[test]
fn evaluate_searches_from_the_board_of_the_game() {
    assert_eq!(SEARCH_DEPTH, 16);
    let mut engine = Engine::new(Color::White);
    let mut board = Board::new(board_with(&[(2, 2, WM), (3, 3, BM)]));
    assert_eq!(engine.evaluate(&mut board), WON);
    assert_eq!(board.to_move(), Color::White);
    assert_eq!(board.get_gamestate(), GameState::OnGoing);
    let mut stuck = Board::new(board_with(&[(0, 0, WM), (1, 1, BM), (2, 2, BM)]));
    assert_eq!(engine.evaluate(&mut stuck), LOST);
}
