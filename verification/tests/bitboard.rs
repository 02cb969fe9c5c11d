use std::collections::hash_map::DefaultHasher;
use std::hash::{Hash, Hasher};

use shanks::backend::{Backend, BackendClone};
use shanks::bitboard::BitBoard;
use shanks::gamestate::GameState;
use shanks::piece::{Color, Piece, PieceKind};
use shanks::ply::{Ply, PlyBuilder};
use shanks::square::Square;

const WM: Piece = Piece { color: Color::White, kind: PieceKind::Man };
const WK: Piece = Piece { color: Color::White, kind: PieceKind::King };
const BM: Piece = Piece { color: Color::Black, kind: PieceKind::Man };
const BK: Piece = Piece { color: Color::Black, kind: PieceKind::King };

fn sq(file: u8, rank: u8) -> Square {
    Square::new(file, rank).unwrap()
}

fn board_with(pieces: &[(u8, u8, Piece)]) -> BitBoard {
    let mut board = BitBoard::empty();
    for &(file, rank, piece) in pieces {
        board.set_piece(sq(file, rank), piece);
    }
    board
}

fn moves(plies: &[Ply]) -> Vec<(usize, usize)> {
    plies.iter().map(|p| (p.from().index(), p.to().index())).collect()
}

fn texts(plies: &[Ply]) -> Vec<String> {
    plies.iter().map(|p| p.to_string()).collect()
}

#[test]
fn default_board_is_the_starting_position() {
    let board = BitBoard::default();
    for index in 0..64usize {
        let square = Square::from_index(index).unwrap();
        let dark = (square.file() + square.rank()) % 2 == 0;
        let expected = if dark && square.rank() < 3 {
            Some(WM)
        } else if dark && square.rank() > 4 {
            Some(BM)
        } else {
            None
        };
        assert_eq!(board.get_piece(square), expected, "square {}", square.to_string());
    }
    assert_eq!(board.man_count(Color::White), 12);
    assert_eq!(board.man_count(Color::Black), 12);
    assert_eq!(board.king_count(Color::White), 0);
    assert_eq!(board.king_count(Color::Black), 0);
}

#[test]
fn empty_board_has_no_pieces() {
    let board = BitBoard::empty();
    for index in 0..64usize {
        assert_eq!(board.get_piece(Square::from_index(index).unwrap()), None);
    }
    assert_eq!(board.man_count(Color::White), 0);
    assert_eq!(board.king_count(Color::Black), 0);
}

#[test]
fn set_piece_replaces_what_stood_there() {
    let mut board = BitBoard::empty();
    board.set_piece(sq(2, 2), WK);
    assert_eq!(board.get_piece(sq(2, 2)), Some(WK));
    board.set_piece(sq(2, 2), WM);
    assert_eq!(board.get_piece(sq(2, 2)), Some(WM));
    board.set_piece(sq(2, 2), BK);
    assert_eq!(board.get_piece(sq(2, 2)), Some(BK));
    assert_eq!(board.man_count(Color::White), 0);
    assert_eq!(board.king_count(Color::White), 0);
    assert_eq!(board.king_count(Color::Black), 1);
    board.set_piece(sq(2, 2), WM);
    assert_eq!(board.get_piece(sq(2, 2)), Some(WM));
    assert_eq!(board.king_count(Color::Black), 0);
    assert_eq!(board.man_count(Color::White), 1);
}

#[test]
fn remove_piece_returns_the_piece() {
    let mut board = board_with(&[(2, 2, WK), (3, 3, BM)]);
    assert_eq!(board.remove_piece(sq(2, 2)), Some(WK));
    assert_eq!(board.get_piece(sq(2, 2)), None);
    assert_eq!(board.remove_piece(sq(2, 2)), None);
    assert_eq!(board.get_piece(sq(3, 3)), Some(BM));
    assert_eq!(board.king_count(Color::White), 0);
}

#[test]
fn remove_pieces_reports_in_list_order() {
    let mut board = board_with(&[(2, 2, WK), (3, 3, BM), (4, 4, BK), (0, 0, WM)]);
    let removed = board.remove_pieces(&[sq(4, 4), sq(1, 1), sq(2, 2), sq(4, 4)]);
    assert_eq!(removed, vec![BK, WK, BK]);
    assert_eq!(board.get_piece(sq(4, 4)), None);
    assert_eq!(board.get_piece(sq(2, 2)), None);
    assert_eq!(board.get_piece(sq(3, 3)), Some(BM));
    assert_eq!(board.get_piece(sq(0, 0)), Some(WM));
    assert_eq!(board.remove_pieces(&[]), Vec::<Piece>::new());
}

#[test]
fn counts_tell_men_from_kings() {
    let board = board_with(&[(0, 0, WM), (2, 0, WM), (4, 0, WK), (1, 7, BK), (3, 7, BK), (5, 7, BM)]);
    assert_eq!(board.man_count(Color::White), 2);
    assert_eq!(board.king_count(Color::White), 1);
    assert_eq!(board.man_count(Color::Black), 1);
    assert_eq!(board.king_count(Color::Black), 2);
}

#[test]
fn ply_moves_the_piece_and_clears_the_captures() {
    let mut board = board_with(&[(2, 2, WM), (3, 3, BM), (5, 5, BM), (7, 7, BM)]);
    let ply = PlyBuilder::new(WM, sq(2, 2))
        .capture(sq(4, 4), sq(3, 3))
        .capture_multiple(sq(6, 6), vec![sq(5, 5)])
        .build();
    board.ply(ply);
    assert_eq!(board.get_piece(sq(2, 2)), None);
    assert_eq!(board.get_piece(sq(3, 3)), None);
    assert_eq!(board.get_piece(sq(5, 5)), None);
    assert_eq!(board.get_piece(sq(6, 6)), Some(WM));
    assert_eq!(board.get_piece(sq(7, 7)), Some(BM));
}

#[test]
fn ply_places_the_promoted_piece() {
    let mut board = board_with(&[(2, 6, WM)]);
    let ply = PlyBuilder::new(WM, sq(2, 6)).step(sq(3, 7)).promote().build();
    board.ply(ply);
    assert_eq!(board.get_piece(sq(2, 6)), None);
    assert_eq!(board.get_piece(sq(3, 7)), Some(WK));
}

#[test]
fn state_hash_is_the_standard_hash_of_the_three_masks() {
    let board = BitBoard::default();
    let mut hasher = DefaultHasher::new();
    hasher.write(&0x0000_0000_0055_aa55u64.to_le_bytes());
    hasher.write(&0xaa55_aa00_0000_0000u64.to_le_bytes());
    hasher.write(&0u64.to_le_bytes());
    assert_eq!(board.state_hash(), hasher.finish());
    assert_eq!(board.get_hash(), board.state_hash());
    if u16::from_ne_bytes([1, 0]) == 1 {
        let mut derived = DefaultHasher::new();
        0x0000_0000_0055_aa55u64.hash(&mut derived);
        0xaa55_aa00_0000_0000u64.hash(&mut derived);
        0u64.hash(&mut derived);
        assert_eq!(board.state_hash(), derived.finish());
    }
}

#[test]
fn state_hash_follows_the_position() {
    let mut board = BitBoard::default();
    let start = board.state_hash();
    assert_eq!(BitBoard::default().state_hash(), start);
    board.get_legal_plies(Color::White);
    assert_eq!(board.state_hash(), start);
    board.remove_piece(sq(0, 0));
    let without_a1 = board.state_hash();
    assert_ne!(without_a1, start);
    board.set_piece(sq(0, 0), WK);
    assert_ne!(board.state_hash(), start);
    assert_ne!(board.state_hash(), without_a1);
    board.set_piece(sq(0, 0), WM);
    assert_eq!(board.state_hash(), start);
}

#[test]
fn starting_position_black_has_seven_steps() {
    let mut board = BitBoard::default();
    let plies = board.get_legal_plies(Color::Black);
    assert_eq!(
        moves(&plies),
        vec![(41, 32), (41, 34), (43, 34), (43, 36), (45, 36), (45, 38), (47, 38)]
    );
    assert!(plies.iter().all(|p| p.captures().is_empty() && !p.promoted() && p.piece() == BM));
}

#[test]
fn a_capture_anywhere_rules_out_every_step() {
    let mut late = board_with(&[(0, 0, WM), (2, 2, WM), (3, 3, BM), (7, 7, BM)]);
    assert_eq!(texts(&late.get_legal_plies(Color::White)), vec!["c3-e5xd4"]);
    let mut early = board_with(&[(2, 2, WM), (3, 3, BM), (7, 3, WM), (7, 7, BM)]);
    assert_eq!(texts(&early.get_legal_plies(Color::White)), vec!["c3-e5xd4"]);
    let mut none = board_with(&[(0, 0, WM), (2, 2, WM), (7, 7, BM)]);
    assert_eq!(texts(&none.get_legal_plies(Color::White)), vec!["a1-b2", "c3-b4", "c3-d4"]);
}

#[test]
fn a_step_is_dropped_when_a_later_direction_captures() {
    let mut board = board_with(&[(2, 2, WM), (3, 3, BM)]);
    assert_eq!(texts(&board.get_legal_plies(Color::White)), vec!["c3-e5xd4"]);
    let mut mirrored = board_with(&[(2, 2, WM), (1, 3, BM)]);
    assert_eq!(texts(&mirrored.get_legal_plies(Color::White)), vec!["c3-a5xb4"]);
}

#[test]
fn blocked_jumps_are_no_captures() {
    let mut backed = board_with(&[(2, 2, WM), (3, 3, BM), (4, 4, BM)]);
    assert_eq!(texts(&backed.get_legal_plies(Color::White)), vec!["c3-b4"]);
    let mut edge = board_with(&[(6, 2, WM), (7, 3, BM)]);
    assert_eq!(texts(&edge.get_legal_plies(Color::White)), vec!["g3-f4"]);
    let mut own = board_with(&[(2, 2, WM), (3, 3, WM), (7, 7, BM)]);
    assert_eq!(texts(&own.get_legal_plies(Color::White)), vec!["c3-b4", "d4-c5", "d4-e5"]);
    let mut backwards = board_with(&[(2, 2, WM), (1, 1, BM)]);
    assert_eq!(texts(&backwards.get_legal_plies(Color::White)), vec!["c3-b4", "c3-d4"]);
}

#[test]
fn a_chain_branches_where_two_continuations_exist() {
    let mut board = board_with(&[(2, 2, WM), (3, 3, BM), (3, 5, BM), (5, 5, BM)]);
    let plies = board.get_legal_plies(Color::White);
    assert_eq!(texts(&plies), vec!["c3-c7xd4xd6", "c3-g7xd4xf6"]);
    assert_eq!(plies[0].captures().to_vec(), vec![sq(3, 3), sq(3, 5)]);
    assert_eq!(plies[1].captures().to_vec(), vec![sq(3, 3), sq(5, 5)]);
    assert!(plies.iter().all(|p| p.piece() == WM && !p.promoted()));
}

#[test]
fn chains_of_different_length_are_both_listed() {
    let mut board = board_with(&[(2, 2, WM), (1, 3, BM), (3, 3, BM), (5, 5, BM)]);
    assert_eq!(texts(&board.get_legal_plies(Color::White)), vec!["c3-a5xb4", "c3-g7xd4xf6"]);
}

#[test]
fn a_man_is_crowned_on_the_far_rank() {
    let mut white = board_with(&[(2, 6, WM), (7, 7, BM)]);
    let plies = white.get_legal_plies(Color::White);
    assert_eq!(texts(&plies), vec!["c7-b8p", "c7-d8p"]);
    assert!(plies.iter().all(|p| p.promoted() && p.piece() == WK));
    let mut black = board_with(&[(2, 1, BM), (0, 0, WM)]);
    let plies = black.get_legal_plies(Color::Black);
    assert_eq!(texts(&plies), vec!["c2-b1p", "c2-d1p"]);
    assert!(plies.iter().all(|p| p.promoted() && p.piece() == BK));
    let mut jump = board_with(&[(2, 5, WM), (3, 6, BM), (0, 7, BM)]);
    let plies = jump.get_legal_plies(Color::White);
    assert_eq!(texts(&plies), vec!["c6-e8pxd7"]);
    assert_eq!(plies[0].piece(), WK);
}

#[test]
fn a_man_crowned_in_a_chain_goes_on_as_a_king() {
    let mut board = board_with(&[(2, 5, WM), (3, 6, BM), (5, 6, BM)]);
    let plies = board.get_legal_plies(Color::White);
    assert_eq!(texts(&plies), vec!["c6-g6pxd7xf7"]);
    assert_eq!(plies[0].piece(), WK);
    assert!(plies[0].promoted());
    assert_eq!(plies[0].from(), sq(2, 5));
    assert_eq!(plies[0].to(), sq(6, 5));
}

#[test]
fn a_king_steps_one_square_in_four_directions() {
    let mut board = board_with(&[(3, 3, WK), (7, 7, BM)]);
    let plies = board.get_legal_plies(Color::White);
    assert_eq!(texts(&plies), vec!["d4-c5", "d4-e5", "d4-c3", "d4-e3"]);
    assert!(plies.iter().all(|p| p.piece() == WK && !p.promoted()));
    let mut black = board_with(&[(3, 3, BK), (0, 0, WM)]);
    assert_eq!(
        texts(&black.get_legal_plies(Color::Black)),
        vec!["d4-c3", "d4-e3", "d4-c5", "d4-e5"]
    );
}

#[test]
fn a_king_captures_backwards_and_may_return_to_its_square() {
    let mut back = board_with(&[(3, 3, WK), (2, 2, BM)]);
    assert_eq!(texts(&back.get_legal_plies(Color::White)), vec!["d4-b2xc3"]);
    let mut round = board_with(&[(2, 2, WK), (3, 3, BM), (5, 3, BM), (5, 1, BM), (3, 1, BM)]);
    let plies = round.get_legal_plies(Color::White);
    assert_eq!(texts(&plies), vec!["c3-c3xd4xf4xf2xd2", "c3-c3xd2xf2xf4xd4"]);
}

#[test]
fn a_king_on_the_far_rank_is_marked_as_promoted() {
    let mut board = board_with(&[(3, 6, WK), (7, 0, BM)]);
    let plies = board.get_legal_plies(Color::White);
    assert_eq!(texts(&plies), vec!["d7-c8p", "d7-e8p", "d7-c6", "d7-e6"]);
    assert!(plies.iter().all(|p| p.piece() == WK));
}

#[test]
fn plies_of_one_square() {
    let board = board_with(&[(2, 2, WM), (3, 3, BM), (0, 0, WM)]);
    let (captured, plies) = board.get_legal_plies_for(sq(2, 2), Color::White, false);
    assert!(captured);
    assert_eq!(texts(&plies), vec!["c3-e5xd4"]);
    let (captured, plies) = board.get_legal_plies_for(sq(0, 0), Color::White, false);
    assert!(!captured);
    assert_eq!(texts(&plies), vec!["a1-b2"]);
    let (captured, plies) = board.get_legal_plies_for(sq(0, 0), Color::White, true);
    assert!(captured);
    assert!(plies.is_empty());
    let (captured, plies) = board.get_legal_plies_for(sq(2, 2), Color::Black, true);
    assert!(!captured);
    assert!(plies.is_empty());
    let (captured, plies) = board.get_legal_plies_for(sq(5, 5), Color::White, true);
    assert!(!captured);
    assert!(plies.is_empty());
    let (captured, plies) = board.get_legal_plies_for(sq(3, 3), Color::Black, false);
    assert!(captured);
    assert_eq!(texts(&plies), vec!["d4-b2xc3"]);
}

#[test]
fn generating_twice_gives_the_same_list() {
    let mut board = BitBoard::default();
    let first = board.get_legal_plies(Color::White);
    let second = board.get_legal_plies(Color::White);
    assert_eq!(first, second);
    let black = board.get_legal_plies(Color::Black);
    assert_ne!(black, first);
    let third = board.get_legal_plies(Color::White);
    assert_eq!(third, first);
}

#[test]
fn a_change_of_the_board_is_seen_by_the_next_generation() {
    let mut board = board_with(&[(2, 2, WM), (7, 7, BM)]);
    assert_eq!(texts(&board.get_legal_plies(Color::White)), vec!["c3-b4", "c3-d4"]);
    board.set_piece(sq(3, 3), BM);
    assert_eq!(texts(&board.get_legal_plies(Color::White)), vec!["c3-e5xd4"]);
    board.remove_piece(sq(3, 3));
    assert_eq!(texts(&board.get_legal_plies(Color::White)), vec!["c3-b4", "c3-d4"]);
    board.remove_pieces(&[sq(2, 2)]);
    assert!(board.get_legal_plies(Color::White).is_empty());
    board.set_piece(sq(2, 2), WM);
    let ply = PlyBuilder::new(WM, sq(2, 2)).step(sq(3, 3)).build();
    board.ply(ply);
    assert_eq!(texts(&board.get_legal_plies(Color::White)), vec!["d4-c5", "d4-e5"]);
}

#[test]
fn gamestate_goes_by_the_list_generated_last() {
    let mut board = BitBoard::default();
    assert_eq!(board.get_gamestate(), GameState::Win(Color::Black));
    board.get_legal_plies(Color::White);
    assert_eq!(board.get_gamestate(), GameState::OnGoing);
    board.get_legal_plies(Color::Black);
    assert_eq!(board.get_gamestate(), GameState::OnGoing);
    let mut stuck = board_with(&[(0, 0, WM), (1, 1, BM), (2, 2, BM)]);
    assert!(stuck.get_legal_plies(Color::White).is_empty());
    assert_eq!(stuck.get_gamestate(), GameState::Win(Color::Black));
    assert_eq!(texts(&stuck.get_legal_plies(Color::Black)), vec!["b2-c1p", "c3-d2"]);
    assert_eq!(stuck.get_gamestate(), GameState::OnGoing);
    stuck.remove_piece(sq(2, 2));
    assert_eq!(stuck.get_gamestate(), GameState::OnGoing);
}

#[test]
fn a_side_without_pieces_has_lost() {
    let mut white_only = board_with(&[(2, 2, WM)]);
    assert_eq!(white_only.get_gamestate(), GameState::Win(Color::White));
    white_only.get_legal_plies(Color::White);
    assert_eq!(white_only.get_gamestate(), GameState::Win(Color::White));
    let mut black_only = board_with(&[(2, 2, BK)]);
    assert_eq!(black_only.get_gamestate(), GameState::Win(Color::Black));
    black_only.get_legal_plies(Color::Black);
    assert_eq!(black_only.get_gamestate(), GameState::Win(Color::Black));
    assert_eq!(BitBoard::empty().get_gamestate(), GameState::Win(Color::Black));
}

#[test]
fn a_clone_keeps_board_and_list() {
    let mut board = BitBoard::default();
    board.get_legal_plies(Color::White);
    let mut copy = board.clone();
    assert_eq!(copy, board);
    assert_ne!(copy, BitBoard::default());
    assert_eq!(copy.get_gamestate(), GameState::OnGoing);
    assert_eq!(copy.state_hash(), board.state_hash());
    assert_eq!(copy.get_legal_plies(Color::White), board.get_legal_plies(Color::White));
    let boxed = board.clone_box();
    assert_eq!(boxed.state_hash(), board.state_hash());
    assert_eq!(boxed.get_gamestate(), GameState::OnGoing);
    copy.remove_piece(sq(0, 0));
    assert_eq!(board.get_piece(sq(0, 0)), Some(WM));
    assert_eq!(copy.get_gamestate(), GameState::OnGoing);
}
