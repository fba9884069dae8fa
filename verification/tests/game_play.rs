use chess::board::Board;
use chess::board_state::BoardState;
use chess::castling_rights::{CastlingRights, CastlingRightsKind};
use chess::color::Color;
use chess::game::{Game, GameStatus};
use chess::moves::Move;
use chess::piece::Piece;
use chess::position::Position;
use chess::result::ChessError;

fn sq(name: &str) -> Position {
    let b = name.as_bytes();
    Position { x: (b[0] - b'a') as usize, y: (b[1] - b'1') as usize }
}

fn play(game: &mut Game, from: &str, to: &str) {
    assert_eq!(game.move_piece(sq(from), sq(to)), Ok(()));
}

fn no_rights() -> CastlingRights {
    CastlingRights {
        white_kingside: false,
        white_queenside: false,
        black_kingside: false,
        black_queenside: false,
    }
}

fn position(pieces: &[(&str, Piece)], player: Color) -> BoardState {
    let mut board = Board::new();
    let mut white_king = sq("e1");
    let mut black_king = sq("e8");
    for (name, piece) in pieces {
        board.set_piece(&sq(name), Some(*piece));
        if *piece == Piece::King(Color::White) {
            white_king = sq(name);
        }
        if *piece == Piece::King(Color::Black) {
            black_king = sq(name);
        }
    }
    BoardState {
        player,
        board,
        castling_rights: no_rights(),
        en_passant_position: None,
        white_king_position: white_king,
        black_king_position: black_king,
    }
}

fn count_kings(state: &BoardState, color: Color) -> usize {
    let mut n = 0;
    for y in 0..8 {
        for x in 0..8 {
            if state.get_piece(&Position { x, y }) == Some(Piece::King(color)) {
                n += 1;
            }
        }
    }
    n
}

#[test]
fn start_position_has_twenty_legal_moves() {
    let game = Game::new();
    assert_eq!(game.get_valid_moves().len(), 20);
    assert_eq!(game.get_status(), GameStatus::Ongoing);
    assert_eq!(game.get_piece(&sq("e1")), Some(Piece::King(Color::White)));
    assert_eq!(game.get_piece(&sq("d8")), Some(Piece::Queen(Color::Black)));
    assert_eq!(game.get_piece(&sq("e4")), None);
    assert!(game.has_piece(&sq("a2")));
    assert!(!game.has_piece(&Position { x: 8, y: 0 }));
}

#[test]
fn scholars_mate_is_checkmate() {
    let mut game = Game::new();
    play(&mut game, "e2", "e4");
    play(&mut game, "e7", "e5");
    play(&mut game, "f1", "c4");
    play(&mut game, "b8", "c6");
    play(&mut game, "d1", "h5");
    play(&mut game, "g8", "f6");
    play(&mut game, "h5", "f7");
    assert_eq!(game.get_status(), GameStatus::Checkmate);
    assert!(game.get_valid_moves().is_empty());
    assert_eq!(game.get_piece(&sq("f7")), Some(Piece::Queen(Color::White)));
    let before = game.get_history().len();
    assert_eq!(game.move_piece(sq("e8"), sq("f7")), Ok(()));
    assert_eq!(game.get_history().len(), before);
}

#[test]
fn pawn_capture_resets_the_clock() {
    let mut game = Game::new();
    play(&mut game, "e2", "e4");
    assert_eq!(game.get_history().get_half_move_count(), 0);
    play(&mut game, "d7", "d5");
    assert_eq!(game.get_history().get_half_move_count(), 0);
    play(&mut game, "e4", "d5");
    assert_eq!(game.get_piece(&sq("d5")), Some(Piece::Pawn(Color::White)));
    assert_eq!(game.get_piece(&sq("e4")), None);
    assert_eq!(game.get_history().get_half_move_count(), 0);
    assert_eq!(game.get_history().get_fifty_move_count(), 0);
}

#[test]
fn clock_counts_quiet_plies_and_halves_for_full_moves() {
    let mut game = Game::new();
    play(&mut game, "g1", "f3");
    play(&mut game, "g8", "f6");
    play(&mut game, "f3", "g1");
    assert_eq!(game.get_history().get_half_move_count(), 3);
    assert_eq!(game.get_history().get_fifty_move_count(), 1);
    play(&mut game, "f6", "g8");
    assert_eq!(game.get_history().get_half_move_count(), 4);
    assert_eq!(game.get_history().get_fifty_move_count(), 2);
    play(&mut game, "a2", "a3");
    assert_eq!(game.get_history().get_half_move_count(), 0);
}

#[test]
fn bishops_on_opposite_colours_can_still_mate() {
    let opposite = position(
        &[
            ("e1", Piece::King(Color::White)),
            ("e8", Piece::King(Color::Black)),
            ("c1", Piece::Bishop(Color::White)),
            ("c8", Piece::Bishop(Color::Black)),
        ],
        Color::White,
    );
    assert!(!opposite.has_insufficient_material());
    let same = position(
        &[
            ("e1", Piece::King(Color::White)),
            ("e8", Piece::King(Color::Black)),
            ("c1", Piece::Bishop(Color::White)),
            ("f8", Piece::Bishop(Color::Black)),
        ],
        Color::White,
    );
    assert!(same.has_insufficient_material());
}

#[test]
fn bare_kings_and_single_minors_are_draws() {
    let wk = ("e1", Piece::King(Color::White));
    let bk = ("e8", Piece::King(Color::Black));
    assert!(position(&[wk, bk], Color::White).has_insufficient_material());
    assert!(position(&[wk, bk, ("b1", Piece::Knight(Color::White))], Color::White)
        .has_insufficient_material());
    assert!(position(&[wk, bk, ("c8", Piece::Bishop(Color::Black))], Color::White)
        .has_insufficient_material());
    assert!(!position(&[wk, bk, ("a2", Piece::Pawn(Color::White))], Color::White)
        .has_insufficient_material());
    assert!(!position(&[wk, bk, ("a1", Piece::Rook(Color::Black))], Color::White)
        .has_insufficient_material());
    assert!(!position(&[wk, bk, ("d1", Piece::Queen(Color::White))], Color::White)
        .has_insufficient_material());
    assert!(!position(
        &[wk, bk, ("b1", Piece::Knight(Color::White)), ("g1", Piece::Knight(Color::White))],
        Color::White
    )
    .has_insufficient_material());
    assert!(!position(
        &[wk, bk, ("b1", Piece::Knight(Color::White)), ("g8", Piece::Knight(Color::Black))],
        Color::White
    )
    .has_insufficient_material());
    assert!(!BoardState::default().has_insufficient_material());
}

#[test]
fn rook_that_returns_home_has_lost_its_right() {
    let mut game = Game::new();
    play(&mut game, "g1", "f3");
    play(&mut game, "a7", "a6");
    assert!(game.has_castling_right(CastlingRightsKind::WhiteKingside));
    play(&mut game, "h1", "g1");
    assert!(!game.has_castling_right(CastlingRightsKind::WhiteKingside));
    play(&mut game, "a6", "a5");
    play(&mut game, "g1", "h1");
    assert_eq!(game.get_piece(&sq("h1")), Some(Piece::Rook(Color::White)));
    assert!(!game.has_castling_right(CastlingRightsKind::WhiteKingside));
    assert!(game.has_castling_right(CastlingRightsKind::WhiteQueenside));
    assert!(game.has_castling_right(CastlingRightsKind::BlackKingside));
    game.go_to_beginning();
    assert!(game.has_castling_right(CastlingRightsKind::WhiteKingside));
    game.resume();
    assert!(!game.has_castling_right(CastlingRightsKind::WhiteKingside));
}

#[test]
fn replay_browses_without_changing_the_log() {
    let mut game = Game::new();
    play(&mut game, "e2", "e4");
    play(&mut game, "e7", "e5");
    play(&mut game, "g1", "f3");
    let one_before_latest = *game.get_history().get_board_state(2);
    let latest = *game.get_history().get_real_state();
    game.go_back_a_turn();
    assert_eq!(game.get_status(), GameStatus::Replay);
    game.go_back_a_turn();
    assert_eq!(game.get_status(), GameStatus::Replay);
    game.go_forward_a_turn();
    assert_eq!(game.get_status(), GameStatus::Replay);
    assert_eq!(*game.get_current_state(), one_before_latest);
    assert_eq!(game.move_piece(sq("g1"), sq("f3")), Ok(()));
    assert_eq!(game.get_history().len(), 3);
    assert_eq!(*game.get_current_state(), one_before_latest);
    game.go_forward_a_turn();
    assert_eq!(game.get_status(), GameStatus::Ongoing);
    assert_eq!(*game.get_current_state(), latest);
}

#[test]
fn replay_from_the_start_reproduces_every_snapshot() {
    let mut game = Game::new();
    let mut recorded = vec![*game.get_current_state()];
    for (from, to) in [("d2", "d4"), ("d7", "d5"), ("c1", "f4"), ("b8", "c6")] {
        play(&mut game, from, to);
        recorded.push(*game.get_current_state());
    }
    game.go_to_beginning();
    assert_eq!(game.get_status(), GameStatus::Replay);
    for expected in recorded.iter().take(4) {
        assert_eq!(game.get_current_state(), expected);
        game.go_forward_a_turn();
    }
    assert_eq!(*game.get_current_state(), recorded[4]);
    assert_eq!(game.get_status(), GameStatus::Ongoing);
    game.go_to_beginning();
    game.resume();
    assert_eq!(*game.get_current_state(), recorded[4]);
    assert_eq!(game.get_status(), GameStatus::Ongoing);
}

#[test]
fn en_passant_takes_the_pawn_beside_the_target() {
    let mut game = Game::new();
    play(&mut game, "e2", "e4");
    assert_eq!(game.get_current_state().en_passant_position, Some(sq("e3")));
    play(&mut game, "a7", "a6");
    assert_eq!(game.get_current_state().en_passant_position, None);
    play(&mut game, "e4", "e5");
    play(&mut game, "d7", "d5");
    assert_eq!(game.get_current_state().en_passant_position, Some(sq("d6")));
    play(&mut game, "e5", "d6");
    assert_eq!(game.get_piece(&sq("d6")), Some(Piece::Pawn(Color::White)));
    assert_eq!(game.get_piece(&sq("d5")), None);
    assert_eq!(game.get_piece(&sq("e5")), None);
    assert_eq!(game.get_current_state().en_passant_position, None);
}

#[test]
fn refused_moves_change_nothing() {
    let mut game = Game::new();
    assert_eq!(game.move_piece(sq("e2"), sq("e5")), Err(ChessError::InvalidMove));
    assert_eq!(game.move_piece(sq("e7"), sq("e5")), Err(ChessError::InvalidMove));
    assert_eq!(
        game.move_piece(sq("e2"), Position { x: 4, y: 8 }),
        Err(ChessError::OutOfBounds)
    );
    assert_eq!(game.move_piece(sq("e4"), sq("e5")), Ok(()));
    assert_eq!(game.get_history().len(), 0);
    assert_eq!(
        game.is_move_valid(&Move::new(sq("e4"), sq("e5"))),
        Err(ChessError::NoPieceAtPosition)
    );
    assert_eq!(
        game.is_move_valid(&Move::new(Position { x: 9, y: 9 }, sq("e5"))),
        Err(ChessError::OutOfBounds)
    );
    assert_eq!(game.is_move_valid(&Move::new(sq("e2"), sq("e4"))), Ok(()));
    assert_eq!(game.is_piece_some(&sq("e4")), Err(ChessError::NoPieceAtPosition));
    assert_eq!(BoardState::is_in_bounds(&Position { x: 8, y: 0 }), Err(ChessError::OutOfBounds));
    assert_eq!(BoardState::is_in_bounds(&sq("h8")), Ok(()));
}

#[test]
fn every_recorded_snapshot_has_one_king_each() {
    let mut game = Game::new();
    for (from, to) in [
        ("e2", "e4"),
        ("e7", "e5"),
        ("g1", "f3"),
        ("b8", "c6"),
        ("f1", "c4"),
        ("f8", "c5"),
        ("e1", "g1"),
    ] {
        play(&mut game, from, to);
    }
    for turn in 0..=game.get_history().len() {
        let state = game.get_history().get_board_state(turn);
        assert_eq!(count_kings(state, Color::White), 1);
        assert_eq!(count_kings(state, Color::Black), 1);
    }
    assert_eq!(game.get_piece(&sq("g1")), Some(Piece::King(Color::White)));
    assert_eq!(game.get_piece(&sq("f1")), Some(Piece::Rook(Color::White)));
    assert_eq!(game.get_piece(&sq("h1")), None);
    assert_eq!(game.get_current_state().white_king_position, sq("g1"));
    assert!(!game.has_castling_right(CastlingRightsKind::WhiteKingside));
    assert!(!game.has_castling_right(CastlingRightsKind::WhiteQueenside));
}

#[test]
fn check_is_reported_and_stalemate_is_not_mate() {
    let mut game = Game::new();
    play(&mut game, "e2", "e4");
    play(&mut game, "f7", "f6");
    play(&mut game, "d1", "h5");
    assert_eq!(game.get_status(), GameStatus::Check);
    assert_eq!(game.get_valid_moves().len(), 1);
    assert_eq!(game.get_valid_moves()[0], Move::new(sq("g7"), sq("g6")));

    let stalemate = position(
        &[
            ("a8", Piece::King(Color::Black)),
            ("c7", Piece::Queen(Color::White)),
            ("c6", Piece::King(Color::White)),
        ],
        Color::White,
    );
    let mut game = Game::with_state(stalemate);
    assert_eq!(game.move_piece(sq("c6"), sq("b6")), Ok(()));
    assert_eq!(game.get_status(), GameStatus::Stalemate);
    assert!(game.get_valid_moves().is_empty());
}

#[test]
fn pawn_reaching_the_far_rank_becomes_a_queen() {
    let start = position(
        &[
            ("e1", Piece::King(Color::White)),
            ("h8", Piece::King(Color::Black)),
            ("a7", Piece::Pawn(Color::White)),
        ],
        Color::White,
    );
    let mut game = Game::with_state(start);
    play(&mut game, "a7", "a8");
    assert_eq!(game.get_piece(&sq("a8")), Some(Piece::Queen(Color::White)));
    assert_eq!(game.get_status(), GameStatus::Check);
}

#[test]
fn no_published_move_leaves_the_own_king_to_be_taken() {
    let mut game = Game::new();
    for (from, to) in [("e2", "e4"), ("f7", "f6"), ("d1", "h5"), ("g7", "g6"), ("h5", "g6")] {
        play(&mut game, from, to);
        let state = *game.get_current_state();
        let pseudo = Game::add_moves(&state);
        assert!(pseudo.len() >= game.get_valid_moves().len());
        for mv in game.get_valid_moves() {
            assert!(pseudo.contains(mv));
            let mut next = state;
            next.move_piece(mv);
            assert!(!Game::is_attacking_king(&next));
        }
        for mv in &pseudo {
            let mut next = state;
            next.move_piece(mv);
            assert_eq!(!Game::is_attacking_king(&next), game.get_valid_moves().contains(mv));
        }
        assert_eq!(Game::legal_moves(&state).len(), game.get_valid_moves().len());
    }
    assert_eq!(game.get_status(), GameStatus::Check);
    assert!(Game::is_king_under_attack(game.get_current_state()));
}

#[test]
fn castling_needs_the_right_and_an_empty_path() {
    let mut game = Game::new();
    assert!(!game.get_valid_moves().contains(&Move::new(sq("e1"), sq("g1"))));
    for (from, to) in [("g1", "f3"), ("g8", "f6"), ("e2", "e3"), ("e7", "e6"), ("f1", "e2"), ("f8", "e7")] {
        play(&mut game, from, to);
    }
    assert!(game.get_valid_moves().contains(&Move::new(sq("e1"), sq("g1"))));
    assert!(!game.get_valid_moves().contains(&Move::new(sq("e1"), sq("c1"))));
    play(&mut game, "e1", "g1");
    play(&mut game, "e8", "g8");
    assert_eq!(game.get_piece(&sq("f8")), Some(Piece::Rook(Color::Black)));
    assert_eq!(game.get_piece(&sq("g8")), Some(Piece::King(Color::Black)));
    assert_eq!(game.get_current_state().black_king_position, sq("g8"));
    assert!(!game.has_castling_right(CastlingRightsKind::BlackKingside));
    assert!(!game.has_castling_right(CastlingRightsKind::BlackQueenside));
    assert_eq!(game.get_current_player(), Color::White);
}
