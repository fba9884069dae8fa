use chess::analysis::{analysis_entry, analysis_line, get_info, parse_index};
use chess::board_state::BoardState;
use chess::color::Color;
use chess::displacement::Displacement;
use chess::game::Game;
use chess::history::History;
use chess::moves::Move;
use chess::piece::Piece;
use chess::player::{Player, PlayerKind};
use chess::position::Position;

#[test]
fn coordinate_text_names_a_move() {
    assert_eq!(
        Move::from_lan("e2e4"),
        Some(Move::new(Position::new(4, 1), Position::new(4, 3)))
    );
    assert_eq!(
        Move::from_lan("a7a8q"),
        Some(Move::new(Position::new(0, 6), Position::new(0, 7)))
    );
    assert_eq!(Move::from_lan("e2e"), None);
    assert_eq!(Move::from_lan(""), None);
    assert_eq!(Move::from_lan("E2e4"), None);
    assert_eq!(Move::from_lan("e0e4"), None);
    assert_eq!(
        Move::from_lan("z9a1"),
        Some(Move::new(Position::new(25, 8), Position::new(0, 0)))
    );
}

#[test]
fn move_text_is_figurine_and_destination() {
    let mv = Move::new(Position::new(4, 1), Position::new(4, 3));
    assert_eq!(mv.to_str(Piece::Pawn(Color::White)), "♟e4");
    assert_eq!(mv.to_str(Piece::Queen(Color::Black)), "♕e4");
    let off = Move::new(Position::new(4, 1), Position::new(8, 3));
    assert_eq!(off.to_str(Piece::King(Color::White)), "♚??");
    assert_eq!(mv.get_positions(), [Position::new(4, 1), Position::new(4, 3)]);
    assert_eq!(Move::default(), Move::new(Position::new(0, 0), Position::new(0, 0)));
}

#[test]
fn rounds_pair_the_moves_and_mark_the_viewed_round() {
    let mut game = Game::new();
    assert!(game.get_rounds_info().is_empty());
    assert_eq!(game.move_piece(Position::new(4, 1), Position::new(4, 3)), Ok(()));
    assert_eq!(game.move_piece(Position::new(4, 6), Position::new(4, 4)), Ok(()));
    assert_eq!(game.move_piece(Position::new(6, 0), Position::new(5, 2)), Ok(()));
    let rounds = game.get_rounds_info();
    assert_eq!(rounds.len(), 2);
    assert_eq!(rounds[0], ("♟e4".to_string(), "♙e5".to_string(), false));
    assert_eq!(rounds[1], ("♞f3".to_string(), String::new(), true));
    game.go_to_beginning();
    let rounds = game.get_rounds_info();
    assert!(rounds[0].2);
    assert!(!rounds[1].2);
    assert_eq!(game.get_history().current_round(), 1);
    assert_eq!(game.get_info_for_turn(2).mv, Move::new(Position::new(6, 0), Position::new(5, 2)));
}

#[test]
fn word_after_a_key_is_found() {
    let line = "info depth 16 seldepth 22 multipv 3 score cp 31 nodes 5 pv e2e4 e7e5";
    assert_eq!(get_info(line, "multipv"), Some("3".to_string()));
    assert_eq!(get_info(line, " pv"), Some("e2e4".to_string()));
    assert_eq!(get_info(line, "score cp"), Some("31".to_string()));
    assert_eq!(get_info(line, "depth"), Some("16".to_string()));
    assert_eq!(get_info(line, "hashfull"), None);
    assert_eq!(get_info(line, "(unclosed"), None);
    assert_eq!(get_info("bestmove", "bestmove"), None);
}

#[test]
fn decimal_index_is_read_exactly() {
    assert_eq!(parse_index("0"), Some(0));
    assert_eq!(parse_index("8"), Some(8));
    assert_eq!(parse_index("0042"), Some(42));
    assert_eq!(parse_index(&usize::MAX.to_string()), Some(usize::MAX));
    assert_eq!(parse_index(&format!("{}0", usize::MAX)), None);
    assert_eq!(parse_index("99999999999999999999999999"), None);
    assert_eq!(parse_index(""), None);
    assert_eq!(parse_index("+5"), None);
    assert_eq!(parse_index("-1"), None);
    assert_eq!(parse_index("1a"), None);
}

#[test]
fn analysis_line_gives_rank_and_first_move() {
    let line = "info depth 16 multipv 3 score cp 31 pv g1f3 d7d5";
    assert_eq!(
        analysis_line(line),
        Some((2, Move::new(Position::new(6, 0), Position::new(5, 2))))
    );
    assert_eq!(analysis_line("info depth 16 score cp 31 pv g1f3"), None);
    assert_eq!(analysis_line("info multipv 0 pv g1f3"), None);
    assert_eq!(analysis_line("info multipv 2 pv g1"), None);
    assert_eq!(analysis_line("bestmove e2e4"), None);
    assert_eq!(
        analysis_entry(Some("1"), Some("e7e8")),
        Some((0, Move::new(Position::new(4, 6), Position::new(4, 7))))
    );
    assert_eq!(analysis_entry(None, Some("e7e8")), None);
    assert_eq!(analysis_entry(Some("x"), Some("e7e8")), None);
}

#[test]
fn players_start_local_and_unnamed() {
    let p = Player::with_color(Color::Black);
    assert_eq!(p.color, Color::Black);
    assert!(p.kind == PlayerKind::Local);
    assert_eq!(p.name, "");
    assert_eq!(Player::default().color, Color::White);
    assert_eq!(!Color::White, Color::Black);
    assert_eq!(Color::Black.opposite(), Color::White);
}

#[test]
fn piece_tables_match_the_way_pieces_move() {
    assert_eq!(Piece::Rook(Color::White).get_vectors().len(), 4);
    assert_eq!(Piece::Bishop(Color::Black).get_vectors().len(), 4);
    assert_eq!(Piece::Knight(Color::White).get_vectors().len(), 8);
    assert_eq!(Piece::Queen(Color::White).get_vectors().len(), 8);
    assert_eq!(Piece::King(Color::Black).get_vectors().len(), 8);
    assert!(Piece::Pawn(Color::White).get_vectors().is_empty());
    assert!(Piece::Knight(Color::White).get_vectors().contains(&Displacement::new(1, 2)));
    assert!(Piece::Queen(Color::White).can_snipe());
    assert!(!Piece::King(Color::White).can_snipe());
    assert!(!Piece::Knight(Color::White).can_snipe());
    assert!(Piece::Pawn(Color::Black).is_pawn());
    assert_eq!(Piece::Rook(Color::Black).get_player(), Color::Black);
    assert_eq!(Displacement::get_pawn_advance_vector(Color::Black), Displacement::new(0, -1));
    assert_eq!(
        Displacement::get_pawn_capture_vectors(Color::White),
        vec![Displacement::new(1, 1), Displacement::new(-1, 1)]
    );
}

#[test]
fn history_alone_keeps_log_cursor_and_clock() {
    let start = BoardState::default();
    let mut history = History::with_state(start);
    assert_eq!(history.len(), 0);
    assert!(!history.is_replaying());
    let mv = Move::new(Position::new(6, 0), Position::new(5, 2));
    let mut next = start;
    next.move_piece(&mv);
    history.add_info(next, mv);
    assert_eq!(history.len(), 1);
    assert_eq!(history.get_cursor(), 1);
    assert_eq!(history.get_half_move_count(), 1);
    assert_eq!(*history.get_real_state(), next);
    assert_eq!(history.clone_current_state(), next);
    history.previous_move();
    history.previous_move();
    assert_eq!(history.get_cursor(), 0);
    assert!(history.is_replaying());
    assert_eq!(*history.get_current_state(), start);
    history.next_move();
    history.next_move();
    assert_eq!(history.get_cursor(), 1);
    history.go_to_start();
    assert_eq!(history.get_cursor(), 0);
    history.resume();
    assert_eq!(history.get_cursor(), 1);
    assert_eq!(history.get_info_for_move(0).mv, mv);
}

#[test]
fn unplayable_positions_are_turned_away() {
    let mut no_black_king = BoardState::default();
    no_black_king.board.set_piece(&Position::new(4, 7), None);
    assert!(!no_black_king.is_consistent());
    assert!(Game::try_with_state(no_black_king).is_none());

    let mut king_en_prise = BoardState::default();
    king_en_prise.board.set_piece(&Position::new(4, 6), Some(Piece::Queen(Color::White)));
    assert!(king_en_prise.is_consistent());
    assert!(Game::try_with_state(king_en_prise).is_none());

    assert!(BoardState::default().is_consistent());
    let game = Game::try_with_state(BoardState::default());
    assert!(game.is_some());
    assert_eq!(game.unwrap().get_valid_moves().len(), 20);
}

#[test]
fn a_history_is_taken_up_only_if_it_follows_the_rules() {
    let mut game = Game::new();
    assert_eq!(game.move_piece(Position::new(4, 1), Position::new(4, 3)), Ok(()));
    assert_eq!(game.move_piece(Position::new(4, 6), Position::new(4, 4)), Ok(()));
    game.go_back_a_turn();
    let taken_up = Game::try_with_history(game.get_history().clone());
    assert!(taken_up.is_some());
    let taken_up = taken_up.unwrap();
    assert_eq!(taken_up.get_status(), chess::game::GameStatus::Replay);
    assert!(taken_up.get_current_state().same_as(game.get_current_state()));
    assert_eq!(taken_up.get_valid_moves().len(), 20);

    let start = BoardState::default();
    let mv = Move::new(Position::new(6, 0), Position::new(5, 2));
    let mut forged = History::with_state(start);
    forged.add_info(start, mv);
    assert!(Game::try_with_history(forged).is_none());

    let illegal = Move::new(Position::new(0, 0), Position::new(0, 4));
    let mut next = start;
    next.move_piece(&illegal);
    let mut jumped = History::with_state(start);
    jumped.add_info(next, illegal);
    assert!(Game::try_with_history(jumped).is_none());
    assert!(!next.same_as(&start));
    assert!(start.same_as(&BoardState::default()));
}

#[test]
fn a_move_is_written_as_source_arrow_destination() {
    let mv = Move::new(Position::new(4, 1), Position::new(4, 3));
    assert_eq!(mv.to_string(), "e2 -> e4");
    assert_eq!(Move::default().to_string(), "a1 -> a1");
    assert_eq!(Move::new(Position::new(7, 7), Position::new(9, 0)).to_string(), "h8 -> ??");
    assert_eq!(Position::default(), Position::new(0, 0));
    assert_eq!(Game::default().get_valid_moves().len(), 20);
    assert_eq!(History::default().len(), 0);
    assert_eq!(Piece::King(Color::White).symbol(), "♚");
}
