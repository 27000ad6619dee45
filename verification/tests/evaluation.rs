use keres_engine::board::{Board, Color, Piece, PieceType, Position};
use keres_engine::engine::constants::MATE_SCORE;
use keres_engine::engine::eval::king_safety::king_mobility_for;
use keres_engine::engine::eval::mobility::mobility_bonus;
use keres_engine::engine::eval::pins::pinned_malus;
use keres_engine::engine::eval::{evaluate, evaluate_absolute, evaluate_verbose, piece_value};
use keres_engine::game::Game;

#[test]
fn starting_position_is_zero() {
    let b = Board::new();
    let score = evaluate(&b);
    assert_eq!(score, 0, "symmetric start should score 0");
}

#[test]
fn terminal_draw_is_zero() {
    let mut b = Board::new();
    b.set_game_over(true, false, true);
    assert_eq!(evaluate(&b), 0);
}

#[test]
fn terminal_loss_is_negative_mate() {
    let mut b = Board::new();
    b.set_game_over(true, true, false);
    // After a king capture the turn has flipped, so the side to move is
    // always the loser.
    assert_eq!(evaluate(&b), -MATE_SCORE);
}

#[test]
fn piece_values_are_correct() {
    assert_eq!(piece_value(PieceType::Soldier), 10);
    assert_eq!(piece_value(PieceType::Guard), 25);
    assert_eq!(piece_value(PieceType::Paladin), 30);
    assert_eq!(piece_value(PieceType::Bishop), 40);
    assert_eq!(piece_value(PieceType::Knight), 40);
    assert_eq!(piece_value(PieceType::Ballista), 45);
    assert_eq!(piece_value(PieceType::Rook), 60);
    assert_eq!(piece_value(PieceType::King), 1000);
}

#[test]
fn material_counts_from_side_to_move() {
    let mut b = Board::empty();
    b.set_piece(&Position::new(4, 8), Some(Piece::new(Color::White, PieceType::King, None)));
    b.set_piece(&Position::new(4, 0), Some(Piece::new(Color::Black, PieceType::King, None)));
    b.set_piece(&Position::new(2, 2), Some(Piece::new(Color::White, PieceType::Guard, Some(PieceType::Soldier))));
    assert_eq!(evaluate(&b), 35);
    b.set_white_to_move(false);
    assert_eq!(evaluate(&b), -35);
}

#[test]
fn king_in_center_has_more_mobility_than_corner() {
    let mut board_center = Board::empty();
    let mut board_corner = Board::empty();
    let white_king = Piece::new(Color::White, PieceType::King, None);
    let black_king = Piece::new(Color::Black, PieceType::King, None);

    board_center.set_piece(&Position::new(4, 4), Some(white_king));
    board_center.set_piece(&Position::new(0, 0), Some(black_king));
    board_corner.set_piece(&Position::new(0, 8), Some(white_king));
    board_corner.set_piece(&Position::new(8, 0), Some(black_king));

    let game_center = Game::from_board(board_center);
    let game_corner = Game::from_board(board_corner);

    let mob_center = king_mobility_for(&game_center, Color::White);
    let mob_corner = king_mobility_for(&game_corner, Color::White);

    assert!(
        mob_center > mob_corner,
        "Center king should have more mobility: center={} corner={}",
        mob_center,
        mob_corner
    );
}

#[test]
fn king_mobility_exact_counts() {
    let mut board = Board::empty();
    board.set_piece(&Position::new(4, 4), Some(Piece::new(Color::White, PieceType::King, None)));
    board.set_piece(&Position::new(0, 0), Some(Piece::new(Color::Black, PieceType::King, None)));
    let game = Game::from_board(board);
    assert_eq!(king_mobility_for(&game, Color::White), 8);
    assert_eq!(king_mobility_for(&game, Color::Black), 3);
}

#[test]
fn mobility_rook_in_center_has_bonus() {
    let mut board = Board::empty();
    let white_rook = Piece::new(Color::White, PieceType::Rook, None);
    let white_king = Piece::new(Color::White, PieceType::King, None);
    let black_king = Piece::new(Color::Black, PieceType::King, None);
    board.set_piece(&Position::new(4, 4), Some(white_rook));
    board.set_piece(&Position::new(8, 8), Some(white_king));
    board.set_piece(&Position::new(0, 0), Some(black_king));
    let game = Game::from_board(board);
    let piece = game.board.get_piece(&Position::new(4, 4)).unwrap();
    let bonus = mobility_bonus(piece, Position::new(4, 4), &game);
    assert!(bonus > 0);
}

#[test]
fn mobility_rook_in_center_counts_sixteen_squares() {
    let mut board = Board::empty();
    board.set_piece(&Position::new(4, 4), Some(Piece::new(Color::White, PieceType::Rook, None)));
    board.set_piece(&Position::new(8, 8), Some(Piece::new(Color::White, PieceType::King, None)));
    board.set_piece(&Position::new(0, 0), Some(Piece::new(Color::Black, PieceType::King, None)));
    let game = Game::from_board(board);
    let piece = *game.board.get_piece(&Position::new(4, 4)).unwrap();
    assert_eq!(mobility_bonus(&piece, Position::new(4, 4), &game), 16);
}

#[test]
fn evaluate_initial_position_is_near_zero() {
    let game = Game::new();
    let score = evaluate_absolute(&game);
    assert!(score.abs() <= 50, "Initial position score should be near 0, got {}", score);
}

#[test]
fn evaluate_verbose_final_matches_absolute() {
    let game = Game::new();
    let abs = evaluate_absolute(&game);
    let verbose = evaluate_verbose(&game);
    assert_eq!(abs, verbose.final_score);
}

fn setup_pin(
    king_pos: Position,
    friendly_piece: Piece,
    friendly_pos: Position,
    enemy_piece: Piece,
    enemy_pos: Position,
) -> Board {
    let mut board = Board::empty();
    board.set_piece(&king_pos, Some(Piece::new(friendly_piece.color, PieceType::King, None)));
    board.set_piece(&friendly_pos, Some(friendly_piece));
    board.set_piece(&enemy_pos, Some(enemy_piece));
    board
}

#[test]
fn test_pinned_rook_orthogonal_ray() {
    let king_pos = Position::new(0, 8);
    let friendly_pos = Position::new(0, 7);
    let enemy_pos = Position::new(0, 0);
    let friendly_piece = Piece::new(Color::White, PieceType::Guard, None);
    let enemy_piece = Piece::new(Color::Black, PieceType::Rook, None);
    let board = setup_pin(king_pos, friendly_piece, friendly_pos, enemy_piece, enemy_pos);
    let malus = pinned_malus(&board, Color::White);
    assert!(malus > 0, "Expected pin malus but got 0");
}

#[test]
fn test_pinned_bishop_diagonal_ray() {
    let king_pos = Position::new(0, 8);
    let friendly_pos = Position::new(1, 7);
    let enemy_pos = Position::new(2, 6);
    let friendly_piece = Piece::new(Color::White, PieceType::Soldier, None);
    let enemy_piece = Piece::new(Color::Black, PieceType::Bishop, None);
    let board = setup_pin(king_pos, friendly_piece, friendly_pos, enemy_piece, enemy_pos);
    let malus = pinned_malus(&board, Color::White);
    assert!(malus > 0, "Expected diagonal pin malus but got 0");
}

#[test]
fn test_no_pin_when_blocked() {
    let mut board = Board::empty();
    board.set_piece(&Position::new(0, 8), Some(Piece::new(Color::White, PieceType::King, None)));
    board.set_piece(&Position::new(0, 7), Some(Piece::new(Color::White, PieceType::Soldier, None)));
    board.set_piece(&Position::new(0, 6), Some(Piece::new(Color::White, PieceType::Rook, None)));
    board.set_piece(&Position::new(0, 0), Some(Piece::new(Color::Black, PieceType::Rook, None)));
    let malus = pinned_malus(&board, Color::White);
    assert_eq!(malus, 0, "No pin should be detected with two blockers");
}

#[test]
fn pinned_guard_costs_half_its_value() {
    let board = setup_pin(
        Position::new(0, 8),
        Piece::new(Color::White, PieceType::Guard, None),
        Position::new(0, 7),
        Piece::new(Color::Black, PieceType::Rook, None),
        Position::new(0, 0),
    );
    assert_eq!(pinned_malus(&board, Color::White), 12);
    assert_eq!(pinned_malus(&board, Color::Black), 0);
}
