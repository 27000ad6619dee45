use keres_engine::board::{Board, Color, Piece, PieceType, Position};
use keres_engine::engine::config::ScoringWeights;
use keres_engine::engine::gpu_batch_processor::{serialize_boards, CpuEvaluator};
use keres_engine::engine::gpu_batch_sim::{board_to_gpu, collect_results, decode_move_buffer, gpu_to_board, prepare_batch};
use keres_engine::game::Game;
use keres_engine::tui::{App, GameState};

#[test]
fn app_starts_selecting_a_piece() {
    let app = App::new();
    assert_eq!(app.game_state(), GameState::SelectingPiece);
    assert_eq!(app.cursor_position(), Position::new(0, 0));
    assert!(app.highlighted_moves().is_empty());
}

#[test]
fn app_on_finished_game_shows_winner() {
    let mut b = Board::new();
    b.set_game_over(true, true, false);
    b.set_white_to_move(false);
    let app = App::from_game(Game::from_board(b));
    assert_eq!(app.game_state(), GameState::GameOver { winner: Color::White });
}

#[test]
fn app_plays_a_soldier_move() {
    let mut app = App::new();
    // White soldier on C3 (x=2, y=6) moves diagonally forward.
    app.move_cursor(2, 6);
    assert_eq!(app.cursor_position(), Position::new(2, 6));
    assert!(!app.highlighted_moves().is_empty());
    app.handle_enter().unwrap();
    assert_eq!(app.game_state(), GameState::SelectingTarget { from: Position::new(2, 6) });
    let target = app.highlighted_moves()[0];
    app.move_cursor(target.x as isize - 2, target.y as isize - 6);
    app.handle_enter().unwrap();
    assert_eq!(app.game_state(), GameState::SelectingPiece);
    assert!(!app.game().board.is_white_to_move());
    assert!(app.game().board.get_piece(&Position::new(2, 6)).is_none());
    assert!(app.game().board.get_piece(&target).is_some());
}

#[test]
fn app_escape_steps_back() {
    let mut app = App::new();
    app.move_cursor(2, 6);
    app.handle_enter().unwrap();
    app.handle_escape();
    assert_eq!(app.game_state(), GameState::SelectingPiece);
    assert!(app.highlighted_moves().is_empty());
}

#[test]
fn app_cursor_stays_on_board() {
    let mut app = App::new();
    app.move_cursor(-1, 0);
    assert_eq!(app.cursor_position(), Position::new(0, 0));
    app.move_cursor(8, 8);
    assert_eq!(app.cursor_position(), Position::new(8, 8));
    app.move_cursor(1, 0);
    assert_eq!(app.cursor_position(), Position::new(8, 8));
}

#[test]
fn app_offers_the_unstack_choice() {
    let mut b = Board::empty();
    b.set_piece(&Position::new(4, 8), Some(Piece::new(Color::White, PieceType::King, None)));
    b.set_piece(&Position::new(4, 0), Some(Piece::new(Color::Black, PieceType::King, None)));
    b.set_piece(&Position::new(2, 4), Some(Piece::new(Color::White, PieceType::Guard, Some(PieceType::Soldier))));
    let mut app = App::from_game(Game::from_board(b));
    app.move_cursor(2, 4);
    app.handle_enter().unwrap();
    // The soldier on top moves diagonally forward to B6 (x=1, y=3).
    app.move_cursor(-1, -1);
    app.handle_enter().unwrap();
    assert_eq!(
        app.game_state(),
        GameState::ConfirmUnstack { from: Position::new(2, 4), to: Position::new(1, 3), unstack: false }
    );
    app.handle_unstack_confirm().unwrap();
    assert_eq!(app.game_state(), GameState::SelectingPiece);
    let left = app.game().board.get_piece(&Position::new(2, 4)).unwrap();
    assert_eq!((left.bottom, left.top), (PieceType::Guard, None));
    let moved = app.game().board.get_piece(&Position::new(1, 3)).unwrap();
    assert_eq!((moved.bottom, moved.top), (PieceType::Soldier, None));
}

#[test]
fn piece_display_shows_stacks() {
    let app = App::new();
    assert_eq!(app.get_piece_display(&Piece::new(Color::White, PieceType::Guard, Some(PieceType::Soldier))), "S+G");
    assert_eq!(app.get_piece_display(&Piece::new(Color::Black, PieceType::King, None)), " K ");
}

#[test]
fn serialized_boards_are_padded() {
    let boards = vec![Board::new(), Board::empty()];
    let blob = serialize_boards(&boards);
    assert_eq!(blob.len(), 168);
    assert_eq!(&blob[0..83], &Board::new().to_binary()[..]);
    assert_eq!(blob[83], 0);
    assert_eq!(&blob[84..167], &Board::empty().to_binary()[..]);
    assert_eq!(blob[167], 0);
}

#[test]
fn cpu_evaluator_start_is_balanced() {
    let eval = CpuEvaluator { weights: ScoringWeights::default() };
    assert_eq!(eval.raw_score(&Board::new()), 0);
    let mut b = Board::empty();
    b.set_piece(&Position::new(4, 4), Some(Piece::new(Color::White, PieceType::Soldier, None)));
    // 10 material, 8 centrality, 4 ranks advanced at 2 each.
    assert_eq!(eval.raw_score(&b), 26);
}

#[test]
fn gpu_layout_round_trip() {
    let mut bytes = [0u8; 82];
    bytes[40] = 0b1000001;
    bytes[81] = 1;
    let g = board_to_gpu(&bytes);
    assert_eq!(g.squares[40], 65);
    assert_eq!(g.white_to_move, 1);
    assert_eq!(gpu_to_board(&g), bytes);
    assert_eq!(
        prepare_batch(&[bytes], &[]).unwrap_err(),
        "boards and moves must have the same length"
    );
    let apps = prepare_batch(&[bytes, bytes], &[7, 9]).unwrap();
    assert_eq!(apps.len(), 2);
    assert_eq!(apps[1].move_encoding, 9);
    let results = collect_results(&apps, 1);
    assert_eq!(results.len(), 1);
    assert_eq!(results[0].board, bytes);
    assert!(!results[0].valid);
    assert_eq!(decode_move_buffer(&[0x1_0005, 6, 7], 2), vec![5, 6]);
}
