use base64::Engine as _;
use keres_engine::board::{Board, Color, Piece, PieceType, Position};
use keres_engine::cli::{create_game, game_from_move_text};
use keres_engine::game::{Game, Move};

fn mv(fx: usize, fy: usize, tx: usize, ty: usize, unstack: bool) -> Move {
    Move { from: Position::new(fx, fy), to: Position::new(tx, ty), unstack }
}

fn board_with(pieces: &[(usize, usize, Piece)]) -> Game {
    let mut b = Board::empty();
    for (x, y, p) in pieces {
        b.set_piece(&Position::new(*x, *y), Some(*p));
    }
    Game::from_board(b)
}

#[test]
fn apply_move_reports_an_empty_origin() {
    let mut game = board_with(&[]);
    assert_eq!(game.apply_move(mv(0, 0, 1, 1, false)).unwrap_err(), "No piece at 'from' position");
}

#[test]
fn apply_move_reports_unstacking_a_king() {
    let king = Piece::new(Color::White, PieceType::King, None);
    let mut game = board_with(&[(4, 4, king)]);
    assert_eq!(game.apply_move(mv(4, 4, 4, 3, true)).unwrap_err(), "Cannot unstack King");
    assert_eq!(game.apply_move_copy(mv(4, 4, 4, 3, true)).unwrap_err(), "Cannot unstack King");
}

#[test]
fn apply_move_reports_unstacking_a_single_piece() {
    let soldier = Piece::new(Color::White, PieceType::Soldier, None);
    let mut game = board_with(&[(4, 4, soldier)]);
    assert_eq!(game.apply_move(mv(4, 4, 4, 3, true)).unwrap_err(), "No top piece to unstack");
}

#[test]
fn apply_move_reports_stacking_on_a_king() {
    let soldier = Piece::new(Color::White, PieceType::Soldier, None);
    let king = Piece::new(Color::White, PieceType::King, None);
    let mut game = board_with(&[(4, 4, soldier), (4, 3, king)]);
    let before = game.board;
    assert_eq!(
        game.apply_move(mv(4, 4, 4, 3, false)).unwrap_err(),
        "Cannot complete move: Cannot stack onto this piece (King or already stacked)"
    );
    assert_eq!(game.board, before);
}

#[test]
fn apply_move_reports_stacking_a_stack() {
    let stack = Piece::new(Color::White, PieceType::Guard, Some(PieceType::Soldier));
    let guard = Piece::new(Color::White, PieceType::Guard, None);
    let mut game = board_with(&[(4, 4, stack), (4, 3, guard)]);
    assert_eq!(
        game.apply_move(mv(4, 4, 4, 3, false)).unwrap_err(),
        "Cannot complete move: Cannot stack an already stacked piece"
    );
}

#[test]
fn a_king_carrying_a_piece_moves_like_any_piece() {
    let loaded = Piece { color: Color::White, bottom: PieceType::King, top: Some(PieceType::Guard) };
    let mut game = board_with(&[(4, 4, loaded)]);
    let m = mv(4, 4, 4, 3, false);
    assert!(!game.promotes_loaded_king(&m));
    game.apply_move(m).unwrap();
    assert_eq!(*game.board.get_piece(&Position::new(4, 3)).unwrap(), loaded);
    assert!(game.board.get_piece(&Position::new(4, 4)).is_none());
}

#[test]
fn a_king_carrying_a_soldier_to_the_far_rank_is_flagged() {
    let loaded = Piece { color: Color::White, bottom: PieceType::King, top: Some(PieceType::Soldier) };
    let game = board_with(&[(4, 1, loaded)]);
    assert!(game.promotes_loaded_king(&mv(4, 1, 4, 0, false)));
    assert!(!game.promotes_loaded_king(&mv(4, 1, 4, 2, false)));
}

#[test]
fn create_game_reports_a_wrong_length() {
    let text = base64::engine::general_purpose::STANDARD.encode([1u8, 2, 3]);
    assert_eq!(create_game(Some(&text)).unwrap_err(), "Invalid data length: expected 82 bytes, got 3");
}

#[test]
fn create_game_reports_bad_base64() {
    let e = create_game(Some("@@@")).unwrap_err();
    assert!(e.starts_with("Failed to decode base64 string: "));
}

#[test]
fn move_text_replays_the_moves() {
    let bytes: [u8; 6] = [0xC5, 0x21, 0x16, 0x0F, 0x3A, 0x19];
    let text = base64::engine::general_purpose::STANDARD.encode(bytes);
    let game = game_from_move_text(&text).unwrap();
    let mut expected = Game::new();
    for chunk in bytes.chunks_exact(2) {
        expected.apply_move(Move::from_u16(u16::from_le_bytes([chunk[0], chunk[1]]))).unwrap();
    }
    assert_eq!(game.board, expected.board);
}

#[test]
fn move_text_reports_odd_data_and_bad_base64() {
    let text = base64::engine::general_purpose::STANDARD.encode([1u8, 2, 3]);
    assert_eq!(game_from_move_text(&text).unwrap_err(), "Move data must be an even number of bytes");
    assert!(game_from_move_text("@@@").unwrap_err().starts_with("Failed to decode base64 moves: "));
}

#[test]
fn move_text_reports_the_first_move_that_fails() {
    // A move from an empty square of the starting position (E5 to E4).
    let code = Move { from: Position::new(4, 4), to: Position::new(4, 5), unstack: false }.to_u16();
    let text = base64::engine::general_purpose::STANDARD.encode(code.to_le_bytes());
    assert_eq!(
        game_from_move_text(&text).unwrap_err(),
        "Failed to apply move E5E4: No piece at 'from' position"
    );
}
