use keres_engine::board::{Color, Piece, PieceType, Position};
use keres_engine::game::{Game, Move};

#[test]
fn test_soldier_promotion_to_paladin_white() {
    let mut game = Game::new();
    
    // Place a white soldier at position (4, 1) - near the top
    let soldier_pos = Position::new(4, 1);
    game.board.set_piece(&soldier_pos, Some(Piece::new(Color::White, PieceType::Soldier, None)));
    
    // Move the soldier to (3, 0) - top row (opposite side for white)
    let mv = Move {
        from: soldier_pos,
        to: Position::new(3, 0),
        unstack: false,
    };
    
    let result = game.apply_move_copy(mv);
    assert!(result.is_ok(), "Move should be valid");
    
    let new_board = result.unwrap();
    let piece = new_board.get_piece(&Position::new(3, 0));
    assert!(piece.is_some(), "Piece should be at destination");
    
    let piece = piece.unwrap();
    assert_eq!(piece.color, Color::White);
    assert_eq!(piece.bottom, PieceType::Paladin, "Soldier should be promoted to Paladin");
    assert_eq!(piece.top, None);
}

#[test]
fn test_soldier_promotion_to_paladin_black() {
    let mut game = Game::new();
    
    // Place a black soldier at position (4, 7) - near the bottom
    let soldier_pos = Position::new(4, 7);
    game.board.set_piece(&soldier_pos, Some(Piece::new(Color::Black, PieceType::Soldier, None)));
    
    // Move the soldier to (3, 8) - bottom row (opposite side for black)
    let mv = Move {
        from: soldier_pos,
        to: Position::new(3, 8),
        unstack: false,
    };
    
    let result = game.apply_move_copy(mv);
    assert!(result.is_ok(), "Move should be valid");
    
    let new_board = result.unwrap();
    let piece = new_board.get_piece(&Position::new(3, 8));
    assert!(piece.is_some(), "Piece should be at destination");
    
    let piece = piece.unwrap();
    assert_eq!(piece.color, Color::Black);
    assert_eq!(piece.bottom, PieceType::Paladin, "Soldier should be promoted to Paladin");
    assert_eq!(piece.top, None);
}

#[test]
fn test_ballista_promotion_to_commander_white() {
    let mut game = Game::new();
    
    // Place a white ballista at position (4, 1) - near the top
    let ballista_pos = Position::new(4, 1);
    game.board.set_piece(&ballista_pos, Some(Piece::new(Color::White, PieceType::Ballista, None)));
    
    // Move the ballista to (4, 0) - top row (opposite side for white)
    let mv = Move {
        from: ballista_pos,
        to: Position::new(4, 0),
        unstack: false,
    };
    
    let result = game.apply_move_copy(mv);
    assert!(result.is_ok(), "Move should be valid");
    
    let new_board = result.unwrap();
    let piece = new_board.get_piece(&Position::new(4, 0));
    assert!(piece.is_some(), "Piece should be at destination");
    
    let piece = piece.unwrap();
    assert_eq!(piece.color, Color::White);
    assert_eq!(piece.bottom, PieceType::Commander, "Ballista should be promoted to Commander");
    assert_eq!(piece.top, None);
}

#[test]
fn test_ballista_promotion_to_commander_black() {
    let mut game = Game::new();
    
    // Place a black ballista at position (4, 7) - near the bottom
    let ballista_pos = Position::new(4, 7);
    game.board.set_piece(&ballista_pos, Some(Piece::new(Color::Black, PieceType::Ballista, None)));
    
    // Move the ballista to (4, 8) - bottom row (opposite side for black)
    let mv = Move {
        from: ballista_pos,
        to: Position::new(4, 8),
        unstack: false,
    };
    
    let result = game.apply_move_copy(mv);
    assert!(result.is_ok(), "Move should be valid");
    
    let new_board = result.unwrap();
    let piece = new_board.get_piece(&Position::new(4, 8));
    assert!(piece.is_some(), "Piece should be at destination");
    
    let piece = piece.unwrap();
    assert_eq!(piece.color, Color::Black);
    assert_eq!(piece.bottom, PieceType::Commander, "Ballista should be promoted to Commander");
    assert_eq!(piece.top, None);
}

#[test]
fn test_soldier_no_promotion_middle_board() {
    let mut game = Game::new();
    
    // Place a white soldier at position (4, 5)
    let soldier_pos = Position::new(4, 5);
    game.board.set_piece(&soldier_pos, Some(Piece::new(Color::White, PieceType::Soldier, None)));
    
    // Move the soldier to (3, 4) - not on opposite side
    let mv = Move {
        from: soldier_pos,
        to: Position::new(3, 4),
        unstack: false,
    };
    
    let result = game.apply_move_copy(mv);
    assert!(result.is_ok(), "Move should be valid");
    
    let new_board = result.unwrap();
    let piece = new_board.get_piece(&Position::new(3, 4));
    assert!(piece.is_some(), "Piece should be at destination");
    
    let piece = piece.unwrap();
    assert_eq!(piece.color, Color::White);
    assert_eq!(piece.bottom, PieceType::Soldier, "Soldier should NOT be promoted in middle of board");
    assert_eq!(piece.top, None);
}

#[test]
fn test_stacked_soldier_promotion() {
    let mut game = Game::new();
    
    // Place a stacked piece: Soldier on top of Guard at position (4, 1)
    let stack_pos = Position::new(4, 1);
    game.board.set_piece(&stack_pos, Some(Piece::new(Color::White, PieceType::Guard, Some(PieceType::Soldier))));
    
    // Unstack and move the soldier to (3, 0) - top row
    let mv = Move {
        from: stack_pos,
        to: Position::new(3, 0),
        unstack: true,
    };
    
    let result = game.apply_move_copy(mv);
    assert!(result.is_ok(), "Move should be valid");
    
    let new_board = result.unwrap();
    let piece = new_board.get_piece(&Position::new(3, 0));
    assert!(piece.is_some(), "Piece should be at destination");
    
    let piece = piece.unwrap();
    assert_eq!(piece.color, Color::White);
    assert_eq!(piece.bottom, PieceType::Paladin, "Unstacked Soldier should be promoted to Paladin");
    assert_eq!(piece.top, None);
}

#[test]
fn test_other_pieces_no_promotion() {
    let mut game = Game::new();
    
    // Test that other pieces (like Guard) don't get promoted
    let guard_pos = Position::new(4, 1);
    game.board.set_piece(&guard_pos, Some(Piece::new(Color::White, PieceType::Guard, None)));
    
    let mv = Move {
        from: guard_pos,
        to: Position::new(3, 0),
        unstack: false,
    };
    
    let result = game.apply_move_copy(mv);
    assert!(result.is_ok(), "Move should be valid");
    
    let new_board = result.unwrap();
    let piece = new_board.get_piece(&Position::new(3, 0));
    assert!(piece.is_some(), "Piece should be at destination");
    
    let piece = piece.unwrap();
    assert_eq!(piece.color, Color::White);
    assert_eq!(piece.bottom, PieceType::Guard, "Guard should NOT be promoted");
    assert_eq!(piece.top, None);
}
