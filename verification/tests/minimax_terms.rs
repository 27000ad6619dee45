use keres_engine::board::{Board, Color, Piece, PieceType, Position};
use keres_engine::engine::minimax::{
    count_adjacent_pieces, evaluate_mobility, evaluate_tactical_penalties, evaluate_territorial_control,
    is_adjacent_to_enemy_king, is_defended, is_tactical_move, piece_value, score_move_for_ordering,
    MinimaxStatistics,
};
use keres_engine::game::{Game, PotentialMove};

fn two_kings() -> Board {
    let mut b = Board::empty();
    b.set_piece(&Position::new(4, 4), Some(Piece::new(Color::White, PieceType::King, None)));
    b.set_piece(&Position::new(0, 0), Some(Piece::new(Color::Black, PieceType::King, None)));
    b
}

#[test]
fn minimax_piece_values() {
    assert_eq!(piece_value(PieceType::Soldier), 10);
    assert_eq!(piece_value(PieceType::Commander), 100);
    assert_eq!(piece_value(PieceType::Ballista), 15);
    assert_eq!(piece_value(PieceType::King), 10000);
    let s = MinimaxStatistics::default();
    assert_eq!(s.positions_evaluated + s.tt_hits + s.ab_cutoffs + s.quiescence_nodes + s.search_time_ms, 0);
}

#[test]
fn neighbours_of_the_white_king_at_start() {
    let b = Board::new();
    assert_eq!(count_adjacent_pieces(&b, &Position::new(4, 8), Color::White), 2);
    assert_eq!(count_adjacent_pieces(&b, &Position::new(4, 8), Color::Black), 0);
    assert!(!is_adjacent_to_enemy_king(&b, &Position::new(4, 7), Color::White));
    assert!(is_adjacent_to_enemy_king(&b, &Position::new(4, 1), Color::White));
    assert!(!is_adjacent_to_enemy_king(&b, &Position::new(4, 1), Color::Black));
}

#[test]
fn territorial_control_of_a_lone_king() {
    // Eight king moves, all onto central squares: 1 + 3 each.
    assert_eq!(evaluate_territorial_control(&two_kings()), 32);
    assert_eq!(evaluate_mobility(&two_kings()), 8);
    let mut b = two_kings();
    b.set_white_to_move(false);
    assert_eq!(evaluate_mobility(&b), -3);
}

#[test]
fn mobility_counts_the_side_to_move() {
    let game = Game::new();
    assert_eq!(evaluate_mobility(&game.board), game.get_all_moves().len() as i32);
}

#[test]
fn penalties_for_stacked_commander_and_lone_raider() {
    let mut b = Board::empty();
    b.set_piece(&Position::new(4, 4), Some(Piece::new(Color::White, PieceType::Guard, Some(PieceType::Commander))));
    b.set_piece(&Position::new(8, 4), Some(Piece::new(Color::White, PieceType::King, None)));
    b.set_piece(&Position::new(0, 4), Some(Piece::new(Color::Black, PieceType::King, None)));
    b.set_piece(&Position::new(0, 0), Some(Piece::new(Color::Black, PieceType::Soldier, None)));
    assert!(!is_defended(&b, &Position::new(0, 0), Color::Black));
    assert_eq!(evaluate_tactical_penalties(&b), -50 + 15);
}

#[test]
fn ordering_prefers_big_captures() {
    let mut b = two_kings();
    b.set_piece(&Position::new(4, 6), Some(Piece::new(Color::White, PieceType::Commander, None)));
    b.set_piece(&Position::new(6, 6), Some(Piece::new(Color::Black, PieceType::Commander, None)));
    let capture = PotentialMove {
        from: Position::new(4, 6),
        to: Position::new(6, 6),
        unstackable: false,
        force_unstack: false,
    };
    assert!(is_tactical_move(&b, &capture));
    assert_eq!(score_move_for_ordering(&b, &capture), 100 * 10 - 100 + 500);
    let quiet = PotentialMove { from: Position::new(4, 6), to: Position::new(4, 5), unstackable: false, force_unstack: false };
    assert!(!is_tactical_move(&b, &quiet));
    assert_eq!(score_move_for_ordering(&b, &quiet), 30);
}

#[test]
fn minimax_keys_hash_is_stable_and_side_to_move_flips_one_key() {
    let keys = keres_engine::engine::minimax::ZobristKeys::new();
    let b1 = Board::new();
    assert_eq!(keys.hash_board(&b1), keys.hash_board(&b1.clone()));
    let mut b1_flipped = b1;
    b1_flipped.set_white_to_move(!b1.is_white_to_move());
    let mut game = keres_engine::game::Game::from_board(Board::new());
    let first = game.get_all_moves()[0].to_move(false);
    game.apply_move(first).unwrap();
    let b2 = game.board;
    let mut b2_flipped = b2;
    b2_flipped.set_white_to_move(!b2.is_white_to_move());
    assert_eq!(
        keys.hash_board(&b1) ^ keys.hash_board(&b1_flipped),
        keys.hash_board(&b2) ^ keys.hash_board(&b2_flipped)
    );
}

#[test]
fn test_zobrist_hashing() {
    let keys = keres_engine::engine::minimax::ZobristKeys::new();
    let board1 = Board::new();
    let board2 = Board::new();

    let hash1 = keys.hash_board(&board1);
    let hash2 = keys.hash_board(&board2);

    // Same position should have same hash
    assert_eq!(hash1, hash2);
}
