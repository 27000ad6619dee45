use keres_engine::board::{Board, Color, Piece, PieceType, Position};
use keres_engine::engine::ab_engine::{alpha_beta, Engine, SearchStatistics, SCORE_WINDOW};
use keres_engine::engine::search::loop_detection::LoopDetector;
use keres_engine::engine::zobrist::init_keys;
use keres_engine::engine::config::EngineConfig;
use keres_engine::engine::search::quiescence::quiescence;
use keres_engine::engine::tree_recorder::TreeRecorder;
use keres_engine::game::{Game, Move};

fn default_cfg() -> EngineConfig {
    let mut c = EngineConfig::default();
    c.threads = 1; // deterministic
    c
}

#[test]
fn ab_engine_engine_finds_legal_move_from_opening() {
    let eng = Engine::new(default_cfg());
    let (mv, stats) = eng.find_move(&Board::new()).expect("should find a move");
    assert!(stats.nodes_searched > 1);
    // Verify the move is actually legal
    let game = Game::from_board(Board::new());
    let all_moves = game.get_all_moves();
    let legal: Vec<Move> = all_moves
        .iter()
        .flat_map(|pm| {
            let mut v = vec![pm.to_move(false)];
            if pm.unstackable {
                v.push(pm.to_move(true));
            }
            if pm.force_unstack {
                v.clear();
                v.push(pm.to_move(true));
            }
            v
        })
        .collect();
    assert!(legal.contains(&mv), "engine returned illegal move {mv:?}");
}

#[test]
fn ab_engine_new_constructor_works() {
    let eng = Engine::new(default_cfg());
    let result = eng.find_move(&Board::new());
    assert!(result.is_ok());
}

#[test]
fn ab_engine_terminal_board_returns_error() {
    let mut b = Board::new();
    b.set_game_over(true, true, false);
    let eng = Engine::new(default_cfg());
    assert!(eng.find_move(&b).is_err());
}

/// After the moves
///   1. G2-E2  E7-D6
///   2. E3-F4
/// black's king on E9 is exposed to the white rook on E2.
/// Black must defend (block or move the king); the engine must NOT
/// pick a move that leaves the king capturable.
#[test]
fn ab_engine_black_must_defend_exposed_king() {
    let move_bytes: &[u8] = &[0xC5, 0x21, 0x16, 0x0F, 0x3A, 0x19];
    let mut game = Game::new();
    for chunk in move_bytes.chunks_exact(2) {
        let mv = Move::from_u16(u16::from_le_bytes([chunk[0], chunk[1]]));
        game.apply_move(mv).expect("replayed move should be valid");
    }
    assert!(!game.board.is_white_to_move(), "should be black to move");

    let eng = Engine::new(EngineConfig::default());
    let (mv, _stats) = eng.find_move(&game.board).expect("should find a move");
    let mut game_after = game.clone();
    game_after.apply_move(mv).expect("engine move should be legal");

    let white_game = Game::from_board(game_after.board);
    let white_moves = white_game.get_all_moves();
    let king_captured = white_moves.iter().any(|pm| {
        let m = pm.to_move(false);
        if let Ok(b) = white_game.apply_move_copy(m) {
            b.is_game_over() && b.white_wins()
        } else {
            false
        }
    });

    assert!(!king_captured, "Engine's move {:?} left the black king capturable!", mv);
}

#[test]
fn engine_statistics_count_root_moves() {
    let eng = Engine::new(default_cfg());
    let game = Game::new();
    let root_moves: usize = game
        .get_all_moves()
        .iter()
        .map(|pm| if pm.force_unstack { 1 } else if pm.unstackable { 2 } else { 1 })
        .sum();
    let (_mv, stats): (Move, SearchStatistics) = eng.find_move(&Board::new()).unwrap();
    assert_eq!(stats.stage1_moves, root_moves);
    assert!(stats.nodes_searched > root_moves);
}

#[test]
fn engine_takes_a_free_king() {
    // White to move can capture the black King with the rook: depth 1 finds it.
    let mut board = Board::empty();
    board.set_piece(&Position::new(4, 8), Some(Piece::new(Color::White, PieceType::King, None)));
    board.set_piece(&Position::new(4, 0), Some(Piece::new(Color::Black, PieceType::King, None)));
    board.set_piece(&Position::new(4, 4), Some(Piece::new(Color::White, PieceType::Rook, None)));
    let eng = Engine::new(EngineConfig { stage1_depth: 1, threads: 1 });
    let (mv, _) = eng.find_move(&board).unwrap();
    assert_eq!(mv.to, Position::new(4, 0));
}

#[test]
fn engine_error_when_no_king_left() {
    let mut board = Board::empty();
    board.set_piece(&Position::new(4, 8), Some(Piece::new(Color::White, PieceType::King, None)));
    let eng = Engine::new(default_cfg());
    assert!(eng.find_move(&board).is_err());
}

fn minimal_game(white_to_move: bool) -> Game {
    let mut board = Board::empty();
    board.set_piece(&Position::new(4, 8), Some(Piece::new(Color::White, PieceType::King, None)));
    board.set_piece(&Position::new(4, 0), Some(Piece::new(Color::Black, PieceType::King, None)));
    let mut game = Game::from_board(board);
    game.set_white_to_move(white_to_move);
    game
}

#[test]
fn quiescence_returns_finite_score_on_empty_board() {
    let mut game = minimal_game(true);
    let score = quiescence(&mut game, -10_000, 10_000, None, 0, 0);
    assert!(score.abs() < 10_000);
}

#[test]
fn quiescence_captures_free_piece() {
    // White rook can capture a free black soldier.
    let mut game = minimal_game(true);
    game.board.set_piece(&Position::new(4, 4), Some(Piece::new(Color::White, PieceType::Rook, None)));
    game.board.set_piece(&Position::new(4, 2), Some(Piece::new(Color::Black, PieceType::Soldier, None)));
    let score = quiescence(&mut game, -10_000, 10_000, None, 0, 0);
    // Score should be positive (White ahead) after capturing the soldier.
    assert!(score > 0, "expected positive score after free capture, got {}", score);
}

#[test]
fn quiescence_prefers_capturing_the_king() {
    // The rook sees the black King: taking it scores the king value.
    let mut game = minimal_game(true);
    game.board.set_piece(&Position::new(4, 4), Some(Piece::new(Color::White, PieceType::Rook, None)));
    let score = quiescence(&mut game, -10_000, 10_000, None, 3, 0);
    assert_eq!(score, 1000 - 3);
}

#[test]
fn quiescence_leaves_game_unchanged_and_records_nodes() {
    let mut game = minimal_game(true);
    game.board.set_piece(&Position::new(4, 4), Some(Piece::new(Color::White, PieceType::Rook, None)));
    game.board.set_piece(&Position::new(4, 2), Some(Piece::new(Color::Black, PieceType::Soldier, None)));
    game.board.set_piece(&Position::new(4, 1), Some(Piece::new(Color::Black, PieceType::Guard, None)));
    let before = game.board;
    let mut recorder = TreeRecorder::new();
    let with = quiescence(&mut game, -10_000, 10_000, Some(&mut recorder), 0, 0);
    assert_eq!(game.board, before);
    let without = quiescence(&mut game, -10_000, 10_000, None, 0, 0);
    assert_eq!(with, without);
    let records = recorder.into_records();
    assert!(!records.is_empty());
    assert_eq!(records[0].id, 1);
    assert_eq!(records[0].parent_id, 0);
    assert_eq!(records[0].mv, "E5E7");
}

#[test]
fn quiescence_stands_pat_at_beta() {
    // A window below the static score returns the static score itself.
    let mut game = minimal_game(true);
    let score = quiescence(&mut game, -10_000, -5_000, None, 0, 0);
    assert!(score >= -5_000);
}

/// Debug test to inspect the search state for the exposed-king position.
#[test]
fn ab_engine_debug_exposed_king_tree_state() {
    let move_bytes: &[u8] = &[0xC5, 0x21, 0x16, 0x0F, 0x3A, 0x19];
    let mut game = Game::new();
    for chunk in move_bytes.chunks_exact(2) {
        let mv = Move::from_u16(u16::from_le_bytes([chunk[0], chunk[1]]));
        game.apply_move(mv).expect("replayed move should be valid");
    }

    let eng = Engine::new(EngineConfig::default());
    let (best_mv, stats, tree_debug) = eng.find_move_debug(&game.board).unwrap();
    println!("Best move: {} | nodes: {}", best_mv.to_string(), stats.nodes_searched);

    println!("\nRoot children (sorted by score):");
    let mut children_info: Vec<_> = tree_debug
        .children
        .iter()
        .map(|c| (c.action.clone().unwrap_or_default(), c.score, c.stage1_score))
        .collect();
    children_info.sort_by(|a, b| a.1.partial_cmp(&b.1).unwrap());
    for (action, score, stage1) in &children_info {
        println!("  {} : score={:.4}, stage1={:.4}", action, score, stage1);
    }
}

#[test]
fn debug_tree_agrees_with_find_move() {
    let eng = Engine::new(EngineConfig { stage1_depth: 2, threads: 1 });
    let board = Board::new();
    let (mv, stats) = eng.find_move(&board).unwrap();
    let (mv2, stats2, tree) = eng.find_move_debug(&board).unwrap();
    assert_eq!(mv, mv2);
    assert_eq!(stats.stage1_moves, stats2.stage1_moves);
    assert_eq!(tree.children.len(), stats.stage1_moves);
    let best = tree.children.iter().map(|c| c.score).max().unwrap();
    assert_eq!(tree.score, best);
    let first_best = tree.children.iter().position(|c| c.score == best).unwrap();
    assert_eq!(tree.children[first_best].action.clone().unwrap(), mv.to_string());
}

fn legal_moves_of(game: &Game) -> Vec<Move> {
    game.get_all_moves()
        .iter()
        .flat_map(|pm| {
            if pm.force_unstack {
                vec![pm.to_move(true)]
            } else if pm.unstackable {
                vec![pm.to_move(false), pm.to_move(true)]
            } else {
                vec![pm.to_move(false)]
            }
        })
        .collect()
}

#[test]
fn history_of_the_root_alone_changes_nothing() {
    let eng = Engine::new(EngineConfig { stage1_depth: 2, threads: 1 });
    let board = Board::new();
    let game = Game::from_board(board.clone());
    let (mv, _) = eng.find_move(&board).unwrap();
    let (mv2, _) = eng.find_move_after(&board, &vec![game.board_hash()]).unwrap();
    assert_eq!(mv, mv2);
}

#[test]
fn every_reply_repeating_makes_every_move_a_draw() {
    // With every position reachable in one move already played, each
    // move scores as a draw and the first legal move is chosen.
    let eng = Engine::new(EngineConfig { stage1_depth: 2, threads: 1 });
    let board = Board::new();
    let game = Game::from_board(board.clone());
    let legal = legal_moves_of(&game);
    let history: Vec<u64> = legal
        .iter()
        .map(|mv| Game::from_board(game.apply_move_copy(*mv).unwrap()).board_hash())
        .collect();
    let (mv, _) = eng.find_move_after(&board, &history).unwrap();
    assert_eq!(mv, legal[0]);
}

#[test]
fn the_horizon_is_scored_by_quiescence() {
    let move_bytes: &[u8] = &[0xC5, 0x21, 0x16, 0x0F, 0x3A, 0x19];
    let mut game = Game::new();
    for chunk in move_bytes.chunks_exact(2) {
        game.apply_move(Move::from_u16(u16::from_le_bytes([chunk[0], chunk[1]]))).unwrap();
    }
    let keys = init_keys();
    let mut path = LoopDetector::new();
    let mut nodes = 0u64;
    let at_horizon = alpha_beta(&game, 0, -SCORE_WINDOW, SCORE_WINDOW, &keys, &mut path, &mut nodes);
    let mut copy = game.clone();
    let quiet = quiescence(&mut copy, -SCORE_WINDOW, SCORE_WINDOW, None, 0, 0);
    assert_eq!(at_horizon, quiet);
}
