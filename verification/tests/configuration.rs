use keres_engine::board::Board;
use keres_engine::engine::config::{EngineConfig, ScoringWeights};
use keres_engine::engine::mcts::{playout_from_draws, SimulationResult};
use keres_engine::engine::search_config::SearchConfig;
use keres_engine::engine::stage_config::StageConfig;
use keres_engine::engine::tournament::{
    game_continues, game_result, player1_is_white, swapped, GameResult, MatchConfig, MatchScore,
};
use keres_engine::engine::variants::EngineVariant;
use keres_engine::game::Game;

#[test]
fn default_config() {
    let cfg = SearchConfig::default();
    assert_eq!(cfg.depth, 4);
    assert_eq!(cfg.top_moves, 3);
    assert!(!cfg.no_tt);
    assert!(!cfg.no_alpha_beta);
    assert!(!cfg.no_move_ordering);
    assert!(!cfg.no_killers);
    assert!(!cfg.debug_tree);
    assert!(cfg.threads >= 1);
}

#[test]
fn stage1_defaults() {
    let cfg = StageConfig::stage1();
    assert_eq!(cfg.depth, 4);
    assert!(!cfg.force_even_depth);
    assert!(cfg.alpha_beta);
    assert!(cfg.move_ordering);
    assert!(cfg.killer_moves);
    assert!(cfg.transposition_table);
    assert!(!cfg.null_move_pruning);
    assert_eq!(cfg.null_move_reduction, 2);
    assert!(!cfg.lmr);
    assert!(!cfg.selective_extensions);
    assert_eq!(cfg.max_passes, 3);
    assert_eq!(cfg.expected_leaves, 5);
    assert!(!cfg.tree_recorder);
}

#[test]
fn stage2_defaults() {
    let cfg = StageConfig::stage2();
    assert_eq!(cfg.depth, 6);
    assert!(cfg.force_even_depth);
    assert!(cfg.alpha_beta);
    assert!(cfg.move_ordering);
    assert!(cfg.killer_moves);
    assert!(cfg.transposition_table);
    assert!(cfg.null_move_pruning);
    assert_eq!(cfg.null_move_reduction, 2);
    assert!(cfg.lmr);
    assert!(cfg.selective_extensions);
    assert_eq!(cfg.max_passes, 1);
    assert_eq!(cfg.expected_leaves, 1);
    assert!(!cfg.tree_recorder);
}

#[test]
fn force_even_depth_works() {
    let mut cfg = StageConfig::stage2();
    cfg.depth = 5;
    assert_eq!(cfg.effective_depth(), 6);
    cfg.depth = 6;
    assert_eq!(cfg.effective_depth(), 6);
    cfg.force_even_depth = false;
    cfg.depth = 5;
    assert_eq!(cfg.effective_depth(), 5);
}

#[test]
fn engine_config_defaults() {
    let cfg = EngineConfig::default();
    assert_eq!(cfg.stage1_depth, 4);
    assert_eq!(cfg.threads, 1);
}

#[test]
fn scoring_weights_material_by_discriminant() {
    let w = ScoringWeights::default();
    assert_eq!(w.material_value(1), 10);
    assert_eq!(w.material_value(3), 60);
    assert_eq!(w.material_value(8), 1000);
    assert_eq!(w.material_value(0), 0);
    assert_eq!(w.material_value(9), 0);
}

#[test]
fn test_match_config_default() {
    let config = MatchConfig::default();
    assert_eq!(config.num_games, 10);
    assert!(config.time_per_move_ms > 0);
    assert!(config.max_moves_per_game > 0);
}

#[test]
fn match_decisions() {
    assert!(player1_is_white(1));
    assert!(!player1_is_white(2));
    assert_eq!(swapped(GameResult::Player1Win), GameResult::Player2Win);
    assert_eq!(swapped(GameResult::Player2Win), GameResult::Player1Win);
    assert_eq!(swapped(GameResult::Draw), GameResult::Draw);
    let b = Board::new();
    assert!(game_continues(&b, 0, 10));
    assert!(!game_continues(&b, 10, 10));
    assert_eq!(game_result(&b), GameResult::Draw);
    let mut over = Board::new();
    over.set_game_over(true, false, false);
    assert!(!game_continues(&over, 0, 10));
    assert_eq!(game_result(&over), GameResult::Player2Win);
    over.set_game_over(true, true, false);
    assert_eq!(game_result(&over), GameResult::Player1Win);
    let mut score = MatchScore::new();
    score.record(GameResult::Player1Win);
    score.record(GameResult::Draw);
    score.record(swapped(GameResult::Player1Win));
    assert_eq!((score.player1_wins, score.player2_wins, score.draws), (1, 1, 1));
}

#[test]
fn test_variant_names_and_descriptions() {
    for variant in EngineVariant::all() {
        assert!(!variant.name().is_empty());
        assert!(!variant.description().is_empty());
    }
}

#[test]
fn variant_names_are_exact() {
    let names: Vec<&str> = EngineVariant::all().into_iter().map(|v| v.name()).collect();
    assert_eq!(names, vec!["Aggressive", "Defensive", "Balanced", "Tactical", "Positional"]);
}

#[test]
fn test_simulation_result() {
    let game = Game::new();
    let result = SimulationResult::from_board(&game.board);
    // Initial board is not terminal, should be treated as draw
    assert_eq!(result, SimulationResult::Draw);
}

#[test]
fn simulation_result_of_finished_games() {
    let mut b = Board::new();
    b.set_game_over(true, true, false);
    assert_eq!(SimulationResult::from_board(&b), SimulationResult::WhiteWin);
    b.set_game_over(true, false, true);
    assert_eq!(SimulationResult::from_board(&b), SimulationResult::Draw);
    b.set_game_over(true, false, false);
    assert_eq!(SimulationResult::from_board(&b), SimulationResult::BlackWin);
}

#[test]
fn playout_from_draws_plays_the_drawn_moves() {
    let board = Board::new();
    // No draws: the starting position, a game still running.
    assert_eq!(playout_from_draws(&board, &vec![], 10), SimulationResult::Draw);
    // Draw 0 three times: the same as playing the first potential move,
    // top piece alone only where forced, three times.
    let mut game = Game::from_board(board);
    for _ in 0..3 {
        let pm = game.get_all_moves()[0];
        game.apply_move(pm.to_move(pm.force_unstack)).unwrap();
    }
    assert_eq!(
        playout_from_draws(&board, &vec![0, 0, 0], 10),
        SimulationResult::from_board(&game.board)
    );
    // A draw naming no move stops the playout, like running out of draws.
    assert_eq!(
        playout_from_draws(&board, &vec![0, 0, 0, 100_000, 0], 10),
        playout_from_draws(&board, &vec![0, 0, 0], 10)
    );
}

#[test]
fn match_tally_counts_every_game() {

    let results = vec![
        GameResult::Player1Win,
        GameResult::Draw,
        GameResult::Player2Win,
        GameResult::Player1Win,
    ];
    let s = MatchScore::tally(&results);
    assert_eq!((s.player1_wins, s.player2_wins, s.draws), (2, 1, 1));
    assert_eq!(s.player1_wins + s.player2_wins + s.draws, results.len());
}
