//! The engine: evaluation, search and their supporting tables.
pub mod ab_engine;
pub mod config;
pub mod constants;
pub mod eval;
pub mod gpu_batch_processor;
pub mod gpu_batch_sim;
pub mod mcts;
pub mod minimax;
pub mod search;
pub mod search_config;
pub mod stage_config;
pub mod tournament;
pub mod tree_recorder;
pub mod tt;
pub mod variants;
pub mod zobrist;

pub use ab_engine::{Engine, SearchStatistics};
pub use config::{EngineConfig, ScoringWeights};
