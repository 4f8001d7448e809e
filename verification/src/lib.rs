//! Verified core of a two-player dice-and-bitboard game in the
//! "Shut the Box" family.
//!
//! A twelve-position board is a bit mask (`bit i` set means position `i + 1`
//! is still open).  Each turn a player rolls two dice and removes a subset of
//! open positions whose face values sum to the roll.  The crate provides the
//! move generator with its precomputed subset cache, a composable scoring
//! kernel for policies, bounded-depth look-ahead evaluation, the match state
//! machine for the base and extended rule variants, and a deterministic
//! tournament driver.

pub mod bits;
pub mod engine;
pub mod eval;
pub mod game;
pub mod moves;
pub mod policies;
pub mod rng;
pub mod strategies;
pub mod tournament;

pub use bits::{popcount, mask_sum_exec, FULL_BOARD};
pub use engine::{GameState, GameMode, OptimizationLevel, ROUNDS};
pub use eval::{EvalTable, MAX_LOOK_AHEAD};
pub use game::{
    play_turn, play_round, play_base_match, play_extended_match, simulate_game, Engine,
    GameResult, MatchResult, Winner, MAX_EXTENDED_TURNS,
};
pub use moves::{GameError, SubsetCache};
pub use policies::{
    create_strategies, AIPlayer, AdaptiveStrategy, AggressiveStrategy, BalancedValueStrategy,
    HighestProbabilityStrategy, HighestValueStrategy, LookAheadStrategy, Move,
    PatternRecognitionStrategy, RandomStrategy, RiskAverseStrategy, ScoreManagementStrategy,
    Strategy,
};
pub use rng::{derive_seed, RandomSource, Xoroshiro128Plus};
pub use strategies::{CompositeStrategy, StrategyComponent, SCORE_SCALE};
pub use tournament::{
    aggregate_standings, run_match, run_pair, run_pairings, run_tournament, PairAggregate,
    SimulationConfig, SimulatorType,
};
