//! Tests pinning the scoring component formulas on hand-computed cases.
//!
//! The board `0x850` holds positions 5, 7 and 12; for roll 12 its
//! candidates are the singleton `{12}` (mask `0x800`) first and `{5, 7}`
//! (mask `0x050`) second.  The two candidates split the components:
//! value(0x800) = 12 with probability weight 7 - |12 - 7| = 2, while
//! value(0x050) = 5 with weight 7 - |5 - 7| = 5, so value-seeking picks the
//! singleton and probability-seeking picks the pair.

use dice_game_simulator::{
    CompositeStrategy, Engine, EvalTable, GameMode, GameState, StrategyComponent, SubsetCache,
    Xoroshiro128Plus,
};

const BOARD: u16 = 0x850;
const SINGLETON_TWELVE: u16 = 0x800;
const FIVE_AND_SEVEN: u16 = 0x050;

fn strategy(components: &[StrategyComponent], name: &str) -> CompositeStrategy {
    CompositeStrategy::new(components, name)
}

fn candidates(engine: &Engine) -> Vec<u16> {
    engine.generate_moves(BOARD, 12).unwrap()
}

fn pick(components: &[StrategyComponent], state: &GameState) -> u16 {
    let engine = Engine::new(GameMode::Base);
    let moves = candidates(&engine);
    assert_eq!(moves, vec![SINGLETON_TWELVE, FIVE_AND_SEVEN]);
    let cache = SubsetCache::new();
    let table = EvalTable::new(&cache, false);
    let mut rng = Xoroshiro128Plus::new(17);
    strategy(components, "probe").choose_move(state, &moves, &table, &mut rng)
}

fn state_on_board() -> GameState {
    let mut s = GameState::new();
    s.board = BOARD;
    s
}

#[test]
fn highest_value_prefers_the_high_singleton() {
    assert_eq!(pick(&[StrategyComponent::HighestValue], &state_on_board()), SINGLETON_TWELVE);
}

#[test]
fn highest_probability_prefers_the_central_pair() {
    // 7 - |5 - 7| = 5 beats 7 - |12 - 7| = 2.
    assert_eq!(pick(&[StrategyComponent::HighestProbability], &state_on_board()), FIVE_AND_SEVEN);
}

#[test]
fn balanced_value_weighs_value_by_probability() {
    // 5 * 5 = 25 beats 12 * 2 = 24.
    assert_eq!(pick(&[StrategyComponent::BalancedValue], &state_on_board()), FIVE_AND_SEVEN);
}

#[test]
fn adaptive_switches_on_the_total_comparison() {
    // A total above the opponent's draws the probability-weighted pick;
    // otherwise the value pick.
    let mut below = state_on_board();
    below.total_score = 5;
    below.opponent_score = 20;
    assert_eq!(pick(&[StrategyComponent::Adaptive], &below), SINGLETON_TWELVE);
    let mut above = state_on_board();
    above.total_score = 20;
    above.opponent_score = 5;
    assert_eq!(pick(&[StrategyComponent::Adaptive], &above), FIVE_AND_SEVEN);
}

#[test]
fn score_management_switches_on_the_score_gap() {
    // Far above the opponent with one round left: probability-weighted.
    let mut far_above = state_on_board();
    far_above.total_score = 60;
    far_above.opponent_score = 0;
    far_above.round = 4;
    assert_eq!(pick(&[StrategyComponent::ScoreManagement], &far_above), FIVE_AND_SEVEN);
    // Far below: value-seeking.
    let mut far_below = state_on_board();
    far_below.total_score = 0;
    far_below.opponent_score = 60;
    far_below.round = 4;
    assert_eq!(pick(&[StrategyComponent::ScoreManagement], &far_below), SINGLETON_TWELVE);
    // Close: the balanced product, which the pair wins 25 to 24.
    let close = state_on_board();
    assert_eq!(pick(&[StrategyComponent::ScoreManagement], &close), FIVE_AND_SEVEN);
}

#[test]
fn pattern_recognition_favours_moves_seen_this_round() {
    let mut seen = state_on_board();
    seen.turn_history.push(FIVE_AND_SEVEN);
    assert_eq!(pick(&[StrategyComponent::PatternRecognition], &seen), FIVE_AND_SEVEN);
    // Without history every pattern score is zero and the first candidate
    // wins the tie.
    assert_eq!(pick(&[StrategyComponent::PatternRecognition], &state_on_board()), SINGLETON_TWELVE);
}

#[test]
fn summed_components_shift_the_choice() {
    // Balanced value plus the pattern bonus gives the historical pair
    // 25 + 5 = 30 over the singleton's 24, while highest value plus the
    // same bonus keeps the singleton: 12 beats 5 + 5.
    let mut seen = state_on_board();
    seen.turn_history.push(FIVE_AND_SEVEN);
    let picked = pick(
        &[StrategyComponent::BalancedValue, StrategyComponent::PatternRecognition],
        &seen,
    );
    assert_eq!(picked, FIVE_AND_SEVEN);
    let picked = pick(
        &[StrategyComponent::HighestValue, StrategyComponent::PatternRecognition],
        &seen,
    );
    assert_eq!(picked, SINGLETON_TWELVE);
}

#[test]
fn random_noise_never_overturns_a_unit_gap() {
    // The random component's draw is below one scale unit while the
    // deterministic contributions are whole units, so it only breaks ties.
    let mut behind = state_on_board();
    behind.total_score = 20;
    behind.opponent_score = 5;
    for seed in 0..20u64 {
        let engine = Engine::new(GameMode::Base);
        let moves = candidates(&engine);
        let cache = SubsetCache::new();
        let table = EvalTable::new(&cache, false);
        let mut rng = Xoroshiro128Plus::new(seed);
        let m = strategy(
            &[StrategyComponent::Random, StrategyComponent::Adaptive],
            "probe",
        )
        .choose_move(&behind, &moves, &table, &mut rng);
        assert_eq!(m, FIVE_AND_SEVEN);
    }
}
