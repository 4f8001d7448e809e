//! Tests of turns, rounds, whole matches and look-ahead evaluation.

use dice_game_simulator::{
    play_base_match, play_extended_match, play_round, play_turn, simulate_game, AIPlayer,
    AggressiveStrategy, CompositeStrategy, Engine, EvalTable, GameMode, GameResult, GameState,
    HighestValueStrategy, Strategy, StrategyComponent, SubsetCache, Winner, Xoroshiro128Plus,
};

fn strategy(components: &[StrategyComponent], name: &str) -> CompositeStrategy {
    CompositeStrategy::new(components, name)
}

#[test]
fn new_state_is_initial() {
    let s = GameState::new();
    assert_eq!(s.board, 0xFFF);
    assert_eq!(s.current_round_score, 0);
    assert_eq!(s.total_score, 0);
    assert_eq!(s.opponent_score, 0);
    assert_eq!(s.round, 0);
    assert!(s.turn_history.is_empty());
}

#[test]
fn reset_board_clears_round_state_only() {
    let mut s = GameState::new();
    s.board = 0x3;
    s.current_round_score = 4;
    s.total_score = 9;
    s.round = 2;
    s.turn_history.push(0x3);
    s.reset_board();
    assert_eq!(s.board, 0xFFF);
    assert_eq!(s.current_round_score, 0);
    assert!(s.turn_history.is_empty());
    assert_eq!(s.total_score, 9);
    assert_eq!(s.round, 2);
}

#[test]
fn end_round_scores_remaining_popcount() {
    let mut s = GameState::new();
    s.board = 0b101;
    s.end_round();
    assert_eq!(s.current_round_score, 2);
    assert_eq!(s.total_score, 2);
    assert_eq!(s.round, 1);
}

#[test]
fn turn_clears_a_candidate_and_lowers_popcount() {
    let engine = Engine::new(GameMode::Base);
    let hv = strategy(&[StrategyComponent::HighestValue], "Highest Value");
    let mut state = GameState::new();
    let mut rng = Xoroshiro128Plus::new(99);
    let before = state.board.count_ones();
    let moved = play_turn(&engine, &mut state, 7, &hv, &mut rng);
    assert!(moved);
    assert!(state.board.count_ones() < before);
    assert_eq!(state.turn_history.len(), 1);
    let m = state.turn_history[0];
    // The applied move was a subset of the old board summing to the roll.
    assert_eq!(0xFFF & m, m);
    assert_eq!(state.board, 0xFFF & !m);
}

#[test]
fn popcount_never_increases_within_a_round() {
    let engine = Engine::new(GameMode::Base);
    let hv = strategy(&[StrategyComponent::HighestValue], "Highest Value");
    let mut state = GameState::new();
    let mut rng = Xoroshiro128Plus::new(7);
    let mut last = state.board.count_ones();
    for roll in [7u8, 5, 9, 3, 2, 11, 6, 4] {
        let moved = play_turn(&engine, &mut state, roll, &hv, &mut rng);
        let now = state.board.count_ones();
        assert!(now <= last);
        if moved {
            assert!(now < last);
        }
        last = now;
    }
}

#[test]
fn highest_value_picks_the_seven_singleton() {
    let engine = Engine::new(GameMode::Base);
    let moves = engine.generate_moves(0xFFF, 7).unwrap();
    let hv = strategy(&[StrategyComponent::HighestValue], "Highest Value");
    let state = GameState::new();
    let mut rng = Xoroshiro128Plus::new(1);
    let cache = SubsetCache::new();
    let table = EvalTable::new(&cache, false);
    let m = hv.choose_move(&state, &moves, &table, &mut rng);
    assert_eq!(m, 0b001000000);
}

#[test]
fn aggressive_picks_the_widest_candidate() {
    let engine = Engine::new(GameMode::Base);
    let moves = engine.generate_moves(0xFFF, 7).unwrap();
    let ag = strategy(&[StrategyComponent::Aggressive], "Aggressive");
    let state = GameState::new();
    let mut rng = Xoroshiro128Plus::new(1);
    let cache = SubsetCache::new();
    let table = EvalTable::new(&cache, false);
    let m = ag.choose_move(&state, &moves, &table, &mut rng);
    // {1,2,4} clears three positions, more than any other roll-7 candidate.
    assert_eq!(m, 0b000000001011);
}

#[test]
fn risk_averse_picks_a_narrowest_candidate() {
    let engine = Engine::new(GameMode::Base);
    let moves = engine.generate_moves(0xFFF, 7).unwrap();
    let ra = strategy(&[StrategyComponent::RiskAverse], "Risk Averse");
    let state = GameState::new();
    let mut rng = Xoroshiro128Plus::new(1);
    let cache = SubsetCache::new();
    let table = EvalTable::new(&cache, false);
    let m = ra.choose_move(&state, &moves, &table, &mut rng);
    // The singleton {7} clears one position and comes first among ties.
    assert_eq!(m, 0b001000000);
}

#[test]
fn eval_is_deterministic_and_exact_at_terminals() {
    let cache = SubsetCache::new();
    let table = EvalTable::new(&cache, false);
    // Clearing the last open position ends at the empty board, worth 0.
    assert_eq!(table.evaluate_move(0b1, 0b1, 3), 0);
    // At depth 0 the value is the negated popcount after the move.
    assert_eq!(table.evaluate_move(0b11, 0b10, 0), -1);
    assert_eq!(table.evaluate_move(0xFFF, 0b1, 0), -11);
    // Pure function: repeated evaluation returns the same value.
    for b in [0x0u16, 0x1, 0xAB, 0xFFF] {
        for d in 0..=3u32 {
            assert_eq!(table.evaluate_move(b, 0b1, d), table.evaluate_move(b, 0b1, d));
        }
    }
}

#[test]
fn single_round_match_plays_one_round() {
    let engine = Engine::new(GameMode::Base);
    let hv = strategy(&[StrategyComponent::HighestValue], "Highest Value");
    let result = play_base_match(&engine, &hv, &hv, 3, 1);
    assert_eq!(result.round_count, 1);
    // One round leaves each player at most the full board's popcount.
    assert!(result.score_a <= 12);
    assert!(result.score_b <= 12);
}

#[test]
fn seed_zero_base_match_repeats_bit_identically() {
    let engine = Engine::new(GameMode::Base);
    let hv = strategy(&[StrategyComponent::HighestValue], "Highest Value");
    let first = play_base_match(&engine, &hv, &hv, 0, 5);
    let second = play_base_match(&engine, &hv, &hv, 0, 5);
    assert_eq!(first, second);
    assert_eq!(first.round_count, 5);
    let (a1, b1) = simulate_game(&engine, &hv, &hv, 0);
    let (a2, b2) = simulate_game(&engine, &hv, &hv, 0);
    assert_eq!((a1, b1), (a2, b2));
    assert_eq!((first.score_a, first.score_b), (a1, b1));
}

#[test]
fn extended_match_is_reproducible() {
    let engine = Engine::new(GameMode::Extended);
    let hv = strategy(&[StrategyComponent::HighestValue], "Highest Value");
    let rnd = strategy(&[StrategyComponent::Random], "Random");
    let first = play_extended_match(&engine, &hv, &rnd, 11);
    let second = play_extended_match(&engine, &hv, &rnd, 11);
    assert_eq!(first, second);
    assert!(first.round_count >= 1);
}

#[test]
fn empty_component_set_behaves_as_random() {
    // An empty composite must pick like {RANDOM}: same seed, same choice.
    let engine = Engine::new(GameMode::Base);
    let empty = strategy(&[], "Empty");
    let random = strategy(&[StrategyComponent::Random], "Random");
    let r1 = play_base_match(&engine, &empty, &empty, 42, 5);
    let r2 = play_base_match(&engine, &random, &random, 42, 5);
    assert_eq!(r1, r2);
}

#[test]
fn ai_player_flips_the_rolled_position_first() {
    let mut board: u16 = 0b100;
    let moved = AIPlayer::make_move(&mut board, 3, true);
    assert!(moved);
    assert_eq!(board, 0);

    let mut board: u16 = 0b100;
    let moved = AIPlayer::make_move(&mut board, 3, false);
    assert!(moved);
    // Position 3 is already set for the setting player, so the first clear
    // position below the roll is set instead.
    assert_eq!(board, 0b101);

    let mut board: u16 = 0;
    let moved = AIPlayer::make_move(&mut board, 5, true);
    assert!(!moved);
    assert_eq!(board, 0);
}

#[test]
fn composite_contains_reports_components() {
    let s = strategy(
        &[StrategyComponent::LookAhead, StrategyComponent::ScoreManagement],
        "Look Ahead Score Management",
    );
    assert!(s.contains(StrategyComponent::LookAhead));
    assert!(s.contains(StrategyComponent::ScoreManagement));
    assert!(!s.contains(StrategyComponent::Random));
    assert!(!s.contains(StrategyComponent::HighestValue));
    assert_eq!(s.name(), "Look Ahead Score Management");
}

#[test]
fn total_score_is_the_sum_of_round_scores() {
    let engine = Engine::new(GameMode::Base);
    let bv = strategy(&[StrategyComponent::BalancedValue], "Balanced Value");
    let mut state = GameState::new();
    let mut rng = Xoroshiro128Plus::new(31);
    let mut sum: u32 = 0;
    for _ in 0..5 {
        sum += play_round(&engine, &mut state, &bv, &mut rng);
    }
    assert_eq!(state.total_score, sum);
    assert_eq!(state.round, 5);
}

#[test]
fn game_result_lists_both_scores() {
    let engine = Engine::new(GameMode::Base);
    let hv = strategy(&[StrategyComponent::HighestValue], "Highest Value");
    let hp = strategy(&[StrategyComponent::HighestProbability], "Highest Probability");
    let m = play_base_match(&engine, &hv, &hp, 77, 5);
    let g = GameResult::from_match(&m);
    assert_eq!(g.scores, vec![m.score_a, m.score_b]);
    assert_eq!(g.num_rounds, 5);
    match m.winner {
        Winner::B => assert_eq!(g.winner, 1),
        _ => assert_eq!(g.winner, 0),
    }
}

#[test]
fn atomic_strategies_match_their_composites() {
    let engine = Engine::new(GameMode::Base);
    let moves = engine.generate_moves(0xFFF, 7).unwrap();
    let state = GameState::new();
    let cache = SubsetCache::new();
    let table = EvalTable::new(&cache, false);

    let mut rng = Xoroshiro128Plus::new(4);
    let via_struct = HighestValueStrategy.choose_move(&state, &moves, &table, &mut rng);
    let mut rng = Xoroshiro128Plus::new(4);
    let via_composite = strategy(&[StrategyComponent::HighestValue], "Highest Value")
        .choose_move(&state, &moves, &table, &mut rng);
    assert_eq!(via_struct.bits_to_flip, via_composite);

    let mut rng = Xoroshiro128Plus::new(4);
    let wide = AggressiveStrategy.choose_move(&state, &moves, &table, &mut rng);
    assert_eq!(wide.bits_to_flip, 0b000000001011);
}

#[test]
fn tagged_strategy_dispatches_like_its_case() {
    let engine = Engine::new(GameMode::Base);
    let moves = engine.generate_moves(0xFFF, 7).unwrap();
    let state = GameState::new();
    let cache = SubsetCache::new();
    let table = EvalTable::new(&cache, false);

    let tagged = Strategy::HighestValue;
    assert_eq!(tagged.name(), "Highest Value");
    assert_eq!(tagged.description(), "Always chooses the highest available value");
    let mut rng = Xoroshiro128Plus::new(8);
    let picked = tagged.choose_move(&state, &moves, &table, &mut rng);
    assert_eq!(picked, 0b001000000);

    let composite = Strategy::Composite(strategy(
        &[StrategyComponent::RiskAverse],
        "Risk Averse",
    ));
    assert_eq!(composite.name(), "Risk Averse");
    let mut rng = Xoroshiro128Plus::new(8);
    let cautious = composite.choose_move(&state, &moves, &table, &mut rng);
    assert_eq!(cautious, 0b001000000);
}
