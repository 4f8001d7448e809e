//! Tests of the tournament driver, aggregation and the random sources.

use dice_game_simulator::{
    create_strategies, derive_seed, run_pair, run_tournament, CompositeStrategy, Engine, GameError,
    GameMode, OptimizationLevel, RandomSource, SimulationConfig, StrategyComponent,
    Xoroshiro128Plus,
};

fn strategy(components: &[StrategyComponent], name: &str) -> CompositeStrategy {
    CompositeStrategy::new(components, name)
}

#[test]
fn pair_counts_add_up_to_the_simulation_count() {
    let engine = Engine::new(GameMode::Base);
    let rnd = strategy(&[StrategyComponent::Random], "Random");
    let hv = strategy(&[StrategyComponent::HighestValue], "Highest Value");
    let agg = run_pair(&engine, &rnd, &hv, 1000, 42, 0, 1);
    assert_eq!(agg.a_wins + agg.b_wins + agg.draws, 1000);
    assert_eq!(agg.n, 1000);
    // The informed policy and the random one must not land on the same
    // win count over a thousand games.
    assert_ne!(agg.a_wins, agg.b_wins);
}

#[test]
fn look_ahead_beats_random_in_the_extended_variant() {
    // The shared board starts full, which is the setting player's winning
    // state, so the setter holds a structural edge over any clearing
    // policy: most matches draw and the setter takes most decided ones.
    // The look-ahead policy is therefore held against a random clearer
    // facing the same opponent over the same thousand seeds: it must win
    // more and lose fewer of the decided matches.
    let engine = Engine::new(GameMode::Extended);
    let la = strategy(&[StrategyComponent::LookAhead], "Look Ahead");
    let rnd = strategy(&[StrategyComponent::Random], "Random");
    let rnd2 = strategy(&[StrategyComponent::Random], "Random");
    let agg = run_pair(&engine, &la, &rnd, 1000, 7, 0, 1);
    let base = run_pair(&engine, &rnd2, &rnd, 1000, 7, 0, 1);
    assert_eq!(agg.a_wins + agg.b_wins + agg.draws, 1000);
    assert_eq!(base.a_wins + base.b_wins + base.draws, 1000);
    assert!(agg.a_wins > base.a_wins);
    assert!(agg.b_wins < base.b_wins);
}

#[test]
fn tournament_is_identical_for_any_worker_count() {
    let strategies = vec![
        strategy(&[StrategyComponent::Random], "Random"),
        strategy(&[StrategyComponent::HighestValue], "Highest Value"),
        strategy(&[StrategyComponent::BalancedValue], "Balanced Value"),
    ];
    let base = run_tournament(GameMode::Base, &strategies, 100, 123, Some(1)).unwrap();
    for workers in [2u32, 4, 8] {
        let again = run_tournament(GameMode::Base, &strategies, 100, 123, Some(workers)).unwrap();
        assert_eq!(base, again);
    }
    let none = run_tournament(GameMode::Base, &strategies, 100, 123, None).unwrap();
    assert_eq!(base, none);
}

#[test]
fn tournament_repeats_bit_identically() {
    let strategies = vec![
        strategy(&[StrategyComponent::Random], "Random"),
        strategy(&[StrategyComponent::HighestProbability], "Highest Probability"),
    ];
    let first = run_tournament(GameMode::Base, &strategies, 50, 9, None).unwrap();
    let second = run_tournament(GameMode::Base, &strategies, 50, 9, None).unwrap();
    assert_eq!(first, second);
}

#[test]
fn tournament_standings_count_games_per_policy() {
    let strategies = vec![
        strategy(&[StrategyComponent::Random], "Random"),
        strategy(&[StrategyComponent::HighestValue], "Highest Value"),
        strategy(&[StrategyComponent::Aggressive], "Aggressive"),
    ];
    let standings = run_tournament(GameMode::Base, &strategies, 40, 5, None).unwrap();
    assert_eq!(standings.len(), 3);
    for (idx, entry) in standings.iter().enumerate() {
        assert_eq!(entry.0, idx);
        // Each policy plays 40 simulations against each of the other two.
        assert_eq!(entry.2, 80);
        assert!(entry.1 <= entry.2);
    }
}

#[test]
fn tournament_accepts_a_long_policy_list() {
    // The driver's domain is bounded only by the u64 aggregation
    // arithmetic, not by any fixed policy count.
    let mut strategies = Vec::new();
    for k in 0..70 {
        let component = match k % 3 {
            0 => StrategyComponent::Random,
            1 => StrategyComponent::HighestValue,
            _ => StrategyComponent::HighestProbability,
        };
        strategies.push(strategy(&[component], "Entry"));
    }
    let standings = run_tournament(GameMode::Base, &strategies, 1, 77, None).unwrap();
    assert_eq!(standings.len(), 70);
    for (idx, entry) in standings.iter().enumerate() {
        assert_eq!(entry.0, idx);
        // Each policy plays one simulation against each of the other 69.
        assert_eq!(entry.2, 69);
    }
}

#[test]
fn empty_policy_list_is_a_config_error() {
    let strategies: Vec<CompositeStrategy> = Vec::new();
    let r = run_tournament(GameMode::Base, &strategies, 10, 0, None);
    assert_eq!(r, Err(GameError::ConfigError));
}

#[test]
fn zero_simulations_is_a_config_error() {
    let strategies = vec![strategy(&[StrategyComponent::Random], "Random")];
    let r = run_tournament(GameMode::Base, &strategies, 0, 0, None);
    assert_eq!(r, Err(GameError::ConfigError));
}

#[test]
fn config_validation_rejects_empty_runs() {
    let bad = SimulationConfig {
        num_games: 0,
        game_mode: GameMode::Base,
        optimization_level: dice_game_simulator::OptimizationLevel::Fast,
        strategies: vec![String::from("Random")],
        seed: 1,
    };
    assert_eq!(bad.validate(), Err(GameError::ConfigError));
    let good = SimulationConfig {
        num_games: 10,
        game_mode: GameMode::Base,
        optimization_level: dice_game_simulator::OptimizationLevel::Fast,
        strategies: vec![String::from("Random")],
        seed: 1,
    };
    assert_eq!(good.validate(), Ok(()));
}

#[test]
fn registered_strategy_list_has_eleven_entries() {
    let all = create_strategies();
    assert_eq!(all.len(), 11);
    let labels: Vec<&str> = all.iter().map(|s| s.name()).collect();
    assert_eq!(
        labels,
        vec![
            "Random",
            "Highest Value",
            "Highest Probability",
            "Balanced Value",
            "Adaptive",
            "Look Ahead",
            "Adaptive Score Management",
            "Look Ahead Score Management",
            "Advanced Adaptive",
            "Cautious Pattern Learner",
            "Aggressive Planner",
        ]
    );
    assert!(all[0].contains(StrategyComponent::Random));
    assert!(!all[0].contains(StrategyComponent::LookAhead));
    assert!(all[8].contains(StrategyComponent::LookAhead));
    assert!(all[8].contains(StrategyComponent::Adaptive));
    assert!(all[8].contains(StrategyComponent::ScoreManagement));
    assert!(!all[8].contains(StrategyComponent::Random));
}

#[test]
fn seeded_generator_repeats_its_stream() {
    let mut a = Xoroshiro128Plus::new(12345);
    let mut b = Xoroshiro128Plus::new(12345);
    for _ in 0..100 {
        assert_eq!(a.next_u64(), b.next_u64());
    }
    let mut c = Xoroshiro128Plus::new(7);
    c.seed(12345);
    let mut d = Xoroshiro128Plus::new(12345);
    for _ in 0..10 {
        assert_eq!(c.next_u64(), d.next_u64());
        assert_eq!(c.next_u32(), d.next_u32());
    }
}

#[test]
fn dice_rolls_stay_in_range() {
    let mut rng = Xoroshiro128Plus::new(2024);
    for _ in 0..1000 {
        let d = rng.roll_d6();
        assert!((1..=6).contains(&d));
        let two = rng.roll_2d6();
        assert!((2..=12).contains(&two));
    }
    let mut source = RandomSource::Seeded(Xoroshiro128Plus::new(1));
    for _ in 0..100 {
        let r = source.roll_2d6();
        assert!((2..=12).contains(&r));
    }
    let mut thread_source = RandomSource::ThreadDefault;
    for _ in 0..100 {
        let r = thread_source.roll_2d6();
        assert!((2..=12).contains(&r));
    }
}

#[test]
fn derived_seeds_are_stable_and_spread() {
    assert_eq!(derive_seed(123, 0, 1, 0), derive_seed(123, 0, 1, 0));
    assert_ne!(derive_seed(123, 0, 1, 0), derive_seed(123, 0, 1, 1));
    assert_ne!(derive_seed(123, 0, 1, 0), derive_seed(123, 0, 2, 0));
    assert_ne!(derive_seed(123, 0, 1, 0), derive_seed(124, 0, 1, 0));
}

#[test]
fn optimization_level_selects_the_source() {
    let fast = RandomSource::for_level(OptimizationLevel::Fast, 9);
    let ultra = RandomSource::for_level(OptimizationLevel::UltraOptimized, 9);
    assert_eq!(fast, RandomSource::Seeded(Xoroshiro128Plus::new(9)));
    assert_eq!(fast, ultra);
    let standard = RandomSource::for_level(OptimizationLevel::Standard, 9);
    assert_eq!(standard, RandomSource::ThreadDefault);
    let precise = RandomSource::for_level(OptimizationLevel::FastPrecise, 9);
    assert_eq!(precise, RandomSource::ThreadDefault);
}
