//! Tests of the move generator and its subset cache.

use dice_game_simulator::{Engine, GameError, GameMode};

fn base_engine() -> Engine {
    Engine::new(GameMode::Base)
}

/// The sum of the position values of a mask, computed independently.
fn naive_mask_sum(m: u16) -> u32 {
    let mut sum = 0;
    for i in 0..12 {
        if m & (1 << i) != 0 {
            sum += i + 1;
        }
    }
    sum
}

/// The number of subsets of {1..12} whose values sum to `r`, by brute force.
fn naive_candidate_count(board: u16, r: u32) -> usize {
    (1u16..0x1000)
        .filter(|&m| (board & m) == m && naive_mask_sum(m) == r)
        .count()
}

#[test]
fn full_board_roll_two_single_candidate() {
    let engine = base_engine();
    let moves = engine.generate_moves(0xFFF, 2).unwrap();
    assert_eq!(moves, vec![0b000000000010]);
}

#[test]
fn full_board_roll_three_ordered_candidates() {
    let engine = base_engine();
    let moves = engine.generate_moves(0xFFF, 3).unwrap();
    assert_eq!(moves, vec![0b000000000100, 0b000000000011]);
}

#[test]
fn full_board_roll_twelve_singleton_first() {
    let engine = base_engine();
    let moves = engine.generate_moves(0xFFF, 12).unwrap();
    assert_eq!(moves[0], 0b100000000000);
    assert_eq!(moves.len(), naive_candidate_count(0xFFF, 12));
    // The full board itself sums to 78, not 12, so it is never a candidate.
    assert!(!moves.contains(&0xFFF));
}

#[test]
fn roll_seven_has_five_compositions() {
    let engine = base_engine();
    let moves = engine.generate_moves(0xFFF, 7).unwrap();
    assert_eq!(moves.len(), 5);
    assert_eq!(naive_candidate_count(0xFFF, 7), 5);
}

#[test]
fn cache_enumerates_all_compositions_per_roll() {
    let engine = base_engine();
    for r in 2..=12u32 {
        let moves = engine.generate_moves(0xFFF, r as u8).unwrap();
        assert_eq!(moves.len(), naive_candidate_count(0xFFF, r));
        for &m in &moves {
            assert_eq!(naive_mask_sum(m), r);
        }
    }
}

#[test]
fn candidates_are_subsets_summing_to_roll() {
    let engine = base_engine();
    for &board in &[0xFFFu16, 0x0AB, 0x123, 0x800, 0x001] {
        for r in 2..=12u32 {
            let moves = engine.generate_moves(board, r as u8).unwrap();
            for &m in &moves {
                assert_ne!(m, 0);
                assert_eq!(board & m, m);
                assert_eq!(naive_mask_sum(m), r);
                assert!(m.count_ones() <= r);
            }
        }
    }
}

#[test]
fn empty_board_has_no_moves_for_any_roll() {
    let engine = base_engine();
    for r in 2..=12u8 {
        let moves = engine.generate_moves(0, r).unwrap();
        assert!(moves.is_empty());
    }
}

#[test]
fn generator_is_idempotent() {
    let engine = base_engine();
    for &board in &[0xFFFu16, 0x5A5, 0x0F0] {
        for r in 2..=12u8 {
            let first = engine.generate_moves(board, r).unwrap();
            let second = engine.generate_moves(board, r).unwrap();
            assert_eq!(first, second);
        }
    }
}

#[test]
fn roll_one_is_invalid() {
    let engine = base_engine();
    assert_eq!(engine.generate_moves(0b000000000001, 1), Err(GameError::InvalidRoll));
}

#[test]
fn out_of_range_rolls_are_invalid() {
    let engine = base_engine();
    assert_eq!(engine.generate_moves(0xFFF, 0), Err(GameError::InvalidRoll));
    assert_eq!(engine.generate_moves(0xFFF, 13), Err(GameError::InvalidRoll));
    assert_eq!(engine.generate_moves(0xFFF, 255), Err(GameError::InvalidRoll));
}

#[test]
fn popcount_and_mask_sum_agree_with_reference() {
    assert_eq!(dice_game_simulator::popcount(0xFFF), 12);
    assert_eq!(dice_game_simulator::popcount(0), 0);
    assert_eq!(dice_game_simulator::popcount(0b1011), 3);
    assert_eq!(dice_game_simulator::mask_sum_exec(0b1011), 7);
    assert_eq!(dice_game_simulator::mask_sum_exec(0xFFF), 78);
    for m in 0..0x1000u16 {
        assert_eq!(dice_game_simulator::popcount(m), m.count_ones());
        assert_eq!(dice_game_simulator::mask_sum_exec(m), naive_mask_sum(m));
    }
}
