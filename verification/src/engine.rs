//! Per-player game state and the round bookkeeping of the state machine.
//!
//! A `GameState` carries the player's board, the running scores and the
//! moves taken this round.  Its mathematical model is `StateView`; every
//! mutation states exactly how the new view relates to the old one.

use vstd::prelude::*;
use crate::bits::{pop, FULL_BOARD};

verus! {

/// Number of rounds of a base-variant match.
pub const ROUNDS: usize = 5;

/// The rule variant a match is played under.
#[derive(Clone, Copy, PartialEq, Eq, Structural, Debug)]
pub enum GameMode {
    Base,
    Extended,
}

/// How a simulation draws its randomness: the standard levels use the
/// thread-default source, the fast levels the seeded generator.
#[derive(Clone, Copy, PartialEq, Eq, Structural, Debug)]
pub enum OptimizationLevel {
    Standard,
    FastPrecise,
    Fast,
    UltraOptimized,
}

/// Mathematical model of a player's state.
pub struct StateView {
    pub board: u16,
    pub current_round_score: u32,
    pub total_score: u32,
    pub opponent_score: u32,
    pub round: int,
    pub turn_history: Seq<u16>,
}

impl StateView {
    /// The board is a twelve-bit mask.
    pub open spec fn wf(self) -> bool {
        self.board <= 0xFFF
    }

    /// The state at match start: full board, all scores zero, no history.
    pub open spec fn initial() -> StateView {
        StateView {
            board: 0xFFF,
            current_round_score: 0,
            total_score: 0,
            opponent_score: 0,
            round: 0,
            turn_history: Seq::empty(),
        }
    }
}

/// A player's state: board, scores, round index and the moves taken this
/// round.
#[derive(Clone, Debug)]
pub struct GameState {
    pub board: u16,
    pub current_round_score: u32,
    pub total_score: u32,
    pub opponent_score: u32,
    pub round: usize,
    pub turn_history: Vec<u16>,
}

impl View for GameState {
    type V = StateView;

    open spec fn view(&self) -> StateView {
        StateView {
            board: self.board,
            current_round_score: self.current_round_score,
            total_score: self.total_score,
            opponent_score: self.opponent_score,
            round: self.round as int,
            turn_history: self.turn_history@,
        }
    }
}

impl GameState {
    /// A fresh state: full board and zero scores.
    pub fn new() -> (s: GameState)
        ensures
            s@ == StateView::initial(),
    {
        let s = GameState {
            board: FULL_BOARD,
            current_round_score: 0,
            total_score: 0,
            opponent_score: 0,
            round: 0,
            turn_history: Vec::new(),
        };
        proof {
            assert(s@ =~= StateView::initial());
        }
        s
    }

    /// Start a round: the board becomes full again, the round score returns
    /// to zero and the move history is cleared.  Totals and the round index
    /// are untouched.
    pub fn reset_board(&mut self)
        ensures
            final(self)@ == (StateView {
                board: 0xFFF,
                current_round_score: 0,
                turn_history: Seq::empty(),
                ..old(self)@
            }),
    {
        self.board = FULL_BOARD;
        self.current_round_score = 0;
        self.turn_history.clear();
        proof {
            assert(self@ =~= (StateView {
                board: 0xFFF,
                current_round_score: 0,
                turn_history: Seq::empty(),
                ..old(self)@
            }));
        }
    }

    /// End a round: the round score becomes the popcount of what is left on
    /// the board, is added to the total, and the round index advances.
    pub fn end_round(&mut self)
        requires
            old(self)@.total_score + pop(old(self)@.board) <= u32::MAX,
            old(self)@.round + 1 <= usize::MAX,
        ensures
            final(self)@ == (StateView {
                current_round_score: (pop(old(self)@.board)) as u32,
                total_score: (old(self)@.total_score + pop(old(self)@.board)) as u32,
                round: old(self)@.round + 1,
                ..old(self)@
            }),
    {
        proof {
            crate::bits::lemma_pop_bounds(self.board);
        }
        let score = crate::bits::popcount(self.board);
        self.current_round_score = score;
        self.total_score = self.total_score + score;
        self.round = self.round + 1;
        proof {
            assert(self@ =~= (StateView {
                current_round_score: (pop(old(self)@.board)) as u32,
                total_score: (old(self)@.total_score + pop(old(self)@.board)) as u32,
                round: old(self)@.round + 1,
                ..old(self)@
            }));
        }
    }
}

} // verus!
