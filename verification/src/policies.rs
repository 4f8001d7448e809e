//! Policies: the atomic strategies, the tagged policy value, and the
//! registered strategy list.
//!
//! Each atomic strategy picks among the candidates exactly as a composite
//! strategy holding that one component would; the tagged `Strategy` value
//! dispatches either an atomic case or a full composite.  `AIPlayer` is a
//! simple greedy single-position player for the shared-board variant.

use vstd::prelude::*;
use crate::bits::bit_set;
use crate::engine::GameState;
use crate::eval::EvalTable;
use crate::rng::Xoroshiro128Plus;
use crate::strategies::{choose_move_bits, spec_choose, CompositeStrategy, StrategyComponent};

verus! {

/// A chosen move: the mask of positions to flip.
#[derive(Clone, Copy, PartialEq, Eq, Structural, Debug)]
pub struct Move {
    pub bits_to_flip: u16,
}

/// Picks uniformly among the candidates.
pub struct RandomStrategy;

/// Prefers the candidate clearing the highest position.
pub struct HighestValueStrategy;

/// Prefers positions whose value is a likely roll.
pub struct HighestProbabilityStrategy;

/// Weighs position value by roll probability.
pub struct BalancedValueStrategy;

/// Plays safe when ahead, for value when behind.
pub struct AdaptiveStrategy;

/// Evaluates positions a bounded number of moves ahead.
pub struct LookAheadStrategy;

/// Adjusts play to the score difference and rounds left.
pub struct ScoreManagementStrategy;

/// Prefers moves clearing few positions.
pub struct RiskAverseStrategy;

/// Prefers moves clearing many positions.
pub struct AggressiveStrategy;

/// Favours moves already played this round.
pub struct PatternRecognitionStrategy;

/// A policy value: one case per atomic strategy plus the composite case.
pub enum Strategy {
    Random,
    HighestValue,
    HighestProbability,
    BalancedValue,
    Adaptive,
    LookAhead,
    ScoreManagement,
    RiskAverse,
    Aggressive,
    PatternRecognition,
    Composite(CompositeStrategy),
}

impl Strategy {
    /// The component bitset this policy evaluates with.
    pub open spec fn spec_bits(&self) -> u16 {
        match self {
            Strategy::Random => 1u16,
            Strategy::HighestValue => 2u16,
            Strategy::HighestProbability => 4u16,
            Strategy::BalancedValue => 8u16,
            Strategy::Adaptive => 16u16,
            Strategy::LookAhead => 32u16,
            Strategy::ScoreManagement => 64u16,
            Strategy::RiskAverse => 128u16,
            Strategy::Aggressive => 256u16,
            Strategy::PatternRecognition => 512u16,
            Strategy::Composite(c) => c.spec_bits(),
        }
    }

    /// Pick one candidate, exactly as `spec_choose` on this policy's
    /// component set pins down.
    pub fn choose_move(
        &self,
        state: &GameState,
        cands: &Vec<u16>,
        table: &EvalTable,
        rng: &mut Xoroshiro128Plus,
    ) -> (m: u16)
        requires
            cands@.len() > 0,
            state@.board <= 0xFFF,
            table.wf(),
        ensures
            m == spec_choose(state@, cands@, self.spec_bits(), table.spec_ext(), *old(rng)).0,
            *final(rng) == spec_choose(
                state@,
                cands@,
                self.spec_bits(),
                table.spec_ext(),
                *old(rng),
            ).1,
    {
        match self {
            Strategy::Random => choose_move_bits(1, state, cands, table, rng),
            Strategy::HighestValue => choose_move_bits(2, state, cands, table, rng),
            Strategy::HighestProbability => choose_move_bits(4, state, cands, table, rng),
            Strategy::BalancedValue => choose_move_bits(8, state, cands, table, rng),
            Strategy::Adaptive => choose_move_bits(16, state, cands, table, rng),
            Strategy::LookAhead => choose_move_bits(32, state, cands, table, rng),
            Strategy::ScoreManagement => choose_move_bits(64, state, cands, table, rng),
            Strategy::RiskAverse => choose_move_bits(128, state, cands, table, rng),
            Strategy::Aggressive => choose_move_bits(256, state, cands, table, rng),
            Strategy::PatternRecognition => choose_move_bits(512, state, cands, table, rng),
            Strategy::Composite(c) => c.choose_move(state, cands, table, rng),
        }
    }

    /// The policy's label.
    pub open spec fn spec_name(&self) -> Seq<char> {
        match self {
            Strategy::Random => "Random"@,
            Strategy::HighestValue => "Highest Value"@,
            Strategy::HighestProbability => "Highest Probability"@,
            Strategy::BalancedValue => "Balanced Value"@,
            Strategy::Adaptive => "Adaptive"@,
            Strategy::LookAhead => "Look Ahead"@,
            Strategy::ScoreManagement => "Score Management"@,
            Strategy::RiskAverse => "Risk Averse"@,
            Strategy::Aggressive => "Aggressive"@,
            Strategy::PatternRecognition => "Pattern Recognition"@,
            Strategy::Composite(c) => c.spec_name(),
        }
    }

    /// The line describing the policy.
    pub open spec fn spec_description(&self) -> Seq<char> {
        match self {
            Strategy::Random => "Chooses moves randomly"@,
            Strategy::HighestValue => "Always chooses the highest available value"@,
            Strategy::HighestProbability => "Chooses based on dice roll probability"@,
            Strategy::BalancedValue => "Balances between value and probability"@,
            Strategy::Adaptive => "Adapts strategy based on game state"@,
            Strategy::LookAhead => "Evaluates future positions"@,
            Strategy::ScoreManagement => "Adjusts strategy based on score difference"@,
            Strategy::RiskAverse => "Prefers safer, lower-value moves"@,
            Strategy::Aggressive => "Always goes for the highest value moves"@,
            Strategy::PatternRecognition => "Recognizes patterns in game progression"@,
            Strategy::Composite(_) => "Combines several scoring components"@,
        }
    }

    /// The policy's label.
    pub fn name(&self) -> (r: &str)
        ensures
            r@ == self.spec_name(),
    {
        match self {
            Strategy::Random => "Random",
            Strategy::HighestValue => "Highest Value",
            Strategy::HighestProbability => "Highest Probability",
            Strategy::BalancedValue => "Balanced Value",
            Strategy::Adaptive => "Adaptive",
            Strategy::LookAhead => "Look Ahead",
            Strategy::ScoreManagement => "Score Management",
            Strategy::RiskAverse => "Risk Averse",
            Strategy::Aggressive => "Aggressive",
            Strategy::PatternRecognition => "Pattern Recognition",
            Strategy::Composite(c) => c.name(),
        }
    }

    /// A line describing the policy.
    pub fn description(&self) -> (r: &str)
        ensures
            r@ == self.spec_description(),
    {
        match self {
            Strategy::Random => "Chooses moves randomly",
            Strategy::HighestValue => "Always chooses the highest available value",
            Strategy::HighestProbability => "Chooses based on dice roll probability",
            Strategy::BalancedValue => "Balances between value and probability",
            Strategy::Adaptive => "Adapts strategy based on game state",
            Strategy::LookAhead => "Evaluates future positions",
            Strategy::ScoreManagement => "Adjusts strategy based on score difference",
            Strategy::RiskAverse => "Prefers safer, lower-value moves",
            Strategy::Aggressive => "Always goes for the highest value moves",
            Strategy::PatternRecognition => "Recognizes patterns in game progression",
            Strategy::Composite(_) => "Combines several scoring components",
        }
    }
}

impl RandomStrategy {
    /// Pick one candidate, as a composite of this one component would.
    pub fn choose_move(
        &self,
        state: &GameState,
        cands: &Vec<u16>,
        table: &EvalTable,
        rng: &mut Xoroshiro128Plus,
    ) -> (mv: Move)
        requires
            cands@.len() > 0,
            state@.board <= 0xFFF,
            table.wf(),
        ensures
            mv.bits_to_flip == spec_choose(state@, cands@, 1u16, table.spec_ext(), *old(rng)).0,
            *final(rng) == spec_choose(state@, cands@, 1u16, table.spec_ext(), *old(rng)).1,
    {
        Move { bits_to_flip: choose_move_bits(1u16, state, cands, table, rng) }
    }
}

impl HighestValueStrategy {
    /// Pick one candidate, as a composite of this one component would.
    pub fn choose_move(
        &self,
        state: &GameState,
        cands: &Vec<u16>,
        table: &EvalTable,
        rng: &mut Xoroshiro128Plus,
    ) -> (mv: Move)
        requires
            cands@.len() > 0,
            state@.board <= 0xFFF,
            table.wf(),
        ensures
            mv.bits_to_flip == spec_choose(state@, cands@, 2u16, table.spec_ext(), *old(rng)).0,
            *final(rng) == spec_choose(state@, cands@, 2u16, table.spec_ext(), *old(rng)).1,
    {
        Move { bits_to_flip: choose_move_bits(2u16, state, cands, table, rng) }
    }
}

impl HighestProbabilityStrategy {
    /// Pick one candidate, as a composite of this one component would.
    pub fn choose_move(
        &self,
        state: &GameState,
        cands: &Vec<u16>,
        table: &EvalTable,
        rng: &mut Xoroshiro128Plus,
    ) -> (mv: Move)
        requires
            cands@.len() > 0,
            state@.board <= 0xFFF,
            table.wf(),
        ensures
            mv.bits_to_flip == spec_choose(state@, cands@, 4u16, table.spec_ext(), *old(rng)).0,
            *final(rng) == spec_choose(state@, cands@, 4u16, table.spec_ext(), *old(rng)).1,
    {
        Move { bits_to_flip: choose_move_bits(4u16, state, cands, table, rng) }
    }
}

impl BalancedValueStrategy {
    /// Pick one candidate, as a composite of this one component would.
    pub fn choose_move(
        &self,
        state: &GameState,
        cands: &Vec<u16>,
        table: &EvalTable,
        rng: &mut Xoroshiro128Plus,
    ) -> (mv: Move)
        requires
            cands@.len() > 0,
            state@.board <= 0xFFF,
            table.wf(),
        ensures
            mv.bits_to_flip == spec_choose(state@, cands@, 8u16, table.spec_ext(), *old(rng)).0,
            *final(rng) == spec_choose(state@, cands@, 8u16, table.spec_ext(), *old(rng)).1,
    {
        Move { bits_to_flip: choose_move_bits(8u16, state, cands, table, rng) }
    }
}

impl AdaptiveStrategy {
    /// Pick one candidate, as a composite of this one component would.
    pub fn choose_move(
        &self,
        state: &GameState,
        cands: &Vec<u16>,
        table: &EvalTable,
        rng: &mut Xoroshiro128Plus,
    ) -> (mv: Move)
        requires
            cands@.len() > 0,
            state@.board <= 0xFFF,
            table.wf(),
        ensures
            mv.bits_to_flip == spec_choose(state@, cands@, 16u16, table.spec_ext(), *old(rng)).0,
            *final(rng) == spec_choose(state@, cands@, 16u16, table.spec_ext(), *old(rng)).1,
    {
        Move { bits_to_flip: choose_move_bits(16u16, state, cands, table, rng) }
    }
}

impl LookAheadStrategy {
    /// Pick one candidate, as a composite of this one component would.
    pub fn choose_move(
        &self,
        state: &GameState,
        cands: &Vec<u16>,
        table: &EvalTable,
        rng: &mut Xoroshiro128Plus,
    ) -> (mv: Move)
        requires
            cands@.len() > 0,
            state@.board <= 0xFFF,
            table.wf(),
        ensures
            mv.bits_to_flip == spec_choose(state@, cands@, 32u16, table.spec_ext(), *old(rng)).0,
            *final(rng) == spec_choose(state@, cands@, 32u16, table.spec_ext(), *old(rng)).1,
    {
        Move { bits_to_flip: choose_move_bits(32u16, state, cands, table, rng) }
    }
}

impl ScoreManagementStrategy {
    /// Pick one candidate, as a composite of this one component would.
    pub fn choose_move(
        &self,
        state: &GameState,
        cands: &Vec<u16>,
        table: &EvalTable,
        rng: &mut Xoroshiro128Plus,
    ) -> (mv: Move)
        requires
            cands@.len() > 0,
            state@.board <= 0xFFF,
            table.wf(),
        ensures
            mv.bits_to_flip == spec_choose(state@, cands@, 64u16, table.spec_ext(), *old(rng)).0,
            *final(rng) == spec_choose(state@, cands@, 64u16, table.spec_ext(), *old(rng)).1,
    {
        Move { bits_to_flip: choose_move_bits(64u16, state, cands, table, rng) }
    }
}

impl RiskAverseStrategy {
    /// Pick one candidate, as a composite of this one component would.
    pub fn choose_move(
        &self,
        state: &GameState,
        cands: &Vec<u16>,
        table: &EvalTable,
        rng: &mut Xoroshiro128Plus,
    ) -> (mv: Move)
        requires
            cands@.len() > 0,
            state@.board <= 0xFFF,
            table.wf(),
        ensures
            mv.bits_to_flip == spec_choose(state@, cands@, 128u16, table.spec_ext(), *old(rng)).0,
            *final(rng) == spec_choose(state@, cands@, 128u16, table.spec_ext(), *old(rng)).1,
    {
        Move { bits_to_flip: choose_move_bits(128u16, state, cands, table, rng) }
    }
}

impl AggressiveStrategy {
    /// Pick one candidate, as a composite of this one component would.
    pub fn choose_move(
        &self,
        state: &GameState,
        cands: &Vec<u16>,
        table: &EvalTable,
        rng: &mut Xoroshiro128Plus,
    ) -> (mv: Move)
        requires
            cands@.len() > 0,
            state@.board <= 0xFFF,
            table.wf(),
        ensures
            mv.bits_to_flip == spec_choose(state@, cands@, 256u16, table.spec_ext(), *old(rng)).0,
            *final(rng) == spec_choose(state@, cands@, 256u16, table.spec_ext(), *old(rng)).1,
    {
        Move { bits_to_flip: choose_move_bits(256u16, state, cands, table, rng) }
    }
}

impl PatternRecognitionStrategy {
    /// Pick one candidate, as a composite of this one component would.
    pub fn choose_move(
        &self,
        state: &GameState,
        cands: &Vec<u16>,
        table: &EvalTable,
        rng: &mut Xoroshiro128Plus,
    ) -> (mv: Move)
        requires
            cands@.len() > 0,
            state@.board <= 0xFFF,
            table.wf(),
        ensures
            mv.bits_to_flip == spec_choose(state@, cands@, 512u16, table.spec_ext(), *old(rng)).0,
            *final(rng) == spec_choose(state@, cands@, 512u16, table.spec_ext(), *old(rng)).1,
    {
        Move { bits_to_flip: choose_move_bits(512u16, state, cands, table, rng) }
    }
}

/// Whether position `i` qualifies for the greedy single-position player:
/// it is below the roll, within a die face of it, and on the player's side
/// of the board (set for the clearing player, clear for the setting one).
pub open spec fn ai_cond(board: u16, roll: u16, is_player_a: bool, i: int) -> bool {
    1 <= i < roll && roll - i <= 6 && (if is_player_a {
        bit_set(board, (i - 1) as u32)
    } else {
        !bit_set(board, (i - 1) as u32)
    })
}

/// The first qualifying position at or after `i`, or 0 when none exists.
pub open spec fn ai_scan(board: u16, roll: u16, is_player_a: bool, i: int) -> int
    decreases roll - i,
{
    if i >= roll || i < 1 {
        0
    } else if ai_cond(board, roll, is_player_a, i) {
        i
    } else {
        ai_scan(board, roll, is_player_a, i + 1)
    }
}

/// The board after the greedy player's move and whether it moved: flip the
/// roll's own position when it is on the player's side, else the first
/// qualifying lower position, else pass.
pub open spec fn spec_ai_move(board: u16, roll: u16, is_player_a: bool) -> (u16, bool) {
    let mask = 1u16 << ((roll - 1) as u16);
    if is_player_a {
        if board & mask != 0 {
            (board & !mask, true)
        } else {
            let i = ai_scan(board, roll, true, 1);
            if i == 0 {
                (board, false)
            } else {
                (board & !(1u16 << ((i - 1) as u16)), true)
            }
        }
    } else {
        if board & mask == 0 {
            (board | mask, true)
        } else {
            let i = ai_scan(board, roll, false, 1);
            if i == 0 {
                (board, false)
            } else {
                (board | (1u16 << ((i - 1) as u16)), true)
            }
        }
    }
}

proof fn lemma_ai_scan_hit(board: u16, roll: u16, is_player_a: bool, s: int, i: int)
    requires
        1 <= s <= i < roll,
        ai_cond(board, roll, is_player_a, i),
        forall|j: int| s <= j < i ==> !ai_cond(board, roll, is_player_a, j),
    ensures
        ai_scan(board, roll, is_player_a, s) == i,
    decreases i - s,
{
    if s < i {
        lemma_ai_scan_hit(board, roll, is_player_a, s + 1, i);
    }
}

proof fn lemma_ai_scan_miss(board: u16, roll: u16, is_player_a: bool, s: int)
    requires
        1 <= s,
        forall|j: int| s <= j < roll ==> !ai_cond(board, roll, is_player_a, j),
    ensures
        ai_scan(board, roll, is_player_a, s) == 0,
    decreases roll - s,
{
    if s < roll {
        lemma_ai_scan_miss(board, roll, is_player_a, s + 1);
    }
}

/// A greedy single-position player for the shared-board variant: player A
/// clears positions, player B sets them.
pub struct AIPlayer;

impl AIPlayer {
    /// Flip the roll's own position when it is on the player's side of the
    /// board, else the first qualifying position below the roll; return
    /// whether a flip was made.  The result is pinned by `spec_ai_move`.
    pub fn make_move(board: &mut u16, roll: u16, is_player_a: bool) -> (moved: bool)
        requires
            1 <= roll <= 12,
        ensures
            (*final(board), moved) == spec_ai_move(*old(board), roll, is_player_a),
    {
        let mask: u16 = 1u16 << ((roll - 1) as u16);
        if is_player_a {
            if *board & mask != 0 {
                *board = *board & !mask;
                return true;
            }
        } else {
            if *board & mask == 0 {
                *board = *board | mask;
                return true;
            }
        }
        let b0: u16 = *board;
        let mut i: u16 = 1;
        while i < roll
            invariant
                1 <= roll <= 12,
                1 <= i <= roll,
                b0 == *board,
                b0 == *old(board),
                mask == 1u16 << ((roll - 1) as u16),
                is_player_a ==> b0 & mask == 0,
                !is_player_a ==> b0 & mask != 0,
                forall|j: int| 1 <= j < i ==> !ai_cond(b0, roll, is_player_a, j),
            decreases roll - i,
        {
            let on = (b0 >> ((i - 1) as u16)) & 1 == 1;
            proof {
                let iu = (i - 1) as u16;
                assert(((b0 >> iu) & 1u16 == 1u16) == bit_set(b0, iu as u32)) by (bit_vector)
                    requires
                        iu < 12u16,
                ;
            }
            let qualifies = (if is_player_a {
                on
            } else {
                !on
            }) && roll - i <= 6;
            if qualifies {
                let flip: u16 = 1u16 << ((i - 1) as u16);
                if is_player_a {
                    *board = b0 & !flip;
                } else {
                    *board = b0 | flip;
                }
                proof {
                    lemma_ai_scan_hit(b0, roll, is_player_a, 1, i as int);
                }
                return true;
            }
            i = i + 1;
        }
        proof {
            lemma_ai_scan_miss(b0, roll, is_player_a, 1);
        }
        false
    }
}

/// The registered strategy list: each atomic scoring strategy on its own,
/// then the stock composites.
pub fn create_strategies() -> (r: Vec<CompositeStrategy>)
    ensures
        r@.len() == 11,
        forall|idx: int, c: StrategyComponent|
            0 <= idx < 11 ==> (#[trigger] r@[idx].has_component(c) <==> strategy_set(idx).contains(
                c,
            )),
        forall|idx: int| 0 <= idx < 11 ==> (#[trigger] r@[idx].spec_name()) == strategy_name(idx),
        forall|idx: int| 0 <= idx < 11 ==> (#[trigger] r@[idx].spec_bits()) < 0x400,
{
    let mut v: Vec<CompositeStrategy> = Vec::new();
    let c0 = comps1(StrategyComponent::Random);
    push_strategy(&mut v, c0.as_slice(), "Random");
    let c1 = comps1(StrategyComponent::HighestValue);
    push_strategy(&mut v, c1.as_slice(), "Highest Value");
    let c2 = comps1(StrategyComponent::HighestProbability);
    push_strategy(&mut v, c2.as_slice(), "Highest Probability");
    let c3 = comps1(StrategyComponent::BalancedValue);
    push_strategy(&mut v, c3.as_slice(), "Balanced Value");
    let c4 = comps1(StrategyComponent::Adaptive);
    push_strategy(&mut v, c4.as_slice(), "Adaptive");
    let c5 = comps1(StrategyComponent::LookAhead);
    push_strategy(&mut v, c5.as_slice(), "Look Ahead");
    let c6 = comps2(StrategyComponent::Adaptive, StrategyComponent::ScoreManagement);
    push_strategy(&mut v, c6.as_slice(), "Adaptive Score Management");
    let c7 = comps2(StrategyComponent::LookAhead, StrategyComponent::ScoreManagement);
    push_strategy(&mut v, c7.as_slice(), "Look Ahead Score Management");
    let c8 = comps3(
        StrategyComponent::LookAhead,
        StrategyComponent::Adaptive,
        StrategyComponent::ScoreManagement,
    );
    push_strategy(&mut v, c8.as_slice(), "Advanced Adaptive");
    let c9 = comps3(
        StrategyComponent::BalancedValue,
        StrategyComponent::RiskAverse,
        StrategyComponent::PatternRecognition,
    );
    push_strategy(&mut v, c9.as_slice(), "Cautious Pattern Learner");
    let c10 = comps3(
        StrategyComponent::HighestValue,
        StrategyComponent::Aggressive,
        StrategyComponent::LookAhead,
    );
    push_strategy(&mut v, c10.as_slice(), "Aggressive Planner");
    proof {
        assert(c0@ =~= strategy_set(0));
        assert(c1@ =~= strategy_set(1));
        assert(c2@ =~= strategy_set(2));
        assert(c3@ =~= strategy_set(3));
        assert(c4@ =~= strategy_set(4));
        assert(c5@ =~= strategy_set(5));
        assert(c6@ =~= strategy_set(6));
        assert(c7@ =~= strategy_set(7));
        assert(c8@ =~= strategy_set(8));
        assert(c9@ =~= strategy_set(9));
        assert(c10@ =~= strategy_set(10));
    }
    v
}

/// A one-component list.
fn comps1(a: StrategyComponent) -> (r: Vec<StrategyComponent>)
    ensures
        r@ == seq![a],
{
    let mut r: Vec<StrategyComponent> = Vec::new();
    r.push(a);
    proof {
        assert(r@ =~= seq![a]);
    }
    r
}

/// A two-component list.
fn comps2(a: StrategyComponent, b: StrategyComponent) -> (r: Vec<StrategyComponent>)
    ensures
        r@ == seq![a, b],
{
    let mut r: Vec<StrategyComponent> = Vec::new();
    r.push(a);
    r.push(b);
    proof {
        assert(r@ =~= seq![a, b]);
    }
    r
}

/// A three-component list.
fn comps3(a: StrategyComponent, b: StrategyComponent, c: StrategyComponent) -> (r: Vec<
    StrategyComponent,
>)
    ensures
        r@ == seq![a, b, c],
{
    let mut r: Vec<StrategyComponent> = Vec::new();
    r.push(a);
    r.push(b);
    r.push(c);
    proof {
        assert(r@ =~= seq![a, b, c]);
    }
    r
}

/// The component list of entry `idx` of the registered strategy list.
pub open spec fn strategy_set(idx: int) -> Seq<StrategyComponent> {
    if idx == 0 {
        seq![StrategyComponent::Random]
    } else if idx == 1 {
        seq![StrategyComponent::HighestValue]
    } else if idx == 2 {
        seq![StrategyComponent::HighestProbability]
    } else if idx == 3 {
        seq![StrategyComponent::BalancedValue]
    } else if idx == 4 {
        seq![StrategyComponent::Adaptive]
    } else if idx == 5 {
        seq![StrategyComponent::LookAhead]
    } else if idx == 6 {
        seq![StrategyComponent::Adaptive, StrategyComponent::ScoreManagement]
    } else if idx == 7 {
        seq![StrategyComponent::LookAhead, StrategyComponent::ScoreManagement]
    } else if idx == 8 {
        seq![
            StrategyComponent::LookAhead,
            StrategyComponent::Adaptive,
            StrategyComponent::ScoreManagement,
        ]
    } else if idx == 9 {
        seq![
            StrategyComponent::BalancedValue,
            StrategyComponent::RiskAverse,
            StrategyComponent::PatternRecognition,
        ]
    } else {
        seq![
            StrategyComponent::HighestValue,
            StrategyComponent::Aggressive,
            StrategyComponent::LookAhead,
        ]
    }
}

/// The label of entry `idx` of the registered strategy list.
pub open spec fn strategy_name(idx: int) -> Seq<char> {
    if idx == 0 {
        "Random"@
    } else if idx == 1 {
        "Highest Value"@
    } else if idx == 2 {
        "Highest Probability"@
    } else if idx == 3 {
        "Balanced Value"@
    } else if idx == 4 {
        "Adaptive"@
    } else if idx == 5 {
        "Look Ahead"@
    } else if idx == 6 {
        "Adaptive Score Management"@
    } else if idx == 7 {
        "Look Ahead Score Management"@
    } else if idx == 8 {
        "Advanced Adaptive"@
    } else if idx == 9 {
        "Cautious Pattern Learner"@
    } else {
        "Aggressive Planner"@
    }
}

/// The registered strategy list is the same on every call: any two results
/// of `create_strategies`' contract agree, entry by entry, on the label and
/// on the component bitset that every choice goes through.
pub proof fn lemma_create_strategies_deterministic(
    r1: Seq<CompositeStrategy>,
    r2: Seq<CompositeStrategy>,
)
    requires
        r1.len() == 11,
        r2.len() == 11,
        forall|idx: int, c: StrategyComponent|
            0 <= idx < 11 ==> (#[trigger] r1[idx].has_component(c) <==> strategy_set(idx).contains(
                c,
            )),
        forall|idx: int, c: StrategyComponent|
            0 <= idx < 11 ==> (#[trigger] r2[idx].has_component(c) <==> strategy_set(idx).contains(
                c,
            )),
        forall|idx: int| 0 <= idx < 11 ==> (#[trigger] r1[idx].spec_name()) == strategy_name(idx),
        forall|idx: int| 0 <= idx < 11 ==> (#[trigger] r2[idx].spec_name()) == strategy_name(idx),
        forall|idx: int| 0 <= idx < 11 ==> (#[trigger] r1[idx].spec_bits()) < 0x400,
        forall|idx: int| 0 <= idx < 11 ==> (#[trigger] r2[idx].spec_bits()) < 0x400,
    ensures
        forall|idx: int|
            0 <= idx < 11 ==> (#[trigger] r1[idx].spec_bits()) == r2[idx].spec_bits()
                && r1[idx].spec_name() == r2[idx].spec_name(),
{
    assert forall|idx: int|
        0 <= idx < 11 implies (#[trigger] r1[idx].spec_bits()) == r2[idx].spec_bits()
        && r1[idx].spec_name() == r2[idx].spec_name() by {
        assert forall|c: StrategyComponent|
            r1[idx].has_component(c) <==> r2[idx].has_component(c) by {
            assert(r1[idx].has_component(c) <==> strategy_set(idx).contains(c));
            assert(r2[idx].has_component(c) <==> strategy_set(idx).contains(c));
        }
        crate::strategies::lemma_bits_determined(&r1[idx], &r2[idx]);
    }
}

fn push_strategy(v: &mut Vec<CompositeStrategy>, components: &[StrategyComponent], name: &str)
    ensures
        final(v)@.len() == old(v)@.len() + 1,
        final(v)@ == old(v)@.push(final(v)@.last()),
        forall|c: StrategyComponent|
            final(v)@.last().has_component(c) <==> components@.contains(c),
        final(v)@.last().spec_name() == name@,
        final(v)@.last().spec_bits() < 0x400,
{
    let s = CompositeStrategy::new(components, name);
    v.push(s);
}

} // verus!
