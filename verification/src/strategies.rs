//! The composable scoring kernel.
//!
//! A composite strategy is a set of atomic scoring components plus a label.
//! To pick a move, every candidate starts at score zero, each active
//! component adds its contribution in a fixed component order, and the
//! highest-scoring candidate wins with ties broken by candidate order.
//!
//! Scores are fixed-point: deterministic contributions are whole numbers
//! scaled by `SCORE_SCALE`, and the random component adds a uniform draw in
//! `[0, SCORE_SCALE)`, so it perturbs scores by less than one unit and never
//! overturns a deterministic gap.  The whole selection, including the state
//! of the seeded generator after it, is pinned down by `spec_choose`.

use vstd::prelude::*;
use vstd::std_specs::bits::u16_trailing_zeros;
use crate::bits::pop;
use crate::engine::StateView;
use crate::eval::{spec_eval_move, EvalTable};
use crate::rng::{spec_draw32, Xoroshiro128Plus};

verus! {

/// One scale unit of the fixed-point score.
pub const SCORE_SCALE: i64 = 0x1_0000_0000;

/// The atomic scoring components.
#[derive(Clone, Copy, PartialEq, Eq, Structural, Debug, Hash)]
pub enum StrategyComponent {
    Random,
    HighestValue,
    HighestProbability,
    BalancedValue,
    Adaptive,
    LookAhead,
    ScoreManagement,
    RiskAverse,
    Aggressive,
    PatternRecognition,
}

/// The position of a component in the fixed evaluation order.
pub open spec fn component_index(c: StrategyComponent) -> int {
    match c {
        StrategyComponent::Random => 0,
        StrategyComponent::HighestValue => 1,
        StrategyComponent::HighestProbability => 2,
        StrategyComponent::BalancedValue => 3,
        StrategyComponent::Adaptive => 4,
        StrategyComponent::LookAhead => 5,
        StrategyComponent::ScoreManagement => 6,
        StrategyComponent::RiskAverse => 7,
        StrategyComponent::Aggressive => 8,
        StrategyComponent::PatternRecognition => 9,
    }
}

/// The component at position `k` of the evaluation order.
pub open spec fn component_at(k: int) -> StrategyComponent {
    if k == 0 {
        StrategyComponent::Random
    } else if k == 1 {
        StrategyComponent::HighestValue
    } else if k == 2 {
        StrategyComponent::HighestProbability
    } else if k == 3 {
        StrategyComponent::BalancedValue
    } else if k == 4 {
        StrategyComponent::Adaptive
    } else if k == 5 {
        StrategyComponent::LookAhead
    } else if k == 6 {
        StrategyComponent::ScoreManagement
    } else if k == 7 {
        StrategyComponent::RiskAverse
    } else if k == 8 {
        StrategyComponent::Aggressive
    } else {
        StrategyComponent::PatternRecognition
    }
}

/// The value of a move: the lowest position number it clears.
pub open spec fn spec_value(m: u16) -> int {
    u16_trailing_zeros(m) + 1
}

/// Distance of `v` from the most probable roll, 7.
pub open spec fn spec_abs7(v: int) -> int {
    if v >= 7 {
        v - 7
    } else {
        7 - v
    }
}

/// The probability-weighted contribution: rolls near 7 are likelier.
pub open spec fn spec_hp(m: u16) -> int {
    7 - spec_abs7(spec_value(m))
}

/// Contribution of the score-management component: play safe when far
/// ahead, take risks when far behind, balanced otherwise.
pub open spec fn spec_score_management(sv: StateView, m: u16) -> int {
    let d = sv.total_score - sv.opponent_score;
    let rr: int = if sv.round >= 5 {
        0
    } else {
        5 - sv.round
    };
    if d > 10 * rr {
        spec_hp(m)
    } else if d < -10 * rr {
        spec_value(m)
    } else {
        spec_value(m) * spec_hp(m)
    }
}

/// The unscaled contribution of one deterministic component to candidate
/// `m` in state `sv` (the random component contributes by drawing instead).
pub open spec fn spec_contrib(c: StrategyComponent, sv: StateView, m: u16, ext: bool) -> int {
    match c {
        StrategyComponent::Random => 0,
        StrategyComponent::HighestValue => spec_value(m),
        StrategyComponent::HighestProbability => spec_hp(m),
        StrategyComponent::BalancedValue => spec_value(m) * spec_hp(m),
        StrategyComponent::Adaptive => if sv.total_score > sv.opponent_score {
            spec_hp(m)
        } else {
            spec_value(m)
        },
        StrategyComponent::LookAhead => spec_eval_move(sv.board, m, 3, ext),
        StrategyComponent::ScoreManagement => spec_score_management(sv, m),
        StrategyComponent::RiskAverse => -pop(m),
        StrategyComponent::Aggressive => pop(m),
        StrategyComponent::PatternRecognition => if sv.turn_history.contains(m) {
            5int
        } else {
            0int
        },
    }
}

/// Every contribution lies in `[-200, 200]`.
pub proof fn lemma_contrib_bounds(c: StrategyComponent, sv: StateView, m: u16, ext: bool)
    ensures
        -200 <= spec_contrib(c, sv, m, ext) <= 200,
{
    vstd::std_specs::bits::axiom_u16_trailing_zeros(m);
    crate::bits::lemma_pop_bounds(m);
    assert(1 <= spec_value(m) <= 17);
    assert(-3 <= spec_hp(m) <= 7);
    assert(-200 <= spec_value(m) * spec_hp(m) <= 200) by (nonlinear_arith)
        requires
            1 <= spec_value(m) <= 17,
            -3 <= spec_hp(m) <= 7,
    ;
    crate::eval::lemma_eval_board_bounds(crate::bits::clear_mask(sv.board, m), 3, ext);
    crate::bits::lemma_pop_bounds(crate::bits::clear_mask(sv.board, m));
}

/// All-zero scores for `n` candidates.
pub open spec fn zero_scores(n: int) -> Seq<int> {
    Seq::new(n as nat, |i: int| 0int)
}

/// Scores after adding the scaled contribution of deterministic component
/// `c` to every candidate.
pub open spec fn spec_add_det(
    c: StrategyComponent,
    sv: StateView,
    cands: Seq<u16>,
    scores: Seq<int>,
    ext: bool,
) -> Seq<int> {
    Seq::new(scores.len(), |i: int| scores[i] + SCORE_SCALE * spec_contrib(c, sv, cands[i], ext))
}

/// Scores and generator state after the random component has drawn once for
/// each of the first `i` candidates in order.
pub open spec fn spec_add_random(scores: Seq<int>, rng: Xoroshiro128Plus, i: int) -> (
    Seq<int>,
    Xoroshiro128Plus,
)
    decreases i,
{
    if i <= 0 {
        (scores, rng)
    } else {
        let (prev, r1) = spec_add_random(scores, rng, i - 1);
        let (v, r2) = spec_draw32(r1);
        (prev.update(i - 1, prev[i - 1] + v), r2)
    }
}

/// Scores and generator state after applying the first `k` components of
/// the evaluation order whose bit is set in `bits`, starting from all-zero
/// scores.
pub open spec fn spec_apply_upto(
    bits: u16,
    sv: StateView,
    cands: Seq<u16>,
    ext: bool,
    k: int,
    rng: Xoroshiro128Plus,
) -> (Seq<int>, Xoroshiro128Plus)
    decreases k,
{
    if k <= 0 {
        (zero_scores(cands.len() as int), rng)
    } else {
        let (prev, r1) = spec_apply_upto(bits, sv, cands, ext, k - 1, rng);
        if bits & (1u16 << ((k - 1) as u16)) != 0 {
            if k - 1 == 0 {
                spec_add_random(prev, r1, prev.len() as int)
            } else {
                (spec_add_det(component_at(k - 1), sv, cands, prev, ext), r1)
            }
        } else {
            (prev, r1)
        }
    }
}

/// The component set actually evaluated: the low ten bits, or the random
/// component alone when the set is empty.
pub open spec fn effective_bits(bits: u16) -> u16 {
    if bits & 0x3FF == 0 {
        1u16
    } else {
        bits & 0x3FF
    }
}

/// The final scores of all candidates and the generator state after them.
pub open spec fn spec_scores(
    sv: StateView,
    cands: Seq<u16>,
    bits: u16,
    ext: bool,
    rng: Xoroshiro128Plus,
) -> (Seq<int>, Xoroshiro128Plus) {
    spec_apply_upto(effective_bits(bits), sv, cands, ext, 10, rng)
}

/// Index of the first maximal element among the first `n` scores.
pub open spec fn spec_argmax_upto(s: Seq<int>, n: int) -> int
    decreases n,
{
    if n <= 1 {
        0
    } else {
        let p = spec_argmax_upto(s, n - 1);
        if s[n - 1] > s[p] {
            n - 1
        } else {
            p
        }
    }
}

/// Index of the first maximal score.
pub open spec fn spec_argmax(s: Seq<int>) -> int {
    spec_argmax_upto(s, s.len() as int)
}

/// The candidate a composite strategy with component set `bits` picks in
/// state `sv`, and the generator state afterwards.
pub open spec fn spec_choose(
    sv: StateView,
    cands: Seq<u16>,
    bits: u16,
    ext: bool,
    rng: Xoroshiro128Plus,
) -> (u16, Xoroshiro128Plus) {
    let (scores, rng2) = spec_scores(sv, cands, bits, ext, rng);
    (cands[spec_argmax(scores)], rng2)
}

/// Drawing for a prefix keeps the number of scores.
pub proof fn lemma_add_random_len(scores: Seq<int>, rng: Xoroshiro128Plus, i: int)
    requires
        i <= scores.len(),
    ensures
        spec_add_random(scores, rng, i).0.len() == scores.len(),
    decreases i,
{
    if i > 0 {
        lemma_add_random_len(scores, rng, i - 1);
    }
}

/// Applying components keeps one score per candidate.
pub proof fn lemma_apply_len(
    bits: u16,
    sv: StateView,
    cands: Seq<u16>,
    ext: bool,
    k: int,
    rng: Xoroshiro128Plus,
)
    ensures
        spec_apply_upto(bits, sv, cands, ext, k, rng).0.len() == cands.len(),
    decreases k,
{
    if k > 0 {
        lemma_apply_len(bits, sv, cands, ext, k - 1, rng);
        let (prev, r1) = spec_apply_upto(bits, sv, cands, ext, k - 1, rng);
        lemma_add_random_len(prev, r1, prev.len() as int);
    }
}

proof fn lemma_draw32_bound(r1: Xoroshiro128Plus)
    ensures
        0 <= spec_draw32(r1).0 < SCORE_SCALE,
{
    let v = crate::rng::spec_next_value(r1);
    assert(v >> 32u64 < 0x1_0000_0000) by (bit_vector);
}

/// After `k` components every score lies within `k` times the largest
/// possible step.
pub proof fn lemma_apply_bounds(
    bits: u16,
    sv: StateView,
    cands: Seq<u16>,
    ext: bool,
    k: int,
    rng: Xoroshiro128Plus,
)
    requires
        0 <= k,
    ensures
        forall|j: int|
            0 <= j < cands.len() ==> -(k * 201 * SCORE_SCALE) <= #[trigger] spec_apply_upto(
                bits,
                sv,
                cands,
                ext,
                k,
                rng,
            ).0[j] <= k * 201 * SCORE_SCALE,
    decreases k,
{
    lemma_apply_len(bits, sv, cands, ext, k, rng);
    if k > 0 {
        lemma_apply_bounds(bits, sv, cands, ext, k - 1, rng);
        lemma_apply_len(bits, sv, cands, ext, k - 1, rng);
        let (prev, r1) = spec_apply_upto(bits, sv, cands, ext, k - 1, rng);
        let pb = (k - 1) * 201 * SCORE_SCALE;
        assert(forall|j: int| 0 <= j < prev.len() ==> -pb <= #[trigger] prev[j] <= pb);
        if bits & (1u16 << ((k - 1) as u16)) != 0 {
            if k - 1 == 0 {
                lemma_add_random_step(prev, r1, prev.len() as int);
            } else {
                let c = component_at(k - 1);
                assert forall|j: int| 0 <= j < prev.len() implies -(k * 201 * SCORE_SCALE)
                    <= #[trigger] spec_add_det(c, sv, cands, prev, ext)[j] <= k * 201 * SCORE_SCALE
                    by {
                    lemma_contrib_bounds(c, sv, cands[j], ext);
                    assert(-200 * SCORE_SCALE <= SCORE_SCALE * spec_contrib(c, sv, cands[j], ext)
                        <= 200 * SCORE_SCALE) by (nonlinear_arith)
                        requires
                            -200 <= spec_contrib(c, sv, cands[j], ext) <= 200,
                    ;
                }
            }
        }
    }
}

/// Drawing adds less than one scale unit to each of the first `i` scores
/// and leaves the rest untouched.
pub proof fn lemma_add_random_step(scores: Seq<int>, rng: Xoroshiro128Plus, i: int)
    requires
        0 <= i <= scores.len(),
    ensures
        forall|j: int|
            0 <= j < i ==> scores[j] <= #[trigger] spec_add_random(scores, rng, i).0[j] < scores[j]
                + SCORE_SCALE,
        forall|j: int|
            i <= j < scores.len() ==> #[trigger] spec_add_random(scores, rng, i).0[j] == scores[j],
    decreases i,
{
    lemma_add_random_len(scores, rng, i);
    if i > 0 {
        lemma_add_random_step(scores, rng, i - 1);
        lemma_add_random_len(scores, rng, i - 1);
        let (prev, r1) = spec_add_random(scores, rng, i - 1);
        lemma_draw32_bound(r1);
        let v = spec_draw32(r1).0;
        let res = spec_add_random(scores, rng, i).0;
        assert(res == prev.update(i - 1, prev[i - 1] + v));
        assert forall|j: int| 0 <= j < i implies scores[j] <= #[trigger] res[j] < scores[j] + SCORE_SCALE by {
            if j == i - 1 {
                assert(prev[j] == scores[j]);
                assert(res[j] == prev[j] + v);
            } else {
                assert(res[j] == prev[j]);
            }
        }
        assert forall|j: int| i <= j < scores.len() implies #[trigger] res[j] == scores[j] by {
            assert(res[j] == prev[j]);
        }
    }
}

/// The first-maximum index is always in range.
pub proof fn lemma_argmax_range(s: Seq<int>, n: int)
    requires
        1 <= n <= s.len(),
    ensures
        0 <= spec_argmax_upto(s, n) < n,
    decreases n,
{
    if n > 1 {
        lemma_argmax_range(s, n - 1);
    }
}

/// The chosen candidate is always one of the candidates.
pub proof fn lemma_choose_in_cands(
    sv: StateView,
    cands: Seq<u16>,
    bits: u16,
    ext: bool,
    rng: Xoroshiro128Plus,
)
    requires
        cands.len() > 0,
    ensures
        cands.contains(spec_choose(sv, cands, bits, ext, rng).0),
{
    let scores = spec_scores(sv, cands, bits, ext, rng).0;
    lemma_apply_len(effective_bits(bits), sv, cands, ext, 10, rng);
    lemma_argmax_range(scores, scores.len() as int);
}

/// A component bitset within the ten-component range is fully determined
/// by which components it holds: two strategies with the same component
/// set carry the same bits, so the set alone fixes every choice the
/// strategy makes.
pub proof fn lemma_bits_determined(s1: &CompositeStrategy, s2: &CompositeStrategy)
    requires
        s1.spec_bits() < 0x400,
        s2.spec_bits() < 0x400,
        forall|c: StrategyComponent| s1.has_component(c) <==> s2.has_component(c),
    ensures
        s1.spec_bits() == s2.spec_bits(),
{
    let b1 = s1.spec_bits();
    let b2 = s2.spec_bits();
    assert(s1.has_component(StrategyComponent::Random) <==> s2.has_component(
        StrategyComponent::Random,
    ));
    assert(s1.has_component(StrategyComponent::HighestValue) <==> s2.has_component(
        StrategyComponent::HighestValue,
    ));
    assert(s1.has_component(StrategyComponent::HighestProbability) <==> s2.has_component(
        StrategyComponent::HighestProbability,
    ));
    assert(s1.has_component(StrategyComponent::BalancedValue) <==> s2.has_component(
        StrategyComponent::BalancedValue,
    ));
    assert(s1.has_component(StrategyComponent::Adaptive) <==> s2.has_component(
        StrategyComponent::Adaptive,
    ));
    assert(s1.has_component(StrategyComponent::LookAhead) <==> s2.has_component(
        StrategyComponent::LookAhead,
    ));
    assert(s1.has_component(StrategyComponent::ScoreManagement) <==> s2.has_component(
        StrategyComponent::ScoreManagement,
    ));
    assert(s1.has_component(StrategyComponent::RiskAverse) <==> s2.has_component(
        StrategyComponent::RiskAverse,
    ));
    assert(s1.has_component(StrategyComponent::Aggressive) <==> s2.has_component(
        StrategyComponent::Aggressive,
    ));
    assert(s1.has_component(StrategyComponent::PatternRecognition) <==> s2.has_component(
        StrategyComponent::PatternRecognition,
    ));
    assert(b1 == b2) by (bit_vector)
        requires
            b1 < 0x400,
            b2 < 0x400,
            (b1 & (1u16 << 0u16) != 0) == (b2 & (1u16 << 0u16) != 0),
            (b1 & (1u16 << 1u16) != 0) == (b2 & (1u16 << 1u16) != 0),
            (b1 & (1u16 << 2u16) != 0) == (b2 & (1u16 << 2u16) != 0),
            (b1 & (1u16 << 3u16) != 0) == (b2 & (1u16 << 3u16) != 0),
            (b1 & (1u16 << 4u16) != 0) == (b2 & (1u16 << 4u16) != 0),
            (b1 & (1u16 << 5u16) != 0) == (b2 & (1u16 << 5u16) != 0),
            (b1 & (1u16 << 6u16) != 0) == (b2 & (1u16 << 6u16) != 0),
            (b1 & (1u16 << 7u16) != 0) == (b2 & (1u16 << 7u16) != 0),
            (b1 & (1u16 << 8u16) != 0) == (b2 & (1u16 << 8u16) != 0),
            (b1 & (1u16 << 9u16) != 0) == (b2 & (1u16 << 9u16) != 0),
    ;
}

/// Distinct components occupy distinct positions of the evaluation order.
pub proof fn lemma_component_index_injective(a: StrategyComponent, b: StrategyComponent)
    ensures
        a != b ==> component_index(a) != component_index(b),
        0 <= component_index(a) <= 9,
        component_at(component_index(a)) == a,
{
}

/// A set of atomic scoring components with a label, evaluated by summing
/// each active component's contribution over the candidates.
#[derive(Clone, Debug)]
pub struct CompositeStrategy {
    components: u16,
    name: String,
}

impl CompositeStrategy {
    /// The component bitset, indexed by the evaluation order.
    pub closed spec fn spec_bits(&self) -> u16 {
        self.components
    }

    /// The strategy's label.
    pub closed spec fn spec_name(&self) -> Seq<char> {
        self.name@
    }

    /// Whether the set holds component `c`.
    pub open spec fn has_component(&self, c: StrategyComponent) -> bool {
        self.spec_bits() & (1u16 << (component_index(c) as u16)) != 0
    }

    /// Build a strategy from its component list and label.  The set formed
    /// is exactly the components listed.
    pub fn new(components: &[StrategyComponent], name: &str) -> (r: CompositeStrategy)
        ensures
            r.spec_bits() < 0x400,
            forall|c: StrategyComponent| r.has_component(c) <==> components@.contains(c),
            r.spec_name() == name@,
    {
        let mut bits: u16 = 0;
        let mut i: usize = 0;
        proof {
            assert forall|c: StrategyComponent|
                !((0u16 & (1u16 << (component_index(c) as u16))) != 0) by {
                let kd = component_index(c) as u16;
                assert((0u16 & (1u16 << kd)) == 0) by (bit_vector);
            }
            assert(components@.take(0) =~= Seq::<StrategyComponent>::empty());
        }
        while i < components.len()
            invariant
                i <= components@.len(),
                bits < 0x400,
                forall|c: StrategyComponent|
                    #[trigger] (bits & (1u16 << (component_index(c) as u16))) != 0
                        <==> components@.take(i as int).contains(c),
            decreases components@.len() - i,
        {
            let c = components[i];
            let k = component_index_exec(c);
            let ghost old_bits = bits;
            bits = bits | (1u16 << k);
            proof {
                assert(bits < 0x400 && (bits & (1u16 << k)) != 0) by (bit_vector)
                    requires
                        old_bits < 0x400,
                        k < 10u16,
                        bits == old_bits | (1u16 << k),
                ;
                assert forall|d: StrategyComponent|
                    #[trigger] (bits & (1u16 << (component_index(d) as u16))) != 0
                        <==> components@.take(i + 1).contains(d) by {
                    lemma_component_index_injective(d, c);
                    let kd = (component_index(d)) as u16;
                    if d != c {
                        assert((bits & (1u16 << kd)) == (old_bits & (1u16 << kd)))
                            by (bit_vector)
                            requires
                                bits == old_bits | (1u16 << k),
                                kd != k,
                                kd < 10u16,
                                k < 10u16,
                        ;
                    }
                    assert(components@.take(i + 1).contains(d) <==> components@.take(
                        i as int,
                    ).contains(d) || d == components@[i as int]) by {
                        let pre = components@.take(i as int);
                        let post = components@.take(i + 1);
                        if pre.contains(d) {
                            let jj = choose|jj: int| 0 <= jj < pre.len() && pre[jj] == d;
                            assert(post[jj] == d);
                        }
                        if d == components@[i as int] {
                            assert(post[i as int] == d);
                        }
                        if post.contains(d) {
                            let jj = choose|jj: int| 0 <= jj < post.len() && post[jj] == d;
                            if jj < i {
                                assert(pre[jj] == d);
                            }
                        }
                    }
                }
            }
            i = i + 1;
        }
        proof {
            assert(components@.take(components@.len() as int) =~= components@);
        }
        CompositeStrategy { components: bits, name: name.to_string() }
    }

    /// Whether this strategy includes `component`.
    pub fn contains(&self, component: StrategyComponent) -> (r: bool)
        ensures
            r == self.has_component(component),
    {
        let k = component_index_exec(component);
        (self.components & (1u16 << k)) != 0
    }

    /// The strategy's label.
    pub fn name(&self) -> (r: &str)
        ensures
            r@ == self.spec_name(),
    {
        self.name.as_str()
    }

    /// Pick one candidate: score all candidates by the active components
    /// (the random component alone when the set is empty) and return the
    /// first highest-scoring one.  The choice and the generator state after
    /// it are fully determined by the inputs.
    pub fn choose_move(
        &self,
        state: &crate::engine::GameState,
        cands: &Vec<u16>,
        table: &EvalTable,
        rng: &mut Xoroshiro128Plus,
    ) -> (m: u16)
        requires
            cands@.len() > 0,
            state@.board <= 0xFFF,
            table.wf(),
        ensures
            m == spec_choose(state@, cands@, self.spec_bits(), table.spec_ext(), *old(rng)).0,
            *final(rng) == spec_choose(state@, cands@, self.spec_bits(), table.spec_ext(), *old(rng)).1,
    {
        choose_move_bits(self.components, state, cands, table, rng)
    }
}

/// The position of a component in the evaluation order.
fn component_index_exec(c: StrategyComponent) -> (k: u16)
    ensures
        k == component_index(c),
        k < 10,
{
    match c {
        StrategyComponent::Random => 0,
        StrategyComponent::HighestValue => 1,
        StrategyComponent::HighestProbability => 2,
        StrategyComponent::BalancedValue => 3,
        StrategyComponent::Adaptive => 4,
        StrategyComponent::LookAhead => 5,
        StrategyComponent::ScoreManagement => 6,
        StrategyComponent::RiskAverse => 7,
        StrategyComponent::Aggressive => 8,
        StrategyComponent::PatternRecognition => 9,
    }
}

/// The component at position `k` of the evaluation order.
fn component_at_exec(k: u16) -> (c: StrategyComponent)
    requires
        k < 10,
    ensures
        c == component_at(k as int),
{
    if k == 0 {
        StrategyComponent::Random
    } else if k == 1 {
        StrategyComponent::HighestValue
    } else if k == 2 {
        StrategyComponent::HighestProbability
    } else if k == 3 {
        StrategyComponent::BalancedValue
    } else if k == 4 {
        StrategyComponent::Adaptive
    } else if k == 5 {
        StrategyComponent::LookAhead
    } else if k == 6 {
        StrategyComponent::ScoreManagement
    } else if k == 7 {
        StrategyComponent::RiskAverse
    } else if k == 8 {
        StrategyComponent::Aggressive
    } else {
        StrategyComponent::PatternRecognition
    }
}

/// The scaled contribution of one deterministic component to candidate `m`.
fn contrib_exec(
    c: StrategyComponent,
    state: &crate::engine::GameState,
    m: u16,
    table: &EvalTable,
) -> (r: i64)
    requires
        state@.board <= 0xFFF,
        table.wf(),
        c != StrategyComponent::Random,
    ensures
        r == spec_contrib(c, state@, m, table.spec_ext()),
        -200 <= r <= 200,
{
    proof {
        lemma_contrib_bounds(c, state@, m, table.spec_ext());
        vstd::std_specs::bits::axiom_u16_trailing_zeros(m);
    }
    match c {
        StrategyComponent::Random => 0,
        StrategyComponent::HighestValue => value_of(m),
        StrategyComponent::HighestProbability => hp_of(m),
        StrategyComponent::BalancedValue => value_of(m) * hp_of(m),
        StrategyComponent::Adaptive => {
            if state.total_score > state.opponent_score {
                hp_of(m)
            } else {
                value_of(m)
            }
        },
        StrategyComponent::LookAhead => table.evaluate_move(state.board, m, 3) as i64,
        StrategyComponent::ScoreManagement => {
            let d: i64 = state.total_score as i64 - state.opponent_score as i64;
            let rr: i64 = if state.round >= 5 {
                0
            } else {
                5 - state.round as i64
            };
            if d > 10 * rr {
                hp_of(m)
            } else if d < -10 * rr {
                value_of(m)
            } else {
                value_of(m) * hp_of(m)
            }
        },
        StrategyComponent::RiskAverse => {
            proof {
                crate::bits::lemma_pop_bounds(m);
            }
            0i64 - (crate::bits::popcount(m) as i64)
        },
        StrategyComponent::Aggressive => crate::bits::popcount(m) as i64,
        StrategyComponent::PatternRecognition => {
            if history_contains(&state.turn_history, m) {
                5
            } else {
                0
            }
        },
    }
}

/// The lowest position number of `m` (17 for the empty mask).
fn value_of(m: u16) -> (r: i64)
    ensures
        r == spec_value(m),
        1 <= r <= 17,
{
    proof {
        vstd::std_specs::bits::axiom_u16_trailing_zeros(m);
    }
    m.trailing_zeros() as i64 + 1
}

/// The probability weight of `m`'s value.
fn hp_of(m: u16) -> (r: i64)
    ensures
        r == spec_hp(m),
        -3 <= r <= 7,
{
    let v = value_of(m);
    let a = if v >= 7 {
        v - 7
    } else {
        7 - v
    };
    7 - a
}

/// Whether the round's move history holds `m`.
fn history_contains(history: &Vec<u16>, m: u16) -> (r: bool)
    ensures
        r == history@.contains(m),
{
    let mut i: usize = 0;
    while i < history.len()
        invariant
            i <= history@.len(),
            forall|j: int| 0 <= j < i ==> history@[j] != m,
        decreases history@.len() - i,
    {
        if history[i] == m {
            return true;
        }
        i = i + 1;
    }
    false
}

/// Score all candidates under component set `bits` and return the first
/// highest-scoring one.
pub(crate) fn choose_move_bits(
    bits: u16,
    state: &crate::engine::GameState,
    cands: &Vec<u16>,
    table: &EvalTable,
    rng: &mut Xoroshiro128Plus,
) -> (m: u16)
    requires
        cands@.len() > 0,
        state@.board <= 0xFFF,
        table.wf(),
    ensures
        m == spec_choose(state@, cands@, bits, table.spec_ext(), *old(rng)).0,
        *final(rng) == spec_choose(state@, cands@, bits, table.spec_ext(), *old(rng)).1,
{
    let ghost sv = state@;
    let ghost ext = table.spec_ext();
    let ghost rng0 = *rng;
    let eff: u16 = if bits & 0x3FF == 0 {
        1
    } else {
        bits & 0x3FF
    };
    proof {
        assert(eff == effective_bits(bits));
    }
    let n = cands.len();
    let mut scores: Vec<i64> = Vec::new();
    let mut z: usize = 0;
    while z < n
        invariant
            z <= n,
            scores@.len() == z,
            forall|j: int| 0 <= j < z ==> scores@[j] == 0i64,
        decreases n - z,
    {
        scores.push(0);
        z = z + 1;
    }
    proof {
        assert(scores@.map_values(|v: i64| v as int) =~= zero_scores(cands@.len() as int));
        assert(spec_apply_upto(eff, sv, cands@, ext, 0, rng0) == (
            zero_scores(cands@.len() as int),
            rng0,
        ));
    }
    let mut k: u16 = 0;
    while k < 10
        invariant
            k <= 10,
            n == cands@.len(),
            cands@.len() > 0,
            sv == state@,
            ext == table.spec_ext(),
            state@.board <= 0xFFF,
            table.wf(),
            eff == effective_bits(bits),
            scores@.len() == n,
            scores@.map_values(|v: i64| v as int) == spec_apply_upto(
                eff,
                sv,
                cands@,
                ext,
                k as int,
                rng0,
            ).0,
            *rng == spec_apply_upto(eff, sv, cands@, ext, k as int, rng0).1,
        decreases 10 - k,
    {
        proof {
            lemma_apply_len(eff, sv, cands@, ext, k as int, rng0);
            lemma_apply_bounds(eff, sv, cands@, ext, k as int, rng0);
        }
        if eff & (1u16 << k) != 0 {
            let c = component_at_exec(k);
            let ghost prev = scores@.map_values(|v: i64| v as int);
            let ghost rng_in = *rng;
            if k == 0 {
                let mut i: usize = 0;
                while i < n
                    invariant
                        i <= n,
                        n == cands@.len(),
                        scores@.len() == n,
                        prev.len() == n,
                        forall|j: int| 0 <= j < n ==> -2010 * SCORE_SCALE <= #[trigger] prev[j]
                            <= 2010 * SCORE_SCALE,
                        (scores@.map_values(|v: i64| v as int), *rng) == spec_add_random(
                            prev,
                            rng_in,
                            i as int,
                        ),
                    decreases n - i,
                {
                    proof {
                        lemma_add_random_step(prev, rng_in, i as int);
                        lemma_add_random_len(prev, rng_in, i as int);
                        assert(scores@.map_values(|v: i64| v as int)[i as int] == spec_add_random(
                            prev,
                            rng_in,
                            i as int,
                        ).0[i as int]);
                        assert(scores@[i as int] as int == prev[i as int]);
                    }
                    let v = rng.draw32();
                    let cur = scores[i];
                    scores.set(i, cur + v as i64);
                    proof {
                        lemma_add_random_len(prev, rng_in, i + 1);
                        assert(scores@.map_values(|v: i64| v as int) =~= spec_add_random(
                            prev,
                            rng_in,
                            i + 1,
                        ).0);
                    }
                    i = i + 1;
                }
            } else {
                let mut i: usize = 0;
                while i < n
                    invariant
                        i <= n,
                        n == cands@.len(),
                        sv == state@,
                        ext == table.spec_ext(),
                        state@.board <= 0xFFF,
                        table.wf(),
                        c == component_at(k as int),
                        c != StrategyComponent::Random,
                        1 <= k < 10,
                        scores@.len() == n,
                        prev.len() == n,
                        forall|j: int| 0 <= j < n ==> -2010 * SCORE_SCALE <= #[trigger] prev[j]
                            <= 2010 * SCORE_SCALE,
                        forall|j: int|
                            0 <= j < i ==> #[trigger] scores@[j] as int == prev[j] + SCORE_SCALE
                                * spec_contrib(c, sv, cands@[j], ext),
                        forall|j: int| i <= j < n ==> #[trigger] scores@[j] as int == prev[j],
                    decreases n - i,
                {
                    let cv = contrib_exec(c, state, cands[i], table);
                    let cur = scores[i];
                    proof {
                        assert(-200 * SCORE_SCALE <= SCORE_SCALE * (cv as int) <= 200
                            * SCORE_SCALE) by (nonlinear_arith)
                            requires
                                -200 <= cv as int <= 200,
                        ;
                    }
                    scores.set(i, cur + SCORE_SCALE * cv);
                    i = i + 1;
                }
                proof {
                    assert(scores@.map_values(|v: i64| v as int) =~= spec_add_det(
                        c,
                        sv,
                        cands@,
                        prev,
                        ext,
                    ));
                }
            }
        }
        proof {
            let step = spec_apply_upto(eff, sv, cands@, ext, k + 1, rng0);
            assert(scores@.map_values(|v: i64| v as int) == step.0 && *rng == step.1);
        }
        k = k + 1;
    }
    let mut best: usize = 0;
    let mut i: usize = 1;
    proof {
        let smap = scores@.map_values(|v: i64| v as int);
        assert(spec_argmax_upto(smap, 1) == 0);
    }
    while i < n
        invariant
            1 <= i <= n,
            n == cands@.len(),
            scores@.len() == n,
            best < i,
            best == spec_argmax_upto(scores@.map_values(|v: i64| v as int), i as int),
        decreases n - i,
    {
        if scores[i] > scores[best] {
            best = i;
        }
        i = i + 1;
    }
    cands[best]
}

} // verus!
