//! The tournament driver and result aggregation.
//!
//! A tournament plays every unordered pair of registered policies for a
//! fixed number of simulations.  Each simulation's seed is derived from the
//! tournament seed and the pair and simulation indices alone, so the
//! aggregates are a pure function of (variant, policies, simulation count,
//! seed): bit-identical across runs and under any scheduling of the
//! per-pair units over workers.

use vstd::prelude::*;
use crate::engine::GameMode;
use crate::game::{
    spec_simulate_game, spec_extended_match, play_base_match, play_extended_match, Engine,
    MatchResult, Winner,
};
use crate::moves::GameError;
use crate::rng::spec_derive_seed;
use crate::strategies::CompositeStrategy;

verus! {

/// The outcome of one match under `mode` between component sets `ba` and
/// `bb` from `seed`.
pub open spec fn spec_run_match(mode: GameMode, ba: u16, bb: u16, seed: u64) -> MatchResult {
    match mode {
        GameMode::Base => {
            let (ta, tb) = spec_simulate_game(ba, bb, 5, seed);
            MatchResult {
                winner: if ta < tb {
                    Winner::A
                } else if tb < ta {
                    Winner::B
                } else {
                    Winner::Draw
                },
                score_a: ta,
                score_b: tb,
                round_count: 5,
            }
        },
        GameMode::Extended => {
            let (w, t) = spec_extended_match(ba, bb, seed);
            MatchResult { winner: w, score_a: 0, score_b: 0, round_count: t as u32 }
        },
    }
}

/// Play one match under the engine's variant.
pub fn run_match(
    engine: &Engine,
    strategy_a: &CompositeStrategy,
    strategy_b: &CompositeStrategy,
    seed: u64,
) -> (r: MatchResult)
    requires
        engine.wf(),
    ensures
        r == spec_run_match(engine.spec_mode(), strategy_a.spec_bits(), strategy_b.spec_bits(), seed),
{
    match engine.mode() {
        GameMode::Base => play_base_match(engine, strategy_a, strategy_b, seed, 5),
        GameMode::Extended => play_extended_match(engine, strategy_a, strategy_b, seed),
    }
}

/// Win/loss/draw counts of the first `k` simulations of the pairing
/// `(i, j)`: simulation `x` runs from the derived seed for `(i, j, x)`.
pub open spec fn spec_pair_counts(
    mode: GameMode,
    ba: u16,
    bb: u16,
    seed: u64,
    i: int,
    j: int,
    k: int,
) -> (int, int, int)
    decreases k,
{
    if k <= 0 {
        (0, 0, 0)
    } else {
        let prev = spec_pair_counts(mode, ba, bb, seed, i, j, k - 1);
        let child = spec_derive_seed(seed, i as u64, j as u64, (k - 1) as u64);
        match spec_run_match(mode, ba, bb, child).winner {
            Winner::A => (prev.0 + 1, prev.1, prev.2),
            Winner::B => (prev.0, prev.1 + 1, prev.2),
            Winner::Draw => (prev.0, prev.1, prev.2 + 1),
        }
    }
}

/// Wins, losses and draws of a pairing always add up to the number of
/// simulations played.
pub proof fn lemma_pair_counts_sum(
    mode: GameMode,
    ba: u16,
    bb: u16,
    seed: u64,
    i: int,
    j: int,
    k: int,
)
    requires
        0 <= k,
    ensures
        ({
            let c = spec_pair_counts(mode, ba, bb, seed, i, j, k);
            c.0 + c.1 + c.2 == k && 0 <= c.0 && 0 <= c.1 && 0 <= c.2
        }),
    decreases k,
{
    if k > 0 {
        lemma_pair_counts_sum(mode, ba, bb, seed, i, j, k - 1);
    }
}

/// The aggregate of one pairing: the pair's indices, the win/loss/draw
/// counts over its simulations, and the simulation count.
#[derive(Clone, Copy, PartialEq, Eq, Structural, Debug)]
pub struct PairAggregate {
    pub i: usize,
    pub j: usize,
    pub a_wins: u32,
    pub b_wins: u32,
    pub draws: u32,
    pub n: u32,
}

/// Run the `n` simulations of one pairing, deriving each simulation's seed
/// from the tournament seed and the indices.
pub fn run_pair(
    engine: &Engine,
    strategy_a: &CompositeStrategy,
    strategy_b: &CompositeStrategy,
    n: u32,
    seed: u64,
    i: usize,
    j: usize,
) -> (r: PairAggregate)
    requires
        engine.wf(),
    ensures
        r.i == i,
        r.j == j,
        r.n == n,
        (r.a_wins as int, r.b_wins as int, r.draws as int) == spec_pair_counts(
            engine.spec_mode(),
            strategy_a.spec_bits(),
            strategy_b.spec_bits(),
            seed,
            i as int,
            j as int,
            n as int,
        ),
        r.a_wins + r.b_wins + r.draws == n,
{
    let ghost mode = engine.spec_mode();
    let ghost ba = strategy_a.spec_bits();
    let ghost bb = strategy_b.spec_bits();
    let mut a_wins: u32 = 0;
    let mut b_wins: u32 = 0;
    let mut draws: u32 = 0;
    let mut k: u32 = 0;
    while k < n
        invariant
            engine.wf(),
            mode == engine.spec_mode(),
            ba == strategy_a.spec_bits(),
            bb == strategy_b.spec_bits(),
            k <= n,
            (a_wins as int, b_wins as int, draws as int) == spec_pair_counts(
                mode,
                ba,
                bb,
                seed,
                i as int,
                j as int,
                k as int,
            ),
            a_wins + b_wins + draws == k,
        decreases n - k,
    {
        let child = crate::rng::derive_seed(seed, i as u64, j as u64, k as u64);
        let result = run_match(engine, strategy_a, strategy_b, child);
        match result.winner {
            Winner::A => {
                a_wins = a_wins + 1;
            },
            Winner::B => {
                b_wins = b_wins + 1;
            },
            Winner::Draw => {
                draws = draws + 1;
            },
        }
        k = k + 1;
    }
    PairAggregate { i, j, a_wins, b_wins, draws, n }
}

/// The pairs `(i, i+1) .. (i, j-1)` of row `i`, in order.
pub open spec fn row_pairs(i: int, j: int) -> Seq<(int, int)>
    decreases j - i,
{
    if j <= i + 1 {
        Seq::empty()
    } else {
        row_pairs(i, j - 1) + seq![(i, j - 1)]
    }
}

/// All pairs of rows `0 .. i` over `len` policies, row by row.
pub open spec fn rows_upto(len: int, i: int) -> Seq<(int, int)>
    decreases i,
{
    if i <= 0 {
        Seq::empty()
    } else {
        rows_upto(len, i - 1) + row_pairs(i - 1, len)
    }
}

/// The ordered list of unordered pairs a tournament of `len` policies
/// plays: `(0,1), (0,2), .., (0,len-1), (1,2), ..`.
pub open spec fn spec_pairs(len: int) -> Seq<(int, int)> {
    rows_upto(len, len)
}

/// Every listed pair is within range and ordered.
pub proof fn lemma_row_pairs_valid(i: int, j: int, len: int, idx: int)
    requires
        j <= len,
        0 <= idx < row_pairs(i, j).len(),
    ensures
        i == row_pairs(i, j)[idx].0,
        i < row_pairs(i, j)[idx].1 < len,
    decreases j - i,
{
    if j > i + 1 {
        if idx < row_pairs(i, j - 1).len() {
            lemma_row_pairs_valid(i, j - 1, len, idx);
        }
    }
}

/// Every pair of the tournament list is ordered and within range.
pub proof fn lemma_rows_upto_valid(len: int, i: int, idx: int)
    requires
        i <= len,
        0 <= idx < rows_upto(len, i).len(),
    ensures
        0 <= rows_upto(len, i)[idx].0 < rows_upto(len, i)[idx].1 < len,
    decreases i,
{
    if i > 0 {
        if idx < rows_upto(len, i - 1).len() {
            lemma_rows_upto_valid(len, i - 1, idx);
        } else {
            lemma_row_pairs_valid(i - 1, len, len, idx - rows_upto(len, i - 1).len());
        }
    }
}

/// Run every pairing of the registered policies: `n` simulations each, with
/// per-simulation seeds derived from the tournament seed.  Rejects an empty
/// policy list or a zero simulation count with `ConfigError`.  The result
/// depends only on the variant, the policies, `n` and `seed`.
pub fn run_pairings(
    engine: &Engine,
    strategies: &Vec<CompositeStrategy>,
    num_simulations: u32,
    seed: u64,
) -> (r: Result<Vec<PairAggregate>, GameError>)
    requires
        engine.wf(),
    ensures
        match r {
            Err(e) => e == GameError::ConfigError && (strategies@.len() == 0 || num_simulations
                == 0),
            Ok(v) => {
                &&& strategies@.len() > 0
                &&& num_simulations > 0
                &&& v@.len() == spec_pairs(strategies@.len() as int).len()
                &&& forall|idx: int|
                    0 <= idx < v@.len() ==> {
                        let p = spec_pairs(strategies@.len() as int)[idx];
                        let a = #[trigger] v@[idx];
                        &&& (a.i as int, a.j as int) == p
                        &&& a.n == num_simulations
                        &&& (a.a_wins as int, a.b_wins as int, a.draws as int) == spec_pair_counts(
                            engine.spec_mode(),
                            strategies@[p.0].spec_bits(),
                            strategies@[p.1].spec_bits(),
                            seed,
                            p.0,
                            p.1,
                            num_simulations as int,
                        )
                        &&& a.a_wins + a.b_wins + a.draws == num_simulations
                    }
            },
        },
{
    let len = strategies.len();
    if len == 0 || num_simulations == 0 {
        return Err(GameError::ConfigError);
    }
    let ghost mode = engine.spec_mode();
    let mut out: Vec<PairAggregate> = Vec::new();
    let mut i: usize = 0;
    proof {
        assert(rows_upto(len as int, 0) =~= Seq::<(int, int)>::empty());
    }
    while i < len
        invariant
            engine.wf(),
            mode == engine.spec_mode(),
            num_simulations > 0,
            len == strategies@.len(),
            len > 0,
            i <= len,
            out@.len() == rows_upto(len as int, i as int).len(),
            forall|idx: int|
                0 <= idx < out@.len() ==> {
                    let p = rows_upto(len as int, i as int)[idx];
                    let a = #[trigger] out@[idx];
                    &&& (a.i as int, a.j as int) == p
                    &&& a.n == num_simulations
                    &&& (a.a_wins as int, a.b_wins as int, a.draws as int) == spec_pair_counts(
                        mode,
                        strategies@[p.0].spec_bits(),
                        strategies@[p.1].spec_bits(),
                        seed,
                        p.0,
                        p.1,
                        num_simulations as int,
                    )
                    &&& a.a_wins + a.b_wins + a.draws == num_simulations
                },
        decreases len - i,
    {
        let mut j: usize = i + 1;
        proof {
            assert(row_pairs(i as int, (i + 1) as int) =~= Seq::<(int, int)>::empty());
            assert(rows_upto(len as int, i as int) + row_pairs(i as int, (i + 1) as int)
                =~= rows_upto(len as int, i as int));
        }
        while j < len
            invariant
                engine.wf(),
                mode == engine.spec_mode(),
                num_simulations > 0,
                len == strategies@.len(),
                len > 0,
                i < len,
                i + 1 <= j <= len,
                out@.len() == rows_upto(len as int, i as int).len() + row_pairs(
                    i as int,
                    j as int,
                ).len(),
                forall|idx: int|
                    0 <= idx < out@.len() ==> {
                        let p = (rows_upto(len as int, i as int) + row_pairs(
                            i as int,
                            j as int,
                        ))[idx];
                        let a = #[trigger] out@[idx];
                        &&& (a.i as int, a.j as int) == p
                        &&& a.n == num_simulations
                        &&& (a.a_wins as int, a.b_wins as int, a.draws as int) == spec_pair_counts(
                            mode,
                            strategies@[p.0].spec_bits(),
                            strategies@[p.1].spec_bits(),
                            seed,
                            p.0,
                            p.1,
                            num_simulations as int,
                        )
                        &&& a.a_wins + a.b_wins + a.draws == num_simulations
                    },
            decreases len - j,
        {
            let agg = run_pair(
                engine,
                &strategies[i],
                &strategies[j],
                num_simulations,
                seed,
                i,
                j,
            );
            out.push(agg);
            proof {
                let done = rows_upto(len as int, i as int) + row_pairs(i as int, j as int);
                assert(row_pairs(i as int, (j + 1) as int) == row_pairs(i as int, j as int)
                    + seq![(i as int, j as int)]);
                assert(rows_upto(len as int, i as int) + row_pairs(i as int, (j + 1) as int)
                    =~= done + seq![(i as int, j as int)]);
            }
            j = j + 1;
        }
        proof {
            assert(rows_upto(len as int, (i + 1) as int) == rows_upto(len as int, i as int)
                + row_pairs(i as int, len as int));
        }
        i = i + 1;
    }
    Ok(out)
}

/// Per-policy (wins, games) after folding the first `idx` pairings of a
/// tournament of `len` policies with component sets `bits`.
pub open spec fn spec_standings_upto(
    mode: GameMode,
    bits: Seq<u16>,
    n: int,
    seed: u64,
    idx: int,
) -> Seq<(int, int)>
    decreases idx,
{
    if idx <= 0 {
        Seq::new(bits.len(), |q: int| (0int, 0int))
    } else {
        let prev = spec_standings_upto(mode, bits, n, seed, idx - 1);
        let p = spec_pairs(bits.len() as int)[idx - 1];
        let c = spec_pair_counts(mode, bits[p.0], bits[p.1], seed, p.0, p.1, n);
        prev.update(p.0, (prev[p.0].0 + c.0, prev[p.0].1 + n)).update(
            p.1,
            (prev[p.1].0 + c.1, prev[p.1].1 + n),
        )
    }
}

/// Per-policy (wins, games) of a whole tournament, in registration order.
pub open spec fn spec_standings(mode: GameMode, bits: Seq<u16>, n: int, seed: u64) -> Seq<
    (int, int),
> {
    spec_standings_upto(mode, bits, n, seed, spec_pairs(bits.len() as int).len() as int)
}

/// The component sets of a policy list, in order.
pub open spec fn spec_bits_of(strategies: Seq<CompositeStrategy>) -> Seq<u16> {
    strategies.map_values(|s: CompositeStrategy| s.spec_bits())
}

proof fn lemma_standings_len(mode: GameMode, bits: Seq<u16>, n: int, seed: u64, idx: int)
    requires
        0 <= idx,
        forall|q: int|
            0 <= q < idx ==> {
                let p = #[trigger] spec_pairs(bits.len() as int)[q];
                0 <= p.0 < p.1 < bits.len()
            },
    ensures
        spec_standings_upto(mode, bits, n, seed, idx).len() == bits.len(),
    decreases idx,
{
    if idx > 0 {
        lemma_standings_len(mode, bits, n, seed, idx - 1);
    }
}

/// Bounds of the folded standings: after `idx` pairings of `n` simulations,
/// no policy has more wins than games, and no more games than `idx * n`.
proof fn lemma_standings_bounds(mode: GameMode, bits: Seq<u16>, n: int, seed: u64, idx: int)
    requires
        0 <= idx,
        0 <= n,
        forall|q: int|
            0 <= q < idx ==> {
                let p = #[trigger] spec_pairs(bits.len() as int)[q];
                0 <= p.0 < p.1 < bits.len()
            },
    ensures
        forall|q: int|
            0 <= q < bits.len() ==> {
                let st = #[trigger] spec_standings_upto(mode, bits, n, seed, idx)[q];
                0 <= st.0 <= st.1 <= idx * n
            },
    decreases idx,
{
    lemma_standings_len(mode, bits, n, seed, idx);
    if idx > 0 {
        lemma_standings_bounds(mode, bits, n, seed, idx - 1);
        lemma_standings_len(mode, bits, n, seed, idx - 1);
        let prev = spec_standings_upto(mode, bits, n, seed, idx - 1);
        let p = spec_pairs(bits.len() as int)[idx - 1];
        let c = spec_pair_counts(mode, bits[p.0], bits[p.1], seed, p.0, p.1, n);
        lemma_pair_counts_sum(mode, bits[p.0], bits[p.1], seed, p.0, p.1, n);
        assert((idx - 1) * n + n == idx * n) by (nonlinear_arith);
    }
}

/// Fold the pairing aggregates into per-policy standings: each pairing adds
/// its wins and simulation count to both of its policies, in registration
/// order.
pub fn aggregate_standings(
    engine: &Engine,
    strategies: &Vec<CompositeStrategy>,
    num_simulations: u32,
    seed: u64,
    aggs: &Vec<PairAggregate>,
) -> (r: Vec<(usize, u64, u64)>)
    requires
        engine.wf(),
        strategies@.len() > 0,
        aggs@.len() == spec_pairs(strategies@.len() as int).len(),
        (aggs@.len() + 1) * (num_simulations as int) <= u64::MAX,
        forall|idx: int|
            0 <= idx < aggs@.len() ==> {
                let p = spec_pairs(strategies@.len() as int)[idx];
                let a = #[trigger] aggs@[idx];
                &&& (a.i as int, a.j as int) == p
                &&& a.n == num_simulations
                &&& (a.a_wins as int, a.b_wins as int, a.draws as int) == spec_pair_counts(
                    engine.spec_mode(),
                    strategies@[p.0].spec_bits(),
                    strategies@[p.1].spec_bits(),
                    seed,
                    p.0,
                    p.1,
                    num_simulations as int,
                )
            },
    ensures
        r@.len() == strategies@.len(),
        forall|q: int|
            0 <= q < r@.len() ==> {
                let st = spec_standings(
                    engine.spec_mode(),
                    spec_bits_of(strategies@),
                    num_simulations as int,
                    seed,
                )[q];
                #[trigger] r@[q] == (q as usize, st.0 as u64, st.1 as u64)
            },
{
    let ghost mode = engine.spec_mode();
    let ghost bits = spec_bits_of(strategies@);
    let ghost len = strategies@.len() as int;
    proof {
        assert(bits.len() == len);
        assert forall|q: int| 0 <= q < aggs@.len() implies {
            let p = #[trigger] spec_pairs(len)[q];
            0 <= p.0 < p.1 < len
        } by {
            lemma_rows_upto_valid(len, len, q);
        }
    }
    let n_strats = strategies.len();
    let mut out: Vec<(usize, u64, u64)> = Vec::new();
    let mut q: usize = 0;
    while q < n_strats
        invariant
            q <= n_strats,
            n_strats == len,
            out@.len() == q,
            forall|w: int| 0 <= w < q ==> #[trigger] out@[w] == (w as usize, 0u64, 0u64),
        decreases n_strats - q,
    {
        out.push((q, 0, 0));
        q = q + 1;
    }
    proof {
        lemma_standings_len(mode, bits, num_simulations as int, seed, 0);
        assert forall|w: int| 0 <= w < len implies #[trigger] spec_standings_upto(
            mode,
            bits,
            num_simulations as int,
            seed,
            0,
        )[w] == (0int, 0int) by {}
    }
    let mut idx: usize = 0;
    while idx < aggs.len()
        invariant
            n_strats == len,
            len == strategies@.len(),
            bits == spec_bits_of(strategies@),
            mode == engine.spec_mode(),
            idx <= aggs@.len(),
            aggs@.len() == spec_pairs(len).len(),
            (aggs@.len() + 1) * (num_simulations as int) <= u64::MAX,
            out@.len() == len,
            forall|qq: int|
                0 <= qq < aggs@.len() ==> {
                    let p = spec_pairs(len)[qq];
                    let a = #[trigger] aggs@[qq];
                    &&& (a.i as int, a.j as int) == p
                    &&& a.n == num_simulations
                    &&& (a.a_wins as int, a.b_wins as int, a.draws as int) == spec_pair_counts(
                        mode,
                        bits[p.0],
                        bits[p.1],
                        seed,
                        p.0,
                        p.1,
                        num_simulations as int,
                    )
                },
            forall|qq: int|
                0 <= qq < aggs@.len() ==> {
                    let p = #[trigger] spec_pairs(len)[qq];
                    0 <= p.0 < p.1 < len
                },
            forall|w: int|
                0 <= w < len ==> {
                    let st = spec_standings_upto(
                        mode,
                        bits,
                        num_simulations as int,
                        seed,
                        idx as int,
                    )[w];
                    #[trigger] out@[w] == (w as usize, st.0 as u64, st.1 as u64)
                },
        decreases aggs@.len() - idx,
    {
        proof {
            lemma_standings_len(mode, bits, num_simulations as int, seed, idx as int);
            lemma_standings_bounds(mode, bits, num_simulations as int, seed, idx as int);
            lemma_standings_bounds(mode, bits, num_simulations as int, seed, idx + 1);
            lemma_pair_counts_sum(
                mode,
                bits[spec_pairs(len)[idx as int].0],
                bits[spec_pairs(len)[idx as int].1],
                seed,
                spec_pairs(len)[idx as int].0,
                spec_pairs(len)[idx as int].1,
                num_simulations as int,
            );
            assert((idx as int) * (num_simulations as int) + (num_simulations as int) <= (aggs@.len()
                + 1) * (num_simulations as int)) by (nonlinear_arith)
                requires
                    0 <= (idx as int) < aggs@.len(),
                    0 <= (num_simulations as int),
            ;
        }
        let a = aggs[idx];
        let (pi, wi, gi) = out[a.i as usize];
        out.set(a.i as usize, (pi, wi + a.a_wins as u64, gi + a.n as u64));
        let (pj, wj, gj) = out[a.j as usize];
        out.set(a.j as usize, (pj, wj + a.b_wins as u64, gj + a.n as u64));
        idx = idx + 1;
        proof {
            lemma_standings_len(mode, bits, num_simulations as int, seed, idx as int);
        }
    }
    proof {
        assert(aggs@.len() as int == spec_pairs(len).len() as int);
    }
    out
}

/// The whole tournament: every unordered pair of the registered policies
/// plays `num_simulations` matches, and the per-policy standings (index,
/// wins, games) come back in registration order.  `workers` only sizes the
/// worker pool a caller may use; the aggregates are pinned by the variant,
/// the policies, the simulation count and the seed alone, so they are
/// bit-identical for every worker count.
pub fn run_tournament(
    mode: GameMode,
    strategies: &Vec<CompositeStrategy>,
    num_simulations: u32,
    seed: u64,
    workers: Option<u32>,
) -> (r: Result<Vec<(usize, u64, u64)>, GameError>)
    requires
        strategies@.len() * strategies@.len() * (num_simulations as int) <= u64::MAX,
    ensures
        match r {
            Err(e) => e == GameError::ConfigError && (strategies@.len() == 0 || num_simulations
                == 0),
            Ok(v) => {
                &&& strategies@.len() > 0
                &&& num_simulations > 0
                &&& v@.len() == strategies@.len()
                &&& forall|q: int|
                    0 <= q < v@.len() ==> {
                        let st = spec_standings(
                            mode,
                            spec_bits_of(strategies@),
                            num_simulations as int,
                            seed,
                        )[q];
                        #[trigger] v@[q] == (q as usize, st.0 as u64, st.1 as u64)
                    }
            },
        },
{
    let engine = Engine::new(mode);
    let aggs = match run_pairings(&engine, strategies, num_simulations, seed) {
        Ok(a) => a,
        Err(e) => {
            return Err(e);
        },
    };
    proof {
        let len = strategies@.len() as int;
        lemma_pairs_count(len);
        assert((aggs@.len() + 1) * (num_simulations as int) <= u64::MAX) by (nonlinear_arith)
            requires
                2 * (aggs@.len() as int) == len * (len - 1),
                1 <= len,
                0 <= (num_simulations as int),
                len * len * (num_simulations as int) <= u64::MAX,
        ;
    }
    Ok(aggregate_standings(&engine, strategies, num_simulations, seed, &aggs))
}

/// Twice the number of pairs over rows `0 .. i` is `i * (2 * len - i - 1)`.
proof fn lemma_rows_upto_len(len: int, i: int)
    requires
        0 <= i <= len,
    ensures
        2 * (rows_upto(len, i).len() as int) == i * (2 * len - i - 1),
    decreases i,
{
    if i > 0 {
        lemma_rows_upto_len(len, i - 1);
        lemma_row_len_bound(i - 1, len);
        let a = rows_upto(len, i - 1).len() as int;
        let b = row_pairs(i - 1, len).len() as int;
        assert(rows_upto(len, i) == rows_upto(len, i - 1) + row_pairs(i - 1, len));
        assert(rows_upto(len, i).len() as int == a + b);
        assert(2 * a == (i - 1) * (2 * len - (i - 1) - 1));
        assert((i - 1) * (2 * len - (i - 1) - 1) == (i - 1) * (2 * len - i)) by (nonlinear_arith);
        if len <= i {
            assert(b == 0);
            assert((i - 1) * (2 * len - i) == i * (2 * len - i - 1)) by (nonlinear_arith)
                requires
                    len == i,
            ;
        } else {
            assert(b == len - i);
            assert((i - 1) * (2 * len - i) + 2 * (len - i) == i * (2 * len - i - 1))
                by (nonlinear_arith);
        }
        assert(2 * (a + b) == i * (2 * len - i - 1));
    } else {
        assert(rows_upto(len, i) == Seq::<(int, int)>::empty());
        assert(rows_upto(len, i).len() as int == 0);
        assert(i * (2 * len - i - 1) == 0) by (nonlinear_arith)
            requires
                i == 0,
        ;
    }
}

/// A tournament of `len` policies plays `len * (len - 1) / 2` pairs.
pub proof fn lemma_pairs_count(len: int)
    requires
        0 <= len,
    ensures
        2 * (spec_pairs(len).len() as int) == len * (len - 1),
{
    lemma_rows_upto_len(len, len);
    assert(len * (2 * len - len - 1) == len * (len - 1)) by (nonlinear_arith);
}

proof fn lemma_row_len_bound(i: int, j: int)
    ensures
        row_pairs(i, j).len() == if j <= i + 1 {
            0int
        } else {
            j - i - 1
        },
    decreases j - i,
{
    if j > i + 1 {
        lemma_row_len_bound(i, j - 1);
    }
}

/// Reproducibility: the standings are a pure function of the variant, the
/// policies' component sets, the simulation count and the seed — two
/// results that both satisfy the driver's contract are equal, whatever
/// worker counts produced them.
pub proof fn lemma_tournament_reproducible(
    mode: GameMode,
    bits: Seq<u16>,
    n: int,
    seed: u64,
    r1: Seq<(int, int)>,
    r2: Seq<(int, int)>,
)
    requires
        r1 == spec_standings(mode, bits, n, seed),
        r2 == spec_standings(mode, bits, n, seed),
    ensures
        r1 == r2,
{
}

/// How a simulation run is scheduled.
#[derive(Clone, Copy, PartialEq, Eq, Structural, Debug)]
pub enum SimulatorType {
    Multithreaded,
    Parallel,
    Distributed,
}

/// A simulation run's configuration.
#[derive(Clone, Debug)]
pub struct SimulationConfig {
    pub num_games: usize,
    pub game_mode: GameMode,
    pub optimization_level: crate::engine::OptimizationLevel,
    pub strategies: Vec<String>,
    pub seed: u64,
}

impl SimulationConfig {
    /// Reject a configuration with no games or no strategies before any
    /// work starts.
    pub fn validate(&self) -> (r: Result<(), GameError>)
        ensures
            r is Ok <==> (self.num_games > 0 && self.strategies@.len() > 0),
            r is Err ==> r == Result::<(), GameError>::Err(GameError::ConfigError),
    {
        if self.num_games == 0 || self.strategies.len() == 0 {
            Err(GameError::ConfigError)
        } else {
            Ok(())
        }
    }
}

} // verus!
