//! The match state machine.
//!
//! An `Engine` bundles the precomputed subset cache and evaluation table for
//! one rule variant.  `play_turn` rolls are handed in; it generates the
//! candidates, lets the policy pick, applies the move and appends it to the
//! history.  A round is a run of turns until no move exists or the board is
//! cleared; a base match is a fixed number of rounds per player with the
//! lower total winning; an extended match alternates one shared board
//! between a clearing and a setting player until it is empty (A wins), full
//! (B wins), both players stall in turn, or the turn bound runs out (draws).
//!
//! Every step is pinned to a spec function of the state, the component sets
//! and the seeded generator, so whole matches are reproducible from a seed.

use vstd::prelude::*;
use crate::bits::{pop, clear_mask};
use crate::engine::{GameState, StateView, GameMode};
use crate::eval::EvalTable;
use crate::moves::{spec_candidates, SubsetCache};
use crate::rng::{spec_roll_2d6, Xoroshiro128Plus};
use crate::strategies::{spec_choose, lemma_apply_len, lemma_argmax_range, CompositeStrategy};

verus! {

/// Upper bound on the turns of an extended match; a match that reaches it
/// is declared a draw.
pub const MAX_EXTENDED_TURNS: u32 = 10000;

/// The outcome of a match.
#[derive(Clone, Copy, PartialEq, Eq, Structural, Debug)]
pub enum Winner {
    A,
    B,
    Draw,
}

/// The result of one match: the winner, both final scores and the number of
/// rounds (turns, in the extended variant) played.
#[derive(Clone, Copy, PartialEq, Eq, Structural, Debug)]
pub struct MatchResult {
    pub winner: Winner,
    pub score_a: u32,
    pub score_b: u32,
    pub round_count: u32,
}

/// Precomputed tables for one rule variant.
pub struct Engine {
    cache: SubsetCache,
    table: EvalTable,
    mode: GameMode,
}

impl Engine {
    /// The engine's rule variant.
    pub closed spec fn spec_mode(&self) -> GameMode {
        self.mode
    }

    /// Whether look-ahead treats a full board as terminal.
    pub open spec fn spec_ext(&self) -> bool {
        self.spec_mode() is Extended
    }

    /// Cache and table are well-formed and built for this variant.
    pub closed spec fn wf(&self) -> bool {
        &&& self.cache.wf()
        &&& self.table.wf()
        &&& self.table.spec_ext() == (self.mode is Extended)
    }

    /// Build the subset cache and evaluation table for `mode`.
    pub fn new(mode: GameMode) -> (e: Engine)
        ensures
            e.wf(),
            e.spec_mode() == mode,
    {
        let cache = SubsetCache::new();
        let ext = match mode {
            GameMode::Base => false,
            GameMode::Extended => true,
        };
        let table = EvalTable::new(&cache, ext);
        Engine { cache, table, mode }
    }

    /// The ordered candidate list for `(board, roll)`.
    pub fn generate_moves(&self, board: u16, roll: u8) -> (r: Result<
        Vec<u16>,
        crate::moves::GameError,
    >)
        requires
            self.wf(),
            board <= 0xFFF,
        ensures
            match r {
                Ok(list) => 2 <= roll <= 12 && list@ == spec_candidates(board, roll as int),
                Err(e) => e == crate::moves::GameError::InvalidRoll && (roll < 2 || roll > 12),
            },
    {
        self.cache.generate_moves(board, roll)
    }

    /// The engine's rule variant.
    pub fn mode(&self) -> (m: GameMode)
        ensures
            m == self.spec_mode(),
    {
        self.mode
    }

    /// The engine's evaluation table.
    pub fn table(&self) -> (t: &EvalTable)
        requires
            self.wf(),
        ensures
            t.wf(),
            t.spec_ext() == self.spec_ext(),
    {
        &self.table
    }
}

/// The turn outcome `spec_play_turn` pins down: whether a move was made,
/// the state after the turn and the generator state after it.
pub open spec fn spec_play_turn(
    sv: StateView,
    roll: u8,
    bits: u16,
    ext: bool,
    rng: Xoroshiro128Plus,
) -> (bool, StateView, Xoroshiro128Plus) {
    let cands = spec_candidates(sv.board, roll as int);
    if cands.len() == 0 {
        (false, sv, rng)
    } else {
        let (m, rng2) = spec_choose(sv, cands, bits, ext, rng);
        (
            true,
            StateView {
                board: clear_mask(sv.board, m),
                turn_history: sv.turn_history.push(m),
                ..sv
            },
            rng2,
        )
    }
}

/// The move a turn applies is always one of the roll's candidates, so it is
/// a non-empty subset of the board: applying it strictly lowers the
/// popcount.
pub proof fn lemma_play_turn_pop(sv: StateView, roll: u8, bits: u16, ext: bool, rng: Xoroshiro128Plus)
    requires
        sv.board <= 0xFFF,
        2 <= roll <= 12,
    ensures
        spec_play_turn(sv, roll, bits, ext, rng).0 ==> pop(
            spec_play_turn(sv, roll, bits, ext, rng).1.board,
        ) < pop(sv.board),
        !spec_play_turn(sv, roll, bits, ext, rng).0 ==> spec_play_turn(
            sv,
            roll,
            bits,
            ext,
            rng,
        ).1 == sv,
        spec_play_turn(sv, roll, bits, ext, rng).1.board <= 0xFFF,
        spec_play_turn(sv, roll, bits, ext, rng).1.total_score == sv.total_score,
        spec_play_turn(sv, roll, bits, ext, rng).1.round == sv.round,
{
    let cands = spec_candidates(sv.board, roll as int);
    if cands.len() > 0 {
        let scores = crate::strategies::spec_scores(sv, cands, bits, ext, rng).0;
        lemma_apply_len(
            crate::strategies::effective_bits(bits),
            sv,
            cands,
            ext,
            10,
            rng,
        );
        lemma_argmax_range(scores, scores.len() as int);
        let m = cands[crate::strategies::spec_argmax(scores)];
        assert(cands.contains(m));
        crate::moves::lemma_candidates_sound(sv.board, roll as int, m);
        crate::bits::lemma_clear_subset(sv.board, m);
        crate::bits::lemma_pop_zero(m);
        let bd = sv.board;
        assert(bd & !m <= 0xFFF) by (bit_vector)
            requires
                bd <= 0xFFFu16,
        ;
    }
}

/// Play one turn: generate the roll's candidates, let the policy pick,
/// apply the move.  Returns whether a move was made; with no candidate the
/// state is unchanged and the round is over for this player.
pub fn play_turn(
    engine: &Engine,
    state: &mut GameState,
    roll: u8,
    strategy: &CompositeStrategy,
    rng: &mut Xoroshiro128Plus,
) -> (moved: bool)
    requires
        engine.wf(),
        old(state)@.board <= 0xFFF,
        2 <= roll <= 12,
    ensures
        (moved, final(state)@, *final(rng)) == spec_play_turn(
            old(state)@,
            roll,
            strategy.spec_bits(),
            engine.spec_ext(),
            *old(rng),
        ),
        final(state)@.board <= 0xFFF,
        moved ==> pop(final(state)@.board) < pop(old(state)@.board),
{
    proof {
        lemma_play_turn_pop(state@, roll, strategy.spec_bits(), engine.spec_ext(), *rng);
    }
    let moves = match engine.generate_moves(state.board, roll) {
        Ok(m) => m,
        Err(_) => {
            proof {
                assert(false);
            }
            unreached()
        },
    };
    if moves.len() == 0 {
        proof {
            assert(final(state)@ =~= old(state)@);
        }
        return false;
    }
    let m = strategy.choose_move(state, &moves, engine.table(), rng);
    state.board = state.board & !m;
    state.turn_history.push(m);
    proof {
        assert(final(state)@ =~= spec_play_turn(
            old(state)@,
            roll,
            strategy.spec_bits(),
            engine.spec_ext(),
            *old(rng),
        ).1);
    }
    true
}

/// The run of turns of one round, from the given state until no move exists
/// or the board is cleared: the state when the turns stop and the generator
/// state after them.
pub open spec fn spec_round_turns(
    sv: StateView,
    bits: u16,
    ext: bool,
    rng: Xoroshiro128Plus,
) -> (StateView, Xoroshiro128Plus)
    decreases pop(sv.board),
{
    let (roll, rng1) = spec_roll_2d6(rng);
    let (moved, sv2, rng2) = spec_play_turn(sv, roll, bits, ext, rng1);
    if !moved || sv2.board == 0 {
        (sv2, rng2)
    } else if 0 <= pop(sv2.board) && pop(sv2.board) < pop(sv.board) {
        spec_round_turns(sv2, bits, ext, rng2)
    } else {
        (sv2, rng2)
    }
}

/// For a twelve-bit board a made move always lowers the popcount, so the
/// guarded recursion of `spec_round_turns` always takes the recursive
/// branch while moves are made.
pub proof fn lemma_round_turns_unfold(sv: StateView, bits: u16, ext: bool, rng: Xoroshiro128Plus)
    requires
        sv.board <= 0xFFF,
    ensures
        ({
            let (roll, rng1) = spec_roll_2d6(rng);
            let (moved, sv2, rng2) = spec_play_turn(sv, roll, bits, ext, rng1);
            spec_round_turns(sv, bits, ext, rng) == if !moved || sv2.board == 0 {
                (sv2, rng2)
            } else {
                spec_round_turns(sv2, bits, ext, rng2)
            }
        }),
{
    let (roll, rng1) = spec_roll_2d6(rng);
    assert(2 <= roll <= 12);
    crate::bits::lemma_pop_bounds(sv.board);
    lemma_play_turn_pop(sv, roll, bits, ext, rng1);
    crate::bits::lemma_pop_bounds(spec_play_turn(sv, roll, bits, ext, rng1).1.board);
}

/// Play the turns of one round until no move exists or the board is
/// cleared.
fn round_turns(
    engine: &Engine,
    state: &mut GameState,
    strategy: &CompositeStrategy,
    rng: &mut Xoroshiro128Plus,
) -> (r: ())
    requires
        engine.wf(),
        old(state)@.board <= 0xFFF,
    ensures
        (final(state)@, *final(rng)) == spec_round_turns(
            old(state)@,
            strategy.spec_bits(),
            engine.spec_ext(),
            *old(rng),
        ),
        final(state)@.board <= 0xFFF,
        final(state)@.total_score == old(state)@.total_score,
        final(state)@.round == old(state)@.round,
{
    let ghost bits = strategy.spec_bits();
    let ghost ext = engine.spec_ext();
    let ghost sv0 = state@;
    let ghost rng0 = *rng;
    loop
        invariant_except_break
            engine.wf(),
            sv0.board <= 0xFFF,
            state@.board <= 0xFFF,
            bits == strategy.spec_bits(),
            ext == engine.spec_ext(),
            spec_round_turns(sv0, bits, ext, rng0) == spec_round_turns(state@, bits, ext, *rng),
            state@.total_score == sv0.total_score,
            state@.round == sv0.round,
        ensures
            state@.board <= 0xFFF,
            (state@, *rng) == spec_round_turns(sv0, bits, ext, rng0),
            state@.total_score == sv0.total_score,
            state@.round == sv0.round,
        decreases pop(state@.board),
    {
        proof {
            crate::bits::lemma_pop_bounds(state@.board);
        }
        let ghost sv_entry = state@;
        let ghost rng_entry = *rng;
        let roll = rng.roll_2d6();
        proof {
            lemma_play_turn_pop(state@, roll, bits, ext, *rng);
        }
        let moved = play_turn(engine, state, roll, strategy, rng);
        proof {
            lemma_round_turns_unfold(sv_entry, bits, ext, rng_entry);
        }
        if !moved || state.board == 0 {
            break;
        }
        proof {
            crate::bits::lemma_pop_bounds(state@.board);
        }
    }
}

/// One full round: reset the board, play turns until they stop, then score
/// the round.  Returns the state after the round and the generator after
/// it; `.2` is the round's score.
pub open spec fn spec_full_round(sv: StateView, bits: u16, ext: bool, rng: Xoroshiro128Plus) -> (
    StateView,
    Xoroshiro128Plus,
    int,
) {
    let svr = StateView {
        board: 0xFFF,
        current_round_score: 0,
        turn_history: Seq::empty(),
        ..sv
    };
    let (sv2, rng2) = spec_round_turns(svr, bits, ext, rng);
    let score = pop(sv2.board);
    (
        StateView {
            current_round_score: score as u32,
            total_score: (sv2.total_score + score) as u32,
            round: sv2.round + 1,
            ..sv2
        },
        rng2,
        score,
    )
}

/// Play one full round: reset, turns, round end.  Returns the round score.
pub fn play_round(
    engine: &Engine,
    state: &mut GameState,
    strategy: &CompositeStrategy,
    rng: &mut Xoroshiro128Plus,
) -> (score: u32)
    requires
        engine.wf(),
        old(state)@.board <= 0xFFF,
        old(state)@.total_score + 12 <= u32::MAX,
        old(state)@.round + 1 <= usize::MAX,
    ensures
        ({
            let (sv2, rng2, sc) = spec_full_round(
                old(state)@,
                strategy.spec_bits(),
                engine.spec_ext(),
                *old(rng),
            );
            final(state)@ == sv2 && *final(rng) == rng2 && score == sc
        }),
        final(state)@.board <= 0xFFF,
        0 <= score <= 12,
        final(state)@.total_score == old(state)@.total_score + score,
        final(state)@.round == old(state)@.round + 1,
{
    state.reset_board();
    round_turns(engine, state, strategy, rng);
    proof {
        crate::bits::lemma_mask_sum_bounds(state@.board);
    }
    let score = crate::bits::popcount(state.board);
    state.end_round();
    score
}

/// Sum of a sequence of integers.
pub open spec fn sum_seq(s: Seq<int>) -> int
    decreases s.len(),
{
    if s.len() == 0 {
        0
    } else {
        sum_seq(s.drop_last()) + s.last()
    }
}

/// Both players' states and the generator after `n` alternating rounds
/// (player A's round first, opponent totals snapshotted after each round).
pub open spec fn spec_match_rounds(
    sva: StateView,
    svb: StateView,
    ba: u16,
    bb: u16,
    n: int,
    rng: Xoroshiro128Plus,
) -> (StateView, StateView, Xoroshiro128Plus)
    decreases n,
{
    if n <= 0 {
        (sva, svb, rng)
    } else {
        let (sva2, rng1, _) = spec_full_round(sva, ba, false, rng);
        let sva3 = StateView { opponent_score: svb.total_score, ..sva2 };
        let (svb2, rng2, _) = spec_full_round(svb, bb, false, rng1);
        let svb3 = StateView { opponent_score: sva3.total_score, ..svb2 };
        spec_match_rounds(sva3, svb3, ba, bb, n - 1, rng2)
    }
}

/// Player A's round scores over `n` rounds, in order.
pub open spec fn spec_round_scores_a(
    sva: StateView,
    svb: StateView,
    ba: u16,
    bb: u16,
    n: int,
    rng: Xoroshiro128Plus,
) -> Seq<int>
    decreases n,
{
    if n <= 0 {
        Seq::empty()
    } else {
        let (sva2, rng1, sc) = spec_full_round(sva, ba, false, rng);
        let sva3 = StateView { opponent_score: svb.total_score, ..sva2 };
        let (svb2, rng2, _) = spec_full_round(svb, bb, false, rng1);
        let svb3 = StateView { opponent_score: sva3.total_score, ..svb2 };
        seq![sc] + spec_round_scores_a(sva3, svb3, ba, bb, n - 1, rng2)
    }
}

/// Player B's round scores over `n` rounds, in order.
pub open spec fn spec_round_scores_b(
    sva: StateView,
    svb: StateView,
    ba: u16,
    bb: u16,
    n: int,
    rng: Xoroshiro128Plus,
) -> Seq<int>
    decreases n,
{
    if n <= 0 {
        Seq::empty()
    } else {
        let (sva2, rng1, _) = spec_full_round(sva, ba, false, rng);
        let sva3 = StateView { opponent_score: svb.total_score, ..sva2 };
        let (svb2, rng2, sc) = spec_full_round(svb, bb, false, rng1);
        let svb3 = StateView { opponent_score: sva3.total_score, ..svb2 };
        seq![sc] + spec_round_scores_b(sva3, svb3, ba, bb, n - 1, rng2)
    }
}

/// The final scores of a base match of `n` rounds from a given seed.
pub open spec fn spec_simulate_game(ba: u16, bb: u16, n: int, seed: u64) -> (u32, u32) {
    let rng = Xoroshiro128Plus { s0: seed, s1: 0 };
    let (fa, fb, _) = spec_match_rounds(
        StateView::initial(),
        StateView::initial(),
        ba,
        bb,
        n,
        rng,
    );
    (fa.total_score, fb.total_score)
}

/// The run of a round's turns never changes the totals or round index,
/// keeps the board twelve-bit, and the board's popcount is monotone
/// non-increasing over the round: each turn either clears bits or ends the
/// round.
pub proof fn lemma_round_turns_frame(sv: StateView, bits: u16, ext: bool, rng: Xoroshiro128Plus)
    requires
        sv.board <= 0xFFF,
    ensures
        spec_round_turns(sv, bits, ext, rng).0.board <= 0xFFF,
        spec_round_turns(sv, bits, ext, rng).0.total_score == sv.total_score,
        spec_round_turns(sv, bits, ext, rng).0.round == sv.round,
        pop(spec_round_turns(sv, bits, ext, rng).0.board) <= pop(sv.board),
    decreases pop(sv.board),
{
    let (roll, rng1) = spec_roll_2d6(rng);
    crate::bits::lemma_pop_bounds(sv.board);
    lemma_play_turn_pop(sv, roll, bits, ext, rng1);
    let (moved, sv2, rng2) = spec_play_turn(sv, roll, bits, ext, rng1);
    crate::bits::lemma_pop_bounds(sv2.board);
    if !(!moved || sv2.board == 0) {
        lemma_round_turns_frame(sv2, bits, ext, rng2);
    }
}

/// One full round adds its score (at most 12) to the total and advances the
/// round index.
pub proof fn lemma_full_round_step(sv: StateView, bits: u16, ext: bool, rng: Xoroshiro128Plus)
    requires
        sv.total_score + 12 <= u32::MAX,
    ensures
        ({
            let (sv2, rng2, sc) = spec_full_round(sv, bits, ext, rng);
            &&& 0 <= sc <= 12
            &&& sv2.total_score == sv.total_score + sc
            &&& sv2.round == sv.round + 1
            &&& sv2.board <= 0xFFF
        }),
{
    let svr = StateView { board: 0xFFF, current_round_score: 0, turn_history: Seq::empty(), ..sv };
    lemma_round_turns_frame(svr, bits, ext, rng);
    let (svt, _) = spec_round_turns(svr, bits, ext, rng);
    crate::bits::lemma_mask_sum_bounds(svt.board);
}

/// The total score at the end of a base match is the sum of the per-round
/// scores: nothing else ever adds to a total.
pub proof fn lemma_match_totals(
    sva: StateView,
    svb: StateView,
    ba: u16,
    bb: u16,
    n: int,
    rng: Xoroshiro128Plus,
)
    requires
        0 <= n,
        sva.total_score + 12 * n <= u32::MAX,
        svb.total_score + 12 * n <= u32::MAX,
    ensures
        spec_match_rounds(sva, svb, ba, bb, n, rng).0.total_score == sva.total_score + sum_seq(
            spec_round_scores_a(sva, svb, ba, bb, n, rng),
        ),
        spec_match_rounds(sva, svb, ba, bb, n, rng).1.total_score == svb.total_score + sum_seq(
            spec_round_scores_b(sva, svb, ba, bb, n, rng),
        ),
        spec_match_rounds(sva, svb, ba, bb, n, rng).0.round == sva.round + n,
        spec_match_rounds(sva, svb, ba, bb, n, rng).1.round == svb.round + n,
    decreases n,
{
    if n > 0 {
        lemma_full_round_step(sva, ba, false, rng);
        let (sva2, rng1, sca) = spec_full_round(sva, ba, false, rng);
        let sva3 = StateView { opponent_score: svb.total_score, ..sva2 };
        lemma_full_round_step(svb, bb, false, rng1);
        let (svb2, rng2, scb) = spec_full_round(svb, bb, false, rng1);
        let svb3 = StateView { opponent_score: sva3.total_score, ..svb2 };
        lemma_match_totals(sva3, svb3, ba, bb, n - 1, rng2);
        lemma_sum_cons(sca, spec_round_scores_a(sva3, svb3, ba, bb, n - 1, rng2));
        lemma_sum_cons(scb, spec_round_scores_b(sva3, svb3, ba, bb, n - 1, rng2));
    }
}

/// Summing after prepending one element.
proof fn lemma_sum_cons(x: int, s: Seq<int>)
    ensures
        sum_seq(seq![x] + s) == x + sum_seq(s),
    decreases s.len(),
{
    if s.len() == 0 {
        assert(seq![x] + s =~= seq![x]);
        assert(seq![x].drop_last() =~= Seq::<int>::empty());
        assert(seq![x].last() == x);
        assert(sum_seq(seq![x]) == sum_seq(seq![x].drop_last()) + seq![x].last());
        assert(sum_seq(Seq::<int>::empty()) == 0);
        assert(sum_seq(s) == 0);
    } else {
        lemma_sum_cons(x, s.drop_last());
        assert((seq![x] + s).drop_last() =~= seq![x] + s.drop_last());
        assert((seq![x] + s).last() == s.last());
    }
}

/// Play a base match of `rounds` rounds between two strategies from a seed:
/// both totals, the winner (the lower total; equal totals draw) and the
/// round count, all pinned down by the seed and the component sets.
pub fn play_base_match(
    engine: &Engine,
    strategy_a: &CompositeStrategy,
    strategy_b: &CompositeStrategy,
    seed: u64,
    rounds: u32,
) -> (r: MatchResult)
    requires
        engine.wf(),
        engine.spec_mode() == GameMode::Base,
        rounds <= 100_000_000,
    ensures
        (r.score_a, r.score_b) == spec_simulate_game(
            strategy_a.spec_bits(),
            strategy_b.spec_bits(),
            rounds as int,
            seed,
        ),
        r.round_count == rounds,
        r.winner == (if r.score_a < r.score_b {
            Winner::A
        } else if r.score_b < r.score_a {
            Winner::B
        } else {
            Winner::Draw
        }),
{
    let ghost ba = strategy_a.spec_bits();
    let ghost bb = strategy_b.spec_bits();
    let mut rng = Xoroshiro128Plus::new(seed);
    let ghost rng0 = rng;
    let mut state_a = GameState::new();
    let mut state_b = GameState::new();
    let mut round: u32 = 0;
    while round < rounds
        invariant
            engine.wf(),
            engine.spec_mode() == GameMode::Base,
            rounds <= 100_000_000,
            round <= rounds,
            ba == strategy_a.spec_bits(),
            bb == strategy_b.spec_bits(),
            state_a@.board <= 0xFFF,
            state_b@.board <= 0xFFF,
            state_a@.total_score <= 12 * round,
            state_b@.total_score <= 12 * round,
            state_a@.round == round,
            state_b@.round == round,
            spec_match_rounds(
                StateView::initial(),
                StateView::initial(),
                ba,
                bb,
                rounds as int,
                rng0,
            ) == spec_match_rounds(state_a@, state_b@, ba, bb, (rounds - round) as int, rng),
        decreases rounds - round,
    {
        let ghost sva_entry = state_a@;
        let ghost svb_entry = state_b@;
        let ghost rng_entry = rng;
        let _ = play_round(engine, &mut state_a, strategy_a, &mut rng);
        state_a.opponent_score = state_b.total_score;
        let _ = play_round(engine, &mut state_b, strategy_b, &mut rng);
        state_b.opponent_score = state_a.total_score;
        proof {
            let (sva2, rng1, _) = spec_full_round(sva_entry, ba, false, rng_entry);
            let sva3 = StateView { opponent_score: svb_entry.total_score, ..sva2 };
            let (svb2, rng2, _) = spec_full_round(svb_entry, bb, false, rng1);
            let svb3 = StateView { opponent_score: sva3.total_score, ..svb2 };
            assert(state_a@ =~= sva3);
            assert(state_b@ =~= svb3);
        }
        round = round + 1;
    }
    let winner = if state_a.total_score < state_b.total_score {
        Winner::A
    } else if state_b.total_score < state_a.total_score {
        Winner::B
    } else {
        Winner::Draw
    };
    MatchResult {
        winner,
        score_a: state_a.total_score,
        score_b: state_b.total_score,
        round_count: rounds,
    }
}

/// The snapshot a player sees in the extended variant: the board from the
/// active player's side, their own move history and the turn index.
pub open spec fn ext_snapshot(board: u16, hist: Seq<u16>, t: int) -> StateView {
    StateView {
        board,
        current_round_score: 0,
        total_score: 0,
        opponent_score: 0,
        round: t,
        turn_history: hist,
    }
}

/// The rest of an extended match from a given position: the shared board,
/// both players' histories, whose turn it is, whether the previous player
/// stalled, the turn index, the remaining turn budget and the generator.
/// Returns the winner, the turn count and the generator after the match.
///
/// Player A clears bits, player B sets them; B's side is the complemented
/// board, so one candidate generator serves both.  An empty board wins for
/// A, a full one for B; two stalls in a row, or an exhausted turn budget,
/// draw the match.
pub open spec fn spec_ext_turns(
    board: u16,
    ha: Seq<u16>,
    hb: Seq<u16>,
    ba: u16,
    bb: u16,
    a_turn: bool,
    stalled: bool,
    t: int,
    fuel: int,
    rng: Xoroshiro128Plus,
) -> (Winner, int, Xoroshiro128Plus)
    decreases fuel,
{
    if fuel <= 0 {
        (Winner::Draw, t, rng)
    } else {
        let (roll, rng1) = spec_roll_2d6(rng);
        let norm = if a_turn {
            board
        } else {
            !board & 0xFFF
        };
        let hist = if a_turn {
            ha
        } else {
            hb
        };
        let bits = if a_turn {
            ba
        } else {
            bb
        };
        let cands = spec_candidates(norm, roll as int);
        if cands.len() == 0 {
            if stalled {
                (Winner::Draw, t + 1, rng1)
            } else {
                spec_ext_turns(board, ha, hb, ba, bb, !a_turn, true, t + 1, fuel - 1, rng1)
            }
        } else {
            let (m, rng2) = spec_choose(ext_snapshot(norm, hist, t), cands, bits, true, rng1);
            let board2 = if a_turn {
                board & !m
            } else {
                board | m
            };
            let ha2 = if a_turn {
                ha.push(m)
            } else {
                ha
            };
            let hb2 = if a_turn {
                hb
            } else {
                hb.push(m)
            };
            if board2 == 0 {
                (Winner::A, t + 1, rng2)
            } else if board2 == 0xFFF {
                (Winner::B, t + 1, rng2)
            } else {
                spec_ext_turns(board2, ha2, hb2, ba, bb, !a_turn, false, t + 1, fuel - 1, rng2)
            }
        }
    }
}

/// The winner and turn count of an extended match between two component
/// sets from a seed.
pub open spec fn spec_extended_match(ba: u16, bb: u16, seed: u64) -> (Winner, int) {
    let rng = Xoroshiro128Plus { s0: seed, s1: 0 };
    let (w, t, _) = spec_ext_turns(
        0xFFF,
        Seq::empty(),
        Seq::empty(),
        ba,
        bb,
        true,
        false,
        0,
        MAX_EXTENDED_TURNS as int,
        rng,
    );
    (w, t)
}

/// Play an extended match: one shared board, player A clearing and player B
/// setting, until the board is empty (A wins), full (B wins), both players
/// stall in turn or the turn budget runs out (draws).
pub fn play_extended_match(
    engine: &Engine,
    strategy_a: &CompositeStrategy,
    strategy_b: &CompositeStrategy,
    seed: u64,
) -> (r: MatchResult)
    requires
        engine.wf(),
        engine.spec_mode() == GameMode::Extended,
    ensures
        r.winner == spec_extended_match(strategy_a.spec_bits(), strategy_b.spec_bits(), seed).0,
        r.round_count as int == spec_extended_match(
            strategy_a.spec_bits(),
            strategy_b.spec_bits(),
            seed,
        ).1,
        r.score_a == 0,
        r.score_b == 0,
{
    let ghost ba = strategy_a.spec_bits();
    let ghost bb = strategy_b.spec_bits();
    let mut rng = Xoroshiro128Plus::new(seed);
    let ghost rng0 = rng;
    let mut state_a = GameState::new();
    let mut state_b = GameState::new();
    let mut board: u16 = crate::bits::FULL_BOARD;
    let mut a_turn: bool = true;
    let mut stalled: bool = false;
    let mut t: u32 = 0;
    let mut fuel: u32 = MAX_EXTENDED_TURNS;
    let winner: Winner;
    loop
        invariant_except_break
            engine.wf(),
            engine.spec_mode() == GameMode::Extended,
            ba == strategy_a.spec_bits(),
            bb == strategy_b.spec_bits(),
            board <= 0xFFF,
            t + fuel == MAX_EXTENDED_TURNS,
            state_a@.current_round_score == 0,
            state_a@.total_score == 0,
            state_a@.opponent_score == 0,
            state_b@.current_round_score == 0,
            state_b@.total_score == 0,
            state_b@.opponent_score == 0,
            spec_ext_turns(
                0xFFF,
                Seq::empty(),
                Seq::empty(),
                ba,
                bb,
                true,
                false,
                0,
                MAX_EXTENDED_TURNS as int,
                rng0,
            ) == spec_ext_turns(
                board,
                state_a@.turn_history,
                state_b@.turn_history,
                ba,
                bb,
                a_turn,
                stalled,
                t as int,
                fuel as int,
                rng,
            ),
        ensures
            ({
                let (w, tt, rr) = spec_ext_turns(
                    0xFFF,
                    Seq::empty(),
                    Seq::empty(),
                    ba,
                    bb,
                    true,
                    false,
                    0,
                    MAX_EXTENDED_TURNS as int,
                    rng0,
                );
                winner == w && t as int == tt
            }),
        decreases fuel,
    {
        let ghost board_entry = board;
        let ghost ha_entry = state_a@.turn_history;
        let ghost hb_entry = state_b@.turn_history;
        let ghost a_turn_entry = a_turn;
        let ghost stalled_entry = stalled;
        let ghost t_entry = t;
        let ghost fuel_entry = fuel;
        let ghost rng_entry = rng;
        if fuel == 0 {
            winner = Winner::Draw;
            break;
        }
        let roll = rng.roll_2d6();
        let norm: u16 = if a_turn {
            board
        } else {
            !board & 0xFFF
        };
        proof {
            assert(!board_entry & 0xFFF <= 0xFFF) by (bit_vector);
        }
        let moves = match engine.generate_moves(norm, roll) {
            Ok(m) => m,
            Err(_) => {
                proof {
                    assert(false);
                }
                unreached()
            },
        };
        if moves.len() == 0 {
            if stalled {
                winner = Winner::Draw;
                t = t + 1;
                break;
            }
            a_turn = !a_turn;
            stalled = true;
            t = t + 1;
            fuel = fuel - 1;
            proof {
                let (roll_s, rng1_s) = spec_roll_2d6(rng_entry);
                assert(roll_s == roll && rng1_s == rng);
                assert(spec_ext_turns(
                    board_entry,
                    ha_entry,
                    hb_entry,
                    ba,
                    bb,
                    a_turn_entry,
                    stalled_entry,
                    t_entry as int,
                    fuel_entry as int,
                    rng_entry,
                ) == spec_ext_turns(
                    board,
                    state_a@.turn_history,
                    state_b@.turn_history,
                    ba,
                    bb,
                    a_turn,
                    stalled,
                    t as int,
                    fuel as int,
                    rng,
                ));
            }
        } else {
            let ghost rng_roll = rng;
            let ghost snap = ext_snapshot(
                norm,
                if a_turn_entry {
                    ha_entry
                } else {
                    hb_entry
                },
                t as int,
            );
            let ghost bits = if a_turn_entry {
                ba
            } else {
                bb
            };
            let m: u16;
            if a_turn {
                state_a.board = norm;
                state_a.round = t as usize;
                proof {
                    assert(state_a@ =~= snap);
                }
                m = strategy_a.choose_move(&state_a, &moves, engine.table(), &mut rng);
                state_a.turn_history.push(m);
                board = board & !m;
            } else {
                state_b.board = norm;
                state_b.round = t as usize;
                proof {
                    assert(state_b@ =~= snap);
                }
                m = strategy_b.choose_move(&state_b, &moves, engine.table(), &mut rng);
                state_b.turn_history.push(m);
                board = board | m;
            }
            proof {
                crate::strategies::lemma_choose_in_cands(snap, moves@, bits, true, rng_roll);
                crate::moves::lemma_candidates_sound(norm, roll as int, m);
                assert((norm & m == m && norm <= 0xFFF) ==> (board_entry | m <= 0xFFF
                    && board_entry & !m <= 0xFFF)) by (bit_vector)
                    requires
                        board_entry <= 0xFFFu16,
                ;
            }
            a_turn = !a_turn;
            stalled = false;
            t = t + 1;
            fuel = fuel - 1;
            proof {
                let (roll_s, rng1_s) = spec_roll_2d6(rng_entry);
                assert(roll_s == roll && rng1_s == rng_roll);
                let (m_s, rng2_s) = spec_choose(snap, moves@, bits, true, rng_roll);
                assert(m_s == m && rng2_s == rng);
                assert(spec_ext_turns(
                    board_entry,
                    ha_entry,
                    hb_entry,
                    ba,
                    bb,
                    a_turn_entry,
                    stalled_entry,
                    t_entry as int,
                    fuel_entry as int,
                    rng_entry,
                ) == if board == 0 {
                    (Winner::A, t as int, rng)
                } else if board == 0xFFF {
                    (Winner::B, t as int, rng)
                } else {
                    spec_ext_turns(
                        board,
                        state_a@.turn_history,
                        state_b@.turn_history,
                        ba,
                        bb,
                        a_turn,
                        stalled,
                        t as int,
                        fuel as int,
                        rng,
                    )
                });
            }
            if board == 0 {
                winner = Winner::A;
                break;
            }
            if board == 0xFFF {
                winner = Winner::B;
                break;
            }
        }
    }
    MatchResult { winner, score_a: 0, score_b: 0, round_count: t }
}

/// A match result in list form: the winning player's index (ties and
/// draws fall to index 0, as the lower-total rule's first minimum), both
/// scores in player order, and a small round counter.
#[derive(Clone, PartialEq, Eq, Debug)]
pub struct GameResult {
    pub winner: usize,
    pub scores: Vec<u32>,
    pub num_rounds: u8,
}

impl GameResult {
    /// Convert a match result into list form.
    pub fn from_match(r: &MatchResult) -> (g: GameResult)
        ensures
            g.winner == (if r.winner is B {
                1int
            } else {
                0int
            }),
            g.scores@ == seq![r.score_a, r.score_b],
            g.num_rounds == (if r.round_count > 255 {
                255int
            } else {
                r.round_count as int
            }),
    {
        let winner: usize = match r.winner {
            Winner::B => 1,
            _ => 0,
        };
        let mut scores: Vec<u32> = Vec::new();
        scores.push(r.score_a);
        scores.push(r.score_b);
        proof {
            assert(scores@ =~= seq![r.score_a, r.score_b]);
        }
        let num_rounds: u8 = if r.round_count > 255 {
            255
        } else {
            r.round_count as u8
        };
        GameResult { winner, scores, num_rounds }
    }
}

/// The sum over rounds of the score recorded at each round's end equals
/// the total score at the end of a base match, for both players.
pub proof fn lemma_base_match_score_sum(ba: u16, bb: u16, n: int, seed: u64)
    requires
        0 <= n,
        12 * n <= u32::MAX,
    ensures
        ({
            let rng = Xoroshiro128Plus { s0: seed, s1: 0 };
            let init = StateView::initial();
            &&& spec_simulate_game(ba, bb, n, seed).0 == sum_seq(
                spec_round_scores_a(init, init, ba, bb, n, rng),
            )
            &&& spec_simulate_game(ba, bb, n, seed).1 == sum_seq(
                spec_round_scores_b(init, init, ba, bb, n, rng),
            )
        }),
{
    let rng = Xoroshiro128Plus { s0: seed, s1: 0 };
    lemma_match_totals(StateView::initial(), StateView::initial(), ba, bb, n, rng);
}

/// Play one base match over the standard number of rounds.
pub fn simulate_game(
    engine: &Engine,
    strategy_a: &CompositeStrategy,
    strategy_b: &CompositeStrategy,
    seed: u64,
) -> (r: (u32, u32))
    requires
        engine.wf(),
        engine.spec_mode() == GameMode::Base,
    ensures
        r == spec_simulate_game(
            strategy_a.spec_bits(),
            strategy_b.spec_bits(),
            crate::engine::ROUNDS as int,
            seed,
        ),
{
    let result = play_base_match(engine, strategy_a, strategy_b, seed, 5);
    (result.score_a, result.score_b)
}

} // verus!
