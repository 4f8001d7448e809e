//! Bounded-depth look-ahead evaluation.
//!
//! `spec_eval_move` pins down the value of playing a move: apply it, then —
//! unless the depth is exhausted or the board is terminal — take the best
//! value over every roll, where a roll with no candidates is worth the
//! negated popcount of the board and one with candidates the best value of
//! its candidates one level deeper.  Lower remaining popcount is better, so
//! values lie in `[-pop(board), 0]`.
//!
//! The evaluation is a pure function of the board, so an `EvalTable`
//! precomputes it for every board and depth up to `MAX_LOOK_AHEAD` once per
//! engine and turns each look-ahead score into a table lookup.

use vstd::prelude::*;
use vstd::math::max;
use crate::bits::{pop, clear_mask};
use crate::moves::{spec_candidates, SubsetCache};

verus! {

/// Depth of look-ahead evaluation.
pub const MAX_LOOK_AHEAD: u32 = 3;

/// Value of board `b` for the player clearing it, looking `depth` moves
/// ahead.  In the extended variant (`ext`) a full board is terminal too.
pub open spec fn spec_eval_board(b: u16, depth: int, ext: bool) -> int
    decreases depth, 3int, 0int, 0int,
{
    if depth <= 0 || b == 0 || (ext && b == 0xFFF) {
        -pop(b)
    } else {
        spec_roll_max(b, depth, 12, ext)
    }
}

/// Best branch value over rolls `2 ..= r`.
pub open spec fn spec_roll_max(b: u16, depth: int, r: int, ext: bool) -> int
    decreases depth, 2int, r, 0int,
{
    if depth <= 0 || r < 2 {
        -pop(b)
    } else if r == 2 {
        spec_branch(b, depth, 2, ext)
    } else {
        max(spec_branch(b, depth, r, ext), spec_roll_max(b, depth, r - 1, ext))
    }
}

/// Value of one roll: the best of its candidates one level deeper, or the
/// negated popcount of the board when the roll admits no candidate.
pub open spec fn spec_branch(b: u16, depth: int, r: int, ext: bool) -> int
    decreases depth, 1int, r, 1int,
{
    spec_max_eval(b, spec_candidates(b, r), depth, ext)
}

/// Fold of `max` over applying each mask of `s` to `b` and evaluating one
/// level deeper, starting from the no-move value `-pop(b)`.
pub open spec fn spec_max_eval(b: u16, s: Seq<u16>, depth: int, ext: bool) -> int
    decreases depth, 0int, s.len(), 0int,
{
    if depth <= 0 {
        -pop(b)
    } else if s.len() == 0 {
        -pop(b)
    } else {
        max(
            spec_eval_board(clear_mask(b, s.last()), depth - 1, ext),
            spec_max_eval(b, s.drop_last(), depth, ext),
        )
    }
}

/// Value of playing `m` on `b` with `depth` look-ahead.
pub open spec fn spec_eval_move(b: u16, m: u16, depth: int, ext: bool) -> int {
    spec_eval_board(clear_mask(b, m), depth, ext)
}

/// Evaluation values lie in `[-pop(b), 0]`.
pub proof fn lemma_eval_board_bounds(b: u16, depth: int, ext: bool)
    ensures
        -pop(b) <= spec_eval_board(b, depth, ext) <= 0,
    decreases depth, 3int, 0int, 0int,
{
    crate::bits::lemma_pop_bounds(b);
    if depth <= 0 || b == 0 || (ext && b == 0xFFF) {
    } else {
        lemma_roll_max_bounds(b, depth, 12, ext);
    }
}

proof fn lemma_roll_max_bounds(b: u16, depth: int, r: int, ext: bool)
    ensures
        -pop(b) <= spec_roll_max(b, depth, r, ext) <= 0,
    decreases depth, 2int, r, 0int,
{
    crate::bits::lemma_pop_bounds(b);
    if depth <= 0 || r < 2 {
    } else if r == 2 {
        lemma_max_eval_bounds(b, spec_candidates(b, 2), depth, ext);
        assert(spec_branch(b, depth, 2, ext) == spec_max_eval(b, spec_candidates(b, 2), depth, ext));
    } else {
        lemma_max_eval_bounds(b, spec_candidates(b, r), depth, ext);
        lemma_roll_max_bounds(b, depth, r - 1, ext);
        assert(spec_branch(b, depth, r, ext) == spec_max_eval(b, spec_candidates(b, r), depth, ext));
    }
}

proof fn lemma_max_eval_bounds(b: u16, s: Seq<u16>, depth: int, ext: bool)
    ensures
        -pop(b) <= spec_max_eval(b, s, depth, ext) <= 0,
    decreases depth, 0int, s.len(), 1int,
{
    crate::bits::lemma_pop_bounds(b);
    if depth <= 0 || s.len() == 0 {
    } else {
        lemma_eval_board_bounds(clear_mask(b, s.last()), depth - 1, ext);
        lemma_max_eval_bounds(b, s.drop_last(), depth, ext);
    }
}

/// Look-ahead evaluation is a pure function of board, move and depth: two
/// values that both satisfy its contract are equal.
pub proof fn lemma_eval_deterministic(b: u16, m: u16, depth: int, ext: bool, v1: int, v2: int)
    requires
        v1 == spec_eval_move(b, m, depth, ext),
        v2 == spec_eval_move(b, m, depth, ext),
    ensures
        v1 == v2,
{
}

/// Precomputed evaluation values for every board and depth `0 ..= 3`.
pub struct EvalTable {
    vals: Vec<i32>,
    ext: bool,
}

impl EvalTable {
    /// Whether the table was built for the extended variant.
    pub closed spec fn spec_ext(&self) -> bool {
        self.ext
    }

    /// Well-formed: one value per `(depth, board)` pair, each the pinned
    /// evaluation of that board at that depth.
    pub closed spec fn wf(&self) -> bool {
        &&& self.vals@.len() == 4 * 4096
        &&& forall|d: int, b: int|
            0 <= d < 4 && 0 <= b < 4096 ==> #[trigger] self.vals@[d * 4096 + b] == spec_eval_board(
                b as u16,
                d,
                self.ext,
            )
    }

    /// Value of board `b` at look-ahead depth `depth`.
    pub fn lookup(&self, b: u16, depth: u32) -> (r: i32)
        requires
            self.wf(),
            b <= 0xFFF,
            depth <= 3,
        ensures
            r == spec_eval_board(b, depth as int, self.spec_ext()),
    {
        self.vals[(depth as usize) * 4096 + (b as usize)]
    }

    /// Value of playing `m` on `b` at look-ahead depth `depth`.
    pub fn evaluate_move(&self, b: u16, m: u16, depth: u32) -> (r: i32)
        requires
            self.wf(),
            b <= 0xFFF,
            depth <= 3,
        ensures
            r == spec_eval_move(b, m, depth as int, self.spec_ext()),
    {
        let cleared = b & !m;
        proof {
            assert(b & !m <= 0xFFF) by (bit_vector)
                requires
                    b <= 0xFFFu16,
            ;
        }
        self.lookup(cleared, depth)
    }

    /// Build the table bottom-up over depths.
    pub fn new(cache: &SubsetCache, ext: bool) -> (t: EvalTable)
        requires
            cache.wf(),
        ensures
            t.wf(),
            t.spec_ext() == ext,
    {
        let mut vals: Vec<i32> = Vec::new();
        let mut d: u32 = 0;
        while d < 4
            invariant
                cache.wf(),
                d <= 4,
                vals@.len() == d * 4096,
                forall|dd: int, b: int|
                    0 <= dd < d && 0 <= b < 4096 ==> #[trigger] vals@[dd * 4096 + b]
                        == spec_eval_board(b as u16, dd, ext),
            decreases 4 - d,
        {
            let mut b: u32 = 0;
            while b < 4096
                invariant
                    cache.wf(),
                    d < 4,
                    b <= 4096,
                    vals@.len() == d * 4096 + b,
                    forall|dd: int, bb: int|
                        0 <= dd < d && 0 <= bb < 4096 ==> #[trigger] vals@[dd * 4096 + bb]
                            == spec_eval_board(bb as u16, dd, ext),
                    forall|bb: int|
                        0 <= bb < b ==> #[trigger] vals@[d * 4096 + bb] == spec_eval_board(
                            bb as u16,
                            d as int,
                            ext,
                        ),
                decreases 4096 - b,
            {
                let bd = b as u16;
                proof {
                    assert(bd == b && bd <= 0xFFF) by (bit_vector)
                        requires
                            b < 4096u32,
                            bd == b as u16,
                    ;
                    crate::bits::lemma_pop_bounds(bd);
                }
                let p = crate::bits::popcount(bd);
                let v: i32 = if d == 0 || bd == 0 || (ext && bd == 0xFFF) {
                    0i32 - (p as i32)
                } else {
                    self_eval_step(cache, &vals, bd, d, ext)
                };
                vals.push(v);
                proof {
                    assert forall|dd: int, bb: int|
                        0 <= dd < d && 0 <= bb < 4096 implies #[trigger] vals@[dd * 4096 + bb]
                        == spec_eval_board(bb as u16, dd, ext) by {
                        assert(dd * 4096 + bb < d * 4096 + b) by (nonlinear_arith)
                            requires
                                0 <= dd < d,
                                0 <= bb < 4096,
                        ;
                    }
                }
                b = b + 1;
            }
            d = d + 1;
        }
        EvalTable { vals, ext }
    }
}

/// One non-terminal table entry: the best branch value over all rolls,
/// reading one-level-shallower values from the table built so far.
fn self_eval_step(cache: &SubsetCache, vals: &Vec<i32>, bd: u16, d: u32, ext: bool) -> (v: i32)
    requires
        cache.wf(),
        1 <= d < 4,
        bd <= 0xFFF,
        bd != 0,
        !(ext && bd == 0xFFF),
        vals@.len() >= d * 4096,
        forall|dd: int, bb: int|
            0 <= dd < d && 0 <= bb < 4096 ==> #[trigger] vals@[dd * 4096 + bb] == spec_eval_board(
                bb as u16,
                dd,
                ext,
            ),
    ensures
        v == spec_eval_board(bd, d as int, ext),
{
    let mut best: i32 = branch_value(cache, vals, bd, 2, d, ext);
    let mut r: u8 = 3;
    while r <= 12
        invariant
            cache.wf(),
            1 <= d < 4,
            bd <= 0xFFF,
            3 <= r <= 13,
            vals@.len() >= d * 4096,
            forall|dd: int, bb: int|
                0 <= dd < d && 0 <= bb < 4096 ==> #[trigger] vals@[dd * 4096 + bb]
                    == spec_eval_board(bb as u16, dd, ext),
            best == spec_roll_max(bd, d as int, r - 1, ext),
        decreases 13 - r,
    {
        let bv = branch_value(cache, vals, bd, r, d, ext);
        if bv > best {
            best = bv;
        }
        r = r + 1;
    }
    best
}

/// The branch value of one roll: fold of `max` over the candidates of
/// `(bd, r)`, starting from `-pop(bd)`.
fn branch_value(cache: &SubsetCache, vals: &Vec<i32>, bd: u16, r: u8, d: u32, ext: bool) -> (v: i32)
    requires
        cache.wf(),
        1 <= d < 4,
        bd <= 0xFFF,
        2 <= r <= 12,
        vals@.len() >= d * 4096,
        forall|dd: int, bb: int|
            0 <= dd < d && 0 <= bb < 4096 ==> #[trigger] vals@[dd * 4096 + bb] == spec_eval_board(
                bb as u16,
                dd,
                ext,
            ),
    ensures
        v == spec_branch(bd, d as int, r as int, ext),
{
    let moves = match cache.generate_moves(bd, r) {
        Ok(m) => m,
        Err(_) => {
            proof {
                assert(false);
            }
            unreached()
        },
    };
    proof {
        crate::bits::lemma_pop_bounds(bd);
    }
    let p = crate::bits::popcount(bd);
    let mut best: i32 = 0i32 - (p as i32);
    let mut i: usize = 0;
    proof {
        assert(moves@.take(0) =~= Seq::<u16>::empty());
    }
    while i < moves.len()
        invariant
            cache.wf(),
            1 <= d < 4,
            bd <= 0xFFF,
            i <= moves@.len(),
            moves@ == spec_candidates(bd, r as int),
            vals@.len() >= d * 4096,
            forall|dd: int, bb: int|
                0 <= dd < d && 0 <= bb < 4096 ==> #[trigger] vals@[dd * 4096 + bb]
                    == spec_eval_board(bb as u16, dd, ext),
            best == spec_max_eval(bd, moves@.take(i as int), d as int, ext),
        decreases moves@.len() - i,
    {
        let m = moves[i];
        let cleared = bd & !m;
        proof {
            assert(bd & !m <= 0xFFF) by (bit_vector)
                requires
                    bd <= 0xFFFu16,
            ;
            assert((d - 1) * 4096 + cleared < d * 4096);
        }
        let child = vals[((d - 1) as usize) * 4096 + (cleared as usize)];
        if child > best {
            best = child;
        }
        proof {
            let taken = moves@.take(i + 1);
            assert(taken.last() == m);
            assert(taken.drop_last() =~= moves@.take(i as int));
        }
        i = i + 1;
    }
    proof {
        assert(moves@.take(moves@.len() as int) =~= moves@);
    }
    best
}

} // verus!
