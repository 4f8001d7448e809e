//! Move generation.
//!
//! A candidate move for `(board, roll)` is a non-empty subset of the board's
//! set bits whose position values sum to the roll.  `spec_candidates` pins
//! down the exact ordered list the generator returns: the one-bit mask for
//! the roll first when its bit is open, then every other candidate in
//! ascending numeric order.  The `SubsetCache` precomputes, for each roll,
//! the candidate list of the full board; generation for an arbitrary board
//! filters a cache entry by the subset test.

use vstd::prelude::*;
use crate::bits::{bit_set, pop, mask_sum, lemma_singleton_mask, lemma_pop_le_mask_sum,
    lemma_pop_zero, lemma_mask_sum_bounds};

verus! {

/// The error kinds the engine can report.
///
/// `InvalidRoll` is returned for a roll outside `2 ..= 12`; `EmptyPolicySet`
/// marks a policy that failed to pick among existing candidates;
/// `ConfigError` rejects an ill-formed tournament configuration (an empty
/// policy list or zero simulations).
#[derive(Clone, Copy, PartialEq, Eq, Structural, Debug)]
pub enum GameError {
    InvalidRoll,
    EmptyPolicySet,
    ConfigError,
}

/// The one-bit mask whose position value is `roll`.
pub open spec fn singleton_mask(roll: int) -> u16 {
    1u16 << ((roll - 1) as u16)
}

/// Whether `m` is a legal move for `(board, roll)`: a non-empty subset of
/// the board whose position values sum to the roll.
pub open spec fn is_candidate(board: u16, roll: int, m: u16) -> bool {
    m != 0 && (board & m) == m && mask_sum(m) == roll
}

/// The candidates among masks `1 .. n`, in ascending order, excluding the
/// roll's singleton mask.
pub open spec fn asc_candidates(board: u16, roll: int, n: int) -> Seq<u16>
    decreases n,
{
    if n <= 1 {
        Seq::empty()
    } else {
        let m = (n - 1) as u16;
        asc_candidates(board, roll, n - 1) + if m != singleton_mask(roll) && is_candidate(
            board,
            roll,
            m,
        ) {
            seq![m]
        } else {
            Seq::empty()
        }
    }
}

/// The ordered candidate list for `(board, roll)`: the singleton for the
/// roll first when its bit is set, then the remaining candidates ascending.
pub open spec fn spec_candidates(board: u16, roll: int) -> Seq<u16> {
    let s = singleton_mask(roll);
    (if board & s == s {
        seq![s]
    } else {
        Seq::<u16>::empty()
    }) + asc_candidates(board, roll, 0x1000)
}

/// The elements among the first `i` of `s` that are subsets of `board`, in
/// order.
pub open spec fn subset_filter_upto(s: Seq<u16>, board: u16, i: int) -> Seq<u16>
    decreases i,
{
    if i <= 0 {
        Seq::empty()
    } else {
        subset_filter_upto(s, board, i - 1) + if board & s[i - 1] == s[i - 1] {
            seq![s[i - 1]]
        } else {
            Seq::empty()
        }
    }
}

/// Filtering only looks at the first `i` elements.
proof fn lemma_filter_upto_agrees(s1: Seq<u16>, s2: Seq<u16>, board: u16, i: int)
    requires
        0 <= i <= s1.len(),
        i <= s2.len(),
        forall|j: int| 0 <= j < i ==> s1[j] == s2[j],
    ensures
        subset_filter_upto(s1, board, i) == subset_filter_upto(s2, board, i),
    decreases i,
{
    if i > 0 {
        lemma_filter_upto_agrees(s1, s2, board, i - 1);
    }
}

/// Filtering distributes over concatenation.
proof fn lemma_filter_concat(a: Seq<u16>, b: Seq<u16>, board: u16)
    ensures
        subset_filter_upto(a + b, board, a.len() + b.len() as int) == subset_filter_upto(
            a,
            board,
            a.len() as int,
        ) + subset_filter_upto(b, board, b.len() as int),
    decreases b.len(),
{
    if b.len() == 0 {
        assert(a + b =~= a);
        assert(subset_filter_upto(a, board, a.len() as int) + Seq::<u16>::empty()
            =~= subset_filter_upto(a, board, a.len() as int));
    } else {
        let b0 = b.drop_last();
        lemma_filter_concat(a, b0, board);
        lemma_filter_upto_agrees(a + b0, a + b, board, a.len() + b.len() - 1);
        assert(forall|j: int| 0 <= j < a.len() + b0.len() ==> (a + b0)[j] == (a + b)[j]);
        let x = b.last();
        assert((a + b)[a.len() + b.len() - 1] == x);
        assert(subset_filter_upto(b, board, b.len() as int) == subset_filter_upto(
            b0,
            board,
            b0.len() as int,
        ) + if board & x == x {
            seq![x]
        } else {
            Seq::<u16>::empty()
        }) by {
            lemma_filter_upto_agrees(b, b0, board, b0.len() as int);
        }
        if board & x == x {
            assert(subset_filter_upto(a, board, a.len() as int) + subset_filter_upto(
                b0,
                board,
                b0.len() as int,
            ) + seq![x] =~= subset_filter_upto(a, board, a.len() as int) + (subset_filter_upto(
                b0,
                board,
                b0.len() as int,
            ) + seq![x]));
        } else {
            assert(subset_filter_upto(a, board, a.len() as int) + subset_filter_upto(
                b0,
                board,
                b0.len() as int,
            ) + Seq::<u16>::empty() =~= subset_filter_upto(a, board, a.len() as int)
                + (subset_filter_upto(b0, board, b0.len() as int) + Seq::<u16>::empty()));
        }
    }
}

/// A mask that is a subset of a twelve-bit board is itself twelve-bit, so
/// candidacy on `board` is candidacy on the full board plus the subset test.
proof fn lemma_candidate_via_full(board: u16, roll: int, m: u16)
    requires
        board <= 0xFFF,
    ensures
        is_candidate(board, roll, m) <==> (is_candidate(0xFFF, roll, m) && board & m == m),
{
    assert(board & m == m ==> 0xFFF & m == m) by (bit_vector)
        requires
            board <= 0xFFFu16,
    ;
}

/// Filtering the full board's ascending candidates by the subset test gives
/// the board's ascending candidates.
proof fn lemma_filter_asc(board: u16, roll: int, n: int)
    requires
        board <= 0xFFF,
        0 <= n <= 0x1000,
    ensures
        subset_filter_upto(
            asc_candidates(0xFFF, roll, n),
            board,
            asc_candidates(0xFFF, roll, n).len() as int,
        ) == asc_candidates(board, roll, n),
    decreases n,
{
    if n <= 1 {
    } else {
        let m = (n - 1) as u16;
        lemma_filter_asc(board, roll, n - 1);
        lemma_candidate_via_full(board, roll, m);
        let full_prev = asc_candidates(0xFFF, roll, n - 1);
        let tail: Seq<u16> = if m != singleton_mask(roll) && is_candidate(0xFFF, roll, m) {
            seq![m]
        } else {
            Seq::empty()
        };
        lemma_filter_concat(full_prev, tail, board);
        if m != singleton_mask(roll) && is_candidate(0xFFF, roll, m) {
            assert(tail == seq![m]);
            reveal_with_fuel(subset_filter_upto, 3);
            assert(subset_filter_upto(tail, board, 1) == Seq::<u16>::empty() + if board & tail[0]
                == tail[0] {
                seq![tail[0]]
            } else {
                Seq::<u16>::empty()
            });
            if board & m == m {
                assert(Seq::<u16>::empty() + seq![m] =~= seq![m]);
            } else {
                assert(Seq::<u16>::empty() + Seq::<u16>::empty() =~= Seq::<u16>::empty());
            }
        }
        assert(subset_filter_upto(tail, board, tail.len() as int) == if m != singleton_mask(roll)
            && is_candidate(board, roll, m) {
            seq![m]
        } else {
            Seq::<u16>::empty()
        });
        assert(asc_candidates(board, roll, n - 1) + Seq::<u16>::empty() =~= asc_candidates(
            board,
            roll,
            n - 1,
        ));
    }
}

/// Filtering the full board's candidate list by the subset test yields
/// exactly the candidate list of `board`.
pub proof fn lemma_filter_candidates(board: u16, roll: int)
    requires
        board <= 0xFFF,
        2 <= roll <= 12,
    ensures
        subset_filter_upto(
            spec_candidates(0xFFF, roll),
            board,
            spec_candidates(0xFFF, roll).len() as int,
        ) == spec_candidates(board, roll),
{
    let s = singleton_mask(roll);
    let ri = (roll - 1) as u16;
    assert(0xFFF & s == s) by (bit_vector)
        requires
            s == 1u16 << ri,
            1 <= ri <= 11,
    ;
    let sing: Seq<u16> = seq![s];
    let asc_full = asc_candidates(0xFFF, roll, 0x1000);
    lemma_filter_concat(sing, asc_full, board);
    lemma_filter_asc(board, roll, 0x1000);
    assert(subset_filter_upto(sing, board, 1) == if board & s == s {
        seq![s]
    } else {
        Seq::<u16>::empty()
    }) by {
        reveal_with_fuel(subset_filter_upto, 3);
        if board & s == s {
            assert(Seq::<u16>::empty() + seq![s] =~= seq![s]);
        } else {
            assert(Seq::<u16>::empty() + Seq::<u16>::empty() =~= Seq::<u16>::empty());
        }
    }
    assert(spec_candidates(0xFFF, roll) == sing + asc_full);
    if board & s == s {
    } else {
        assert(Seq::<u16>::empty() + asc_candidates(board, roll, 0x1000) =~= spec_candidates(
            board,
            roll,
        ));
    }
}

/// Membership in the ascending part characterised.
proof fn lemma_asc_membership(board: u16, roll: int, n: int, m: u16)
    requires
        0 <= n <= 0x1000,
    ensures
        asc_candidates(board, roll, n).contains(m) <==> (1 <= m < n && m != singleton_mask(roll)
            && is_candidate(board, roll, m)),
    decreases n,
{
    if n <= 1 {
        assert(!asc_candidates(board, roll, n).contains(m));
    } else {
        lemma_asc_membership(board, roll, n - 1, m);
        let prev = asc_candidates(board, roll, n - 1);
        let mm = (n - 1) as u16;
        let tail: Seq<u16> = if mm != singleton_mask(roll) && is_candidate(board, roll, mm) {
            seq![mm]
        } else {
            Seq::empty()
        };
        assert(asc_candidates(board, roll, n) == prev + tail);
        assert((prev + tail).contains(m) <==> prev.contains(m) || tail.contains(m)) by {
            if prev.contains(m) {
                let i = choose|i: int| 0 <= i < prev.len() && prev[i] == m;
                assert((prev + tail)[i] == m);
            }
            if tail.contains(m) {
                let i = choose|i: int| 0 <= i < tail.len() && tail[i] == m;
                assert((prev + tail)[prev.len() + i] == m);
            }
            if (prev + tail).contains(m) {
                let i = choose|i: int| 0 <= i < prev.len() + tail.len() && (prev + tail)[i] == m;
                if i < prev.len() {
                    assert(prev[i] == m);
                } else {
                    assert(tail[i - prev.len()] == m);
                }
            }
        }
        if tail.len() > 0 {
            assert(tail[0] == mm);
            assert(tail.contains(m) <==> m == mm) by {
                if tail.contains(m) {
                    let i = choose|i: int| 0 <= i < tail.len() && tail[i] == m;
                    assert(i == 0);
                }
                if m == mm {
                    assert(tail[0] == m);
                }
            }
        } else {
            assert(!tail.contains(m));
        }
    }
}

/// A mask is in the candidate list exactly when it is a legal move:
/// the generator's output is sound and complete.
pub proof fn lemma_candidates_membership(board: u16, roll: int, m: u16)
    requires
        board <= 0xFFF,
        2 <= roll <= 12,
    ensures
        spec_candidates(board, roll).contains(m) <==> is_candidate(board, roll, m),
{
    let s = singleton_mask(roll);
    lemma_singleton_mask((roll - 1) as u32);
    let sing: Seq<u16> = if board & s == s {
        seq![s]
    } else {
        Seq::empty()
    };
    let asc = asc_candidates(board, roll, 0x1000);
    lemma_asc_membership(board, roll, 0x1000, m);
    assert((sing + asc).contains(m) <==> sing.contains(m) || asc.contains(m)) by {
        if sing.contains(m) {
            let i = choose|i: int| 0 <= i < sing.len() && sing[i] == m;
            assert((sing + asc)[i] == m);
        }
        if asc.contains(m) {
            let i = choose|i: int| 0 <= i < asc.len() && asc[i] == m;
            assert((sing + asc)[sing.len() + i] == m);
        }
        if (sing + asc).contains(m) {
            let i = choose|i: int| 0 <= i < sing.len() + asc.len() && (sing + asc)[i] == m;
            if i < sing.len() {
                assert(sing[i] == m);
            } else {
                assert(asc[i - sing.len()] == m);
            }
        }
    }
    if m == s {
        assert(!asc.contains(m));
        assert(sing.contains(m) <==> board & s == s) by {
            if board & s == s {
                assert(sing[0] == s);
            } else {
                assert(sing.len() == 0);
            }
        }
    } else {
        assert(!sing.contains(m)) by {
            if sing.contains(m) {
                let i = choose|i: int| 0 <= i < sing.len() && sing[i] == m;
                assert(sing[i] == s);
            }
        }
        if is_candidate(board, roll, m) {
            assert(board & m == m ==> m <= 0xFFF) by (bit_vector)
                requires
                    board <= 0xFFFu16,
            ;
            assert(1 <= m < 0x1000);
        }
    }
}

/// Every listed candidate is a non-empty subset of the board whose position
/// values sum to the roll, and removes at least one and at most `roll` bits.
pub proof fn lemma_candidates_sound(board: u16, roll: int, m: u16)
    requires
        board <= 0xFFF,
        2 <= roll <= 12,
        spec_candidates(board, roll).contains(m),
    ensures
        m != 0,
        board & m == m,
        mask_sum(m) == roll,
        1 <= pop(m) <= roll,
{
    lemma_candidates_membership(board, roll, m);
    lemma_pop_le_mask_sum(m);
    lemma_pop_zero(m);
    crate::bits::lemma_pop_bounds(m);
}

/// The empty board admits no candidate for any roll.
pub proof fn lemma_empty_board_no_candidates(roll: int)
    requires
        2 <= roll <= 12,
    ensures
        spec_candidates(0u16, roll) == Seq::<u16>::empty(),
{
    let cands = spec_candidates(0u16, roll);
    if cands.len() > 0 {
        let m = cands[0];
        assert(cands.contains(m));
        lemma_candidates_membership(0u16, roll, m);
        assert(0u16 & m == 0u16) by (bit_vector);
    }
    assert(cands =~= Seq::<u16>::empty());
}

/// The move generator is a function of `(board, roll)` alone: two lists that
/// both satisfy its contract are equal.
pub proof fn lemma_generator_idempotent(board: u16, roll: int, l1: Seq<u16>, l2: Seq<u16>)
    requires
        l1 == spec_candidates(board, roll),
        l2 == spec_candidates(board, roll),
    ensures
        l1 == l2,
{
}

/// Precomputed candidate lists of the full board, one per roll.
pub struct SubsetCache {
    entries: Vec<Vec<u16>>,
}

impl SubsetCache {
    /// Well-formed: thirteen entries, and for each roll `2 ..= 12` the entry
    /// is the full board's candidate list.
    pub closed spec fn wf(&self) -> bool {
        &&& self.entries@.len() == 13
        &&& forall|r: int|
            2 <= r <= 12 ==> (#[trigger] self.entries@[r])@ == spec_candidates(0xFFF, r)
    }

    /// The candidate list of the full board for `roll`.
    pub closed spec fn spec_entry(&self, roll: int) -> Seq<u16> {
        self.entries@[roll]@
    }

    /// A well-formed cache's entry for `roll` is the full board's candidate
    /// list, so it holds a mask exactly when that mask is a non-empty
    /// twelve-bit subset whose position values sum to `roll`.
    pub proof fn lemma_entry_complete(&self, roll: int, m: u16)
        requires
            self.wf(),
            2 <= roll <= 12,
        ensures
            self.spec_entry(roll) == spec_candidates(0xFFF, roll),
            self.spec_entry(roll).contains(m) <==> is_candidate(0xFFF, roll, m),
    {
        lemma_candidates_membership(0xFFF, roll, m);
    }

    /// Build the cache by enumerating all twelve-bit masks per roll.
    pub fn new() -> (c: SubsetCache)
        ensures
            c.wf(),
    {
        let mut entries: Vec<Vec<u16>> = Vec::new();
        entries.push(Vec::new());
        entries.push(Vec::new());
        let mut r: u8 = 2;
        while r <= 12
            invariant
                2 <= r <= 13,
                entries@.len() == r as int,
                forall|q: int| 2 <= q < r ==> (#[trigger] entries@[q])@ == spec_candidates(0xFFF, q),
            decreases 13 - r,
        {
            let e = build_entry(r);
            entries.push(e);
            r = r + 1;
        }
        SubsetCache { entries }
    }

    /// Generate the ordered candidate list for `(board, roll)`.
    ///
    /// Fails with `InvalidRoll` exactly when the roll lies outside
    /// `2 ..= 12`; otherwise returns the list pinned down by
    /// `spec_candidates` (possibly empty, which callers treat as the end of
    /// the turn).
    pub fn generate_moves(&self, board: u16, roll: u8) -> (r: Result<Vec<u16>, GameError>)
        requires
            self.wf(),
            board <= 0xFFF,
        ensures
            match r {
                Ok(list) => 2 <= roll <= 12 && list@ == spec_candidates(board, roll as int),
                Err(e) => e == GameError::InvalidRoll && (roll < 2 || roll > 12),
            },
    {
        if roll < 2 || roll > 12 {
            return Err(GameError::InvalidRoll);
        }
        let entry = &self.entries[roll as usize];
        let mut out: Vec<u16> = Vec::new();
        let mut i: usize = 0;
        while i < entry.len()
            invariant
                i <= entry@.len(),
                out@ == subset_filter_upto(entry@, board, i as int),
            decreases entry@.len() - i,
        {
            let m = entry[i];
            if board & m == m {
                out.push(m);
            } else {
                proof {
                    assert(out@ + Seq::<u16>::empty() =~= out@);
                }
            }
            i = i + 1;
        }
        proof {
            lemma_filter_candidates(board, roll as int);
        }
        Ok(out)
    }
}

/// Build the full board's candidate list for one roll: singleton first, then
/// every other summing mask in ascending order.
fn build_entry(r: u8) -> (v: Vec<u16>)
    requires
        2 <= r <= 12,
    ensures
        v@ == spec_candidates(0xFFF, r as int),
{
    let s: u16 = 1u16 << ((r - 1) as u16);
    proof {
        assert(0xFFF & s == s) by (bit_vector)
            requires
                s == 1u16 << ((r - 1) as u16),
                2 <= r <= 12,
        ;
    }
    let mut v: Vec<u16> = Vec::new();
    v.push(s);
    let mut m: u32 = 1;
    while m < 0x1000
        invariant
            2 <= r <= 12,
            s == singleton_mask(r as int),
            1 <= m <= 0x1000,
            v@ == seq![s] + asc_candidates(0xFFF, r as int, m as int),
        decreases 0x1000 - m,
    {
        let mm = m as u16;
        proof {
            assert(mm != 0 && 0xFFF & mm == mm && mm == m) by (bit_vector)
                requires
                    1 <= m < 0x1000,
                    mm == m as u16,
            ;
        }
        let sum = crate::bits::mask_sum_exec(mm);
        if mm != s && sum == r as u32 {
            v.push(mm);
            proof {
                assert(v@ =~= seq![s] + asc_candidates(0xFFF, r as int, m + 1));
            }
        } else {
            proof {
                assert(v@ =~= seq![s] + asc_candidates(0xFFF, r as int, m + 1));
            }
        }
        m = m + 1;
    }
    v
}

} // verus!
