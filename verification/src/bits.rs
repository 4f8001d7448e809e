//! Bit-level model of the twelve-position board.
//!
//! A board or move is a `u16` whose low twelve bits matter: bit `i` set means
//! position `i + 1` is present.  The spec functions here give the number of
//! set bits and the sum of position values of a mask; the lemmas relate both
//! to clearing a subset of a board.

use vstd::prelude::*;

verus! {

/// The mask with all twelve positions present.
pub const FULL_BOARD: u16 = 0xFFF;

/// Whether bit `i` of `m` is set.
pub open spec fn bit_set(m: u16, i: u32) -> bool {
    i < 16 && (m >> i) & 1u16 == 1u16
}

/// Number of set bits among bits `0 .. n` of `m`.
pub open spec fn count_bits_upto(m: u16, n: int) -> int
    decreases n,
{
    if n <= 0 {
        0
    } else {
        count_bits_upto(m, n - 1) + if bit_set(m, (n - 1) as u32) {
            1int
        } else {
            0int
        }
    }
}

/// Number of set bits of `m` (its popcount).
pub open spec fn pop(m: u16) -> int {
    count_bits_upto(m, 16)
}

/// Sum of `i + 1` over the set bits among bits `0 .. n` of `m`.
pub open spec fn sum_positions_upto(m: u16, n: int) -> int
    decreases n,
{
    if n <= 0 {
        0
    } else {
        sum_positions_upto(m, n - 1) + if bit_set(m, (n - 1) as u32) {
            n
        } else {
            0int
        }
    }
}

/// Sum of the position values (`i + 1` for each set bit `i`) of `m`.
pub open spec fn mask_sum(m: u16) -> int {
    sum_positions_upto(m, 16)
}

/// The board after clearing the positions of `m` from `b`.
pub open spec fn clear_mask(b: u16, m: u16) -> u16 {
    b & !m
}

/// Counting set bits is monotone in the prefix length and bounded by it.
pub proof fn lemma_count_bits_upto_bounds(m: u16, n: int)
    requires
        0 <= n,
    ensures
        0 <= count_bits_upto(m, n) <= n,
    decreases n,
{
    if n > 0 {
        lemma_count_bits_upto_bounds(m, n - 1);
    }
}

/// A popcount lies between 0 and 16.
pub proof fn lemma_pop_bounds(m: u16)
    ensures
        0 <= pop(m) <= 16,
{
    lemma_count_bits_upto_bounds(m, 16);
}

proof fn lemma_count_bits_zero_rec(m: u16, n: int)
    requires
        0 <= n <= 16,
        m == 0,
    ensures
        count_bits_upto(m, n) == 0,
    decreases n,
{
    if n > 0 {
        lemma_count_bits_zero_rec(m, n - 1);
        let i = (n - 1) as u32;
        assert(!bit_set(0u16, i)) by (bit_vector)
            requires
                i < 16u32,
        ;
    }
}

proof fn lemma_count_ge_one(m: u16, i: u32, n: int)
    requires
        bit_set(m, i),
        i < n <= 16,
    ensures
        count_bits_upto(m, n) >= 1,
    decreases n,
{
    if (i as int) < n - 1 {
        lemma_count_ge_one(m, i, n - 1);
    } else {
        lemma_count_bits_upto_bounds(m, n - 1);
    }
}

/// A mask has popcount 0 exactly when it is empty.
pub proof fn lemma_pop_zero(m: u16)
    ensures
        pop(m) == 0 <==> m == 0,
{
    if m == 0 {
        lemma_count_bits_zero_rec(m, 16);
    } else {
        let i = choose|i: u32| i < 16 && bit_set(m, i);
        assert(exists|i: u32| i < 16 && bit_set(m, i)) by {
            let tz = vstd::std_specs::bits::u16_trailing_zeros(m);
            vstd::std_specs::bits::axiom_u16_trailing_zeros(m);
            assert(tz < 16 && bit_set(m, tz));
        }
        lemma_count_ge_one(m, i, 16);
    }
}

proof fn lemma_clear_bits_rec(b: u16, m: u16, n: int)
    requires
        0 <= n <= 16,
        b & m == m,
    ensures
        count_bits_upto(b & !m, n) == count_bits_upto(b, n) - count_bits_upto(m, n),
        sum_positions_upto(b & !m, n) == sum_positions_upto(b, n) - sum_positions_upto(m, n),
    decreases n,
{
    if n > 0 {
        lemma_clear_bits_rec(b, m, n - 1);
        let i = (n - 1) as u32;
        assert((bit_set(b & !m, i) ==> bit_set(b, i) && !bit_set(m, i)) && (bit_set(m, i)
            ==> bit_set(b, i)) && (bit_set(b, i) && !bit_set(m, i) ==> bit_set(b & !m, i)))
            by (bit_vector)
            requires
                b & m == m,
                i < 16u32,
        ;
    }
}

/// Clearing a subset `m` of `b` removes exactly `pop(m)` bits and
/// `mask_sum(m)` from the position sum.
pub proof fn lemma_clear_subset(b: u16, m: u16)
    requires
        b & m == m,
    ensures
        pop(clear_mask(b, m)) == pop(b) - pop(m),
        mask_sum(clear_mask(b, m)) == mask_sum(b) - mask_sum(m),
{
    lemma_clear_bits_rec(b, m, 16);
}

proof fn lemma_sum_le_prefix(m: u16, n: int)
    requires
        0 <= n,
    ensures
        count_bits_upto(m, n) <= sum_positions_upto(m, n),
        0 <= sum_positions_upto(m, n),
    decreases n,
{
    if n > 0 {
        lemma_sum_le_prefix(m, n - 1);
    }
}

/// Every set bit contributes at least 1 to the position sum, so the popcount
/// of a mask never exceeds its position sum.
pub proof fn lemma_pop_le_mask_sum(m: u16)
    ensures
        pop(m) <= mask_sum(m),
        0 <= mask_sum(m),
{
    lemma_sum_le_prefix(m, 16);
}

proof fn lemma_singleton_bits(i: u32, j: u32)
    by (bit_vector)
    requires
        i < 12,
        j < 16,
    ensures
        bit_set(1u16 << i, j) <==> i == j,
{
}

proof fn lemma_sum_singleton_rec(i: u32, n: int)
    requires
        i < 12,
        0 <= n <= 16,
    ensures
        sum_positions_upto(1u16 << i, n) == if (i as int) < n {
            i + 1
        } else {
            0int
        },
        count_bits_upto(1u16 << i, n) == if (i as int) < n {
            1int
        } else {
            0int
        },
    decreases n,
{
    if n > 0 {
        lemma_sum_singleton_rec(i, n - 1);
        lemma_singleton_bits(i, (n - 1) as u32);
    }
}

/// A one-bit mask at bit `i` has position sum `i + 1` and popcount 1.
pub proof fn lemma_singleton_mask(i: u32)
    requires
        i < 12,
    ensures
        mask_sum(1u16 << i) == i + 1,
        pop(1u16 << i) == 1,
        (1u16 << i) != 0,
{
    lemma_sum_singleton_rec(i, 16);
    assert((1u16 << i) != 0u16) by (bit_vector)
        requires
            i < 12u32,
    ;
}

proof fn lemma_high_bits_rec(m: u16, n: int)
    requires
        m <= 0xFFF,
        12 <= n <= 16,
    ensures
        count_bits_upto(m, n) == count_bits_upto(m, 12),
        sum_positions_upto(m, n) == sum_positions_upto(m, 12),
    decreases n,
{
    if n > 12 {
        lemma_high_bits_rec(m, n - 1);
        let i = (n - 1) as u32;
        assert(!bit_set(m, i)) by (bit_vector)
            requires
                m <= 0xFFFu16,
                12 <= i < 16u32,
        ;
    }
}

proof fn lemma_sum_le_total_rec(m: u16, n: int)
    requires
        0 <= n <= 16,
    ensures
        sum_positions_upto(m, n) <= n * (n + 1) / 2,
        count_bits_upto(m, n) <= n,
    decreases n,
{
    if n > 0 {
        lemma_sum_le_total_rec(m, n - 1);
        assert((n - 1) * n / 2 + n == n * (n + 1) / 2) by (nonlinear_arith);
    }
}

/// A twelve-bit mask has popcount at most 12 and position sum at most 78.
pub proof fn lemma_mask_sum_bounds(m: u16)
    requires
        m <= 0xFFF,
    ensures
        0 <= mask_sum(m) <= 78,
        0 <= pop(m) <= 12,
{
    lemma_high_bits_rec(m, 16);
    lemma_sum_le_total_rec(m, 12);
    lemma_pop_le_mask_sum(m);
    lemma_count_bits_upto_bounds(m, 12);
}

/// Number of set bits of `m`: executable form of `pop`.
pub fn popcount(m: u16) -> (r: u32)
    ensures
        r == pop(m),
{
    let mut r: u32 = 0;
    let mut i: u32 = 0;
    while i < 16
        invariant
            i <= 16,
            r == count_bits_upto(m, i as int),
            r <= i,
        decreases 16 - i,
    {
        if (m >> i) & 1 == 1 {
            r = r + 1;
        }
        i = i + 1;
    }
    r
}

/// Sum of the position values of `m`: executable form of `mask_sum`.
pub fn mask_sum_exec(m: u16) -> (r: u32)
    ensures
        r == mask_sum(m),
{
    let mut r: u32 = 0;
    let mut i: u32 = 0;
    while i < 16
        invariant
            i <= 16,
            r == sum_positions_upto(m, i as int),
            r <= 16 * i,
        decreases 16 - i,
    {
        if (m >> i) & 1 == 1 {
            r = r + (i + 1);
        }
        i = i + 1;
    }
    r
}

} // verus!
