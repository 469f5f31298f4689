use vstd::prelude::*;
use vstd::arithmetic::power2::is_pow2;

verus! {

/// A number is a power of two exactly when it is positive and shares no bit
/// with the number before it.
proof fn lemma_single_bit(m: u32)
    ensures
        (m > 0 && m & ((m - 1) as u32) == 0) <==> is_pow2(m as int),
    decreases m,
{
    reveal(is_pow2);
    if m <= 1 {
        assert(1u32 & 0u32 == 0) by (bit_vector);
    } else {
        lemma_single_bit(m / 2);
        assert((m & ((m - 1) as u32) == 0) <==> (m % 2 == 0 && (m / 2) & ((m / 2 - 1) as u32)
            == 0)) by (bit_vector)
            requires
                m > 1,
        ;
    }
}

/// Whether `n` is a power of two: one of 1, 2, 4, 8 and so on.
pub fn is_power_of_two(n: i32) -> (answer: bool)
    ensures
        answer == is_pow2(n as int),
{
    if n <= 0 {
        proof {
            reveal(is_pow2);
        }
        return false;
    }
    proof {
        lemma_single_bit(n as u32);
        assert((n & ((n - 1) as i32) == 0) <==> ((n as u32) & (((n as u32) - 1) as u32) == 0))
            by (bit_vector)
            requires
                n > 0,
        ;
    }
    n & (n - 1) == 0
}

} // verus!
