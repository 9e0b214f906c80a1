//! Alignment and size arithmetic shared by the pool implementations.

use vstd::prelude::*;

verus! {

use crate::config::{spec_growth, GrowthStrategy};
use crate::error::{Error, PoolResult};
use vstd::arithmetic::power2::pow2;
use vstd::bits::low_bits_mask;

/// What it means for `n` to be a power of two.
pub open spec fn spec_is_power_of_two(n: nat) -> bool
    decreases n,
{
    if n == 0 {
        false
    } else if n == 1 {
        true
    } else {
        n % 2 == 0 && spec_is_power_of_two(n / 2)
    }
}

/// `size` rounded up to the next multiple of `alignment`.
pub open spec fn spec_align_up(size: nat, alignment: nat) -> nat
    recommends
        alignment > 0,
{
    ((size + alignment - 1) / (alignment as int) * (alignment as int)) as nat
}

/// Checks if a value is a power of two.
pub fn is_power_of_two(n: usize) -> (r: bool)
    ensures
        r == spec_is_power_of_two(n as nat),
{
    if n == 0 {
        false
    } else {
        proof {
            lemma_power_of_two_bit_test(n);
        }
        (n & (n - 1)) == 0
    }
}

/// The bit trick `n & (n - 1) == 0` recognises exactly the powers of two
/// among the positive integers.
proof fn lemma_power_of_two_bit_test(n: usize)
    requires
        n > 0,
    ensures
        ((n & (n - 1) as usize) == 0) == spec_is_power_of_two(n as nat),
    decreases n,
{
    if n == 1 {
        assert((n & (n - 1) as usize) == 0) by (bit_vector)
            requires
                n == 1,
        ;
    } else if n % 2 == 1 {
        assert((n & (n - 1) as usize) != 0) by (bit_vector)
            requires
                n > 1 && n % 2 == 1,
        ;
    } else {
        lemma_power_of_two_bit_test(n / 2);
        assert(((n & (n - 1) as usize) == 0) == (((n / 2) & (n / 2 - 1) as usize) == 0))
            by (bit_vector)
            requires
                n > 1 && n % 2 == 0,
        ;
    }
}

/// The recursive power-of-two test used here agrees with the one the
/// standard arithmetic library uses for layout facts.
pub proof fn lemma_is_power_of_two_equiv(n: nat)
    ensures
        spec_is_power_of_two(n) == vstd::arithmetic::power2::is_pow2(n as int),
    decreases n,
{
    reveal(vstd::arithmetic::power2::is_pow2);
    if n > 1 {
        lemma_is_power_of_two_equiv(n / 2);
    }
}

/// Validates that an alignment value is a power of two.
pub fn validate_alignment(alignment: usize) -> (r: PoolResult<()>)
    ensures
        r is Ok <==> spec_is_power_of_two(alignment as nat),
        r matches Err(e) ==> e == (Error::InvalidAlignment { alignment }),
{
    if is_power_of_two(alignment) {
        Ok(())
    } else {
        Err(Error::InvalidAlignment { alignment })
    }
}

/// Every power of two is `pow2` of some exponent that fits the word size.
proof fn lemma_power_of_two_as_pow2(a: nat)
    requires
        spec_is_power_of_two(a),
    ensures
        exists|n: nat| a == pow2(n),
    decreases a,
{
    vstd::arithmetic::power2::lemma_pow2_unfold(1);
    vstd::arithmetic::power2::lemma2_to64();
    if a == 1 {
        assert(a == pow2(0));
    } else {
        lemma_power_of_two_as_pow2(a / 2);
        let n = choose|n: nat| a / 2 == pow2(n);
        vstd::arithmetic::power2::lemma_pow2_unfold(n + 1);
        assert(a == pow2(n + 1));
    }
}

/// Rounds up a size to the next multiple of alignment.
pub fn align_up(size: usize, alignment: usize) -> (r: usize)
    requires
        spec_is_power_of_two(alignment as nat),
        size + alignment - 1 <= usize::MAX,
    ensures
        r == spec_align_up(size as nat, alignment as nat),
        r >= size,
        r % alignment == 0,
        r < size + alignment,
{
    proof {
        lemma_align_up_mask(size, alignment);
        let x = (size + alignment - 1) as usize;
        vstd::arithmetic::div_mod::lemma_fundamental_div_mod(x as int, alignment as int);
        vstd::arithmetic::div_mod::lemma_mod_division_less_than_divisor(
            x as int,
            alignment as int,
        );
        vstd::arithmetic::div_mod::lemma_mod_multiples_basic(
            (x as int) / (alignment as int),
            alignment as int,
        );
    }
    (size + (alignment - 1)) & !(alignment - 1)
}

/// For a power-of-two alignment, masking off the low bits of
/// `size + alignment - 1` subtracts its remainder modulo the alignment.
proof fn lemma_align_up_mask(size: usize, alignment: usize)
    requires
        spec_is_power_of_two(alignment as nat),
        size + alignment - 1 <= usize::MAX,
    ensures
        alignment >= 1,
        ((size + alignment - 1) as usize) & !((alignment - 1) as usize) == (size + alignment - 1)
            - (((size + alignment - 1) as usize) % alignment),
{
    lemma_power_of_two_as_pow2(alignment as nat);
    let n = choose|n: nat| alignment as nat == pow2(n);
    vstd::arithmetic::power2::lemma_pow2_pos(n);
    lemma_pow2_exponent_in_range(n, alignment);
    assert(low_bits_mask(n) == pow2(n) - 1);
    let x = (size + alignment - 1) as usize;
    vstd::bits::lemma_usize_low_bits_mask_is_mod(x, n);
    assert(x & ((alignment - 1) as usize) <= x && x & !((alignment - 1) as usize) == x - (x & ((
    alignment - 1) as usize))) by (bit_vector);
}

/// An exponent whose power of two fits in a word is below the word size.
proof fn lemma_pow2_exponent_in_range(n: nat, alignment: usize)
    requires
        alignment as nat == pow2(n),
    ensures
        n < usize::BITS,
{
    if n >= usize::BITS {
        vstd::arithmetic::power2::lemma2_to64();
        if n > usize::BITS {
            vstd::arithmetic::power2::lemma_pow2_strictly_increases(usize::BITS as nat, n);
        }
        assert(false);
    }
}

/// Calculates the aligned size for a type with custom alignment.
pub fn aligned_size<T>(alignment: usize) -> (r: usize)
    requires
        spec_is_power_of_two(alignment as nat),
        vstd::layout::size_of::<T>() + alignment - 1 <= usize::MAX,
    ensures
        r == spec_align_up(vstd::layout::size_of::<T>(), alignment as nat),
{
    let size = core::mem::size_of::<T>();
    align_up(size, alignment)
}

/// Calculates padding needed to reach alignment.
pub fn padding_needed(size: usize, alignment: usize) -> (r: usize)
    requires
        spec_is_power_of_two(alignment as nat),
        size + alignment - 1 <= usize::MAX,
    ensures
        r == spec_align_up(size as nat, alignment as nat) - size,
{
    let aligned = align_up(size, alignment);
    aligned - size
}

/// Computes linear growth.
pub fn compute_linear_growth(amount: usize) -> (r: usize)
    ensures
        r == amount,
{
    amount
}

/// Computes the number of slots the next chunk of a growing pool will
/// hold, as the growth strategy directs at the current capacity.
pub fn next_chunk_size(current_capacity: usize, growth_strategy: &GrowthStrategy) -> (r: usize)
    ensures
        r == spec_growth(*growth_strategy, current_capacity as int),
{
    growth_strategy.compute_growth(current_capacity)
}

/// Ensures a capacity value is within bounds.
pub fn clamp_capacity(value: usize, min: usize, max: Option<usize>) -> (r: usize)
    ensures
        r == (match max {
            Some(m) => if value < min {
                if min < m {
                    min
                } else {
                    m
                }
            } else if value < m {
                value
            } else {
                m
            },
            None => if value < min {
                min
            } else {
                value
            },
        }),
{
    let clamped: usize = if value < min {
        min
    } else {
        value
    };
    match max {
        Some(max_val) => if clamped < max_val {
            clamped
        } else {
            max_val
        },
        None => clamped,
    }
}

} // verus!
