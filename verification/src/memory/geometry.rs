//! How an address splits into tag, set index and byte offset.
//!
//! From the low bits up, an address holds the offset inside a line, then the
//! index of the set, then the tag:
//!
//! ```text
//!   [ tag (the remaining high bits) | set index | byte offset ]
//! ```
//!
//! Line size and set count are powers of two, so each field is a run of
//! bits. The fields are defined here by division and remainder, and
//! `lemma_fields_are_bit_fields` shows that this is the same as masking and
//! shifting.

use vstd::prelude::*;
use vstd::arithmetic::logarithm::{log, lemma_log_pow};
use vstd::arithmetic::power::pow;
use vstd::arithmetic::power2::{
    is_pow2, is_pow2_equiv, lemma2_to64, lemma2_to64_rest, lemma_pow2, lemma_pow2_adds,
    lemma_pow2_pos, lemma_pow2_strictly_increases, lemma_pow2_unfold, pow2,
};
use vstd::bits::{
    low_bits_mask, lemma_usize_low_bits_mask_is_mod, lemma_usize_shr_is_div,
};

verus! {

/// Two to the power of 63: the largest power of two that a size can be.
pub const TOP_POWER: u64 = 0x8000_0000_0000_0000;

/// Whether `n` is an exact power of two.
///
/// The powers of two up to `TOP_POWER` are the numbers that divide it.
pub open spec fn power_of_two(n: usize) -> bool {
    n > 0 && TOP_POWER as int % (n as int) == 0
}

/// The byte offset of `addr` inside its line of `line_bytes` bytes.
pub open spec fn offset_of(addr: usize, line_bytes: usize) -> usize {
    addr % line_bytes
}

/// The index of the set that `addr` maps to.
pub open spec fn set_of(addr: usize, line_bytes: usize, num_sets: usize) -> usize {
    (addr / line_bytes) % num_sets
}

/// The tag of `addr`: what is left above the set index.
pub open spec fn tag_of(addr: usize, line_bytes: usize, num_sets: usize) -> usize {
    addr / line_bytes / num_sets
}

/// Base-two logarithm of a size.
pub open spec fn log2(n: usize) -> nat {
    log(2, n as int) as nat
}

/// Whether `n` is an exact power of two.
pub fn is_power_of_two(n: usize) -> (yes: bool)
    ensures
        yes == power_of_two(n),
{
    proof {
        lemma_power_of_two(n);
    }
    let mut m = n;
    while m > 1 && m % 2 == 0
        invariant
            is_pow2(m as int) == is_pow2(n as int),
        decreases m,
    {
        proof {
            reveal_with_fuel(is_pow2, 2);
        }
        m = m / 2;
    }
    proof {
        reveal_with_fuel(is_pow2, 2);
    }
    m == 1
}

/// A number that divides a power of two is a power of two.
proof fn lemma_divisor_of_pow2(n: int, k: nat)
    requires
        n > 0,
        pow2(k) as int % n == 0,
    ensures
        is_pow2(n),
    decreases k,
{
    reveal_with_fuel(is_pow2, 2);
    if k == 0 {
        lemma2_to64();
        if n > 1 {
            assert(1int % n == 1) by (nonlinear_arith)
                requires
                    n > 1,
            ;
        }
    } else if n > 1 {
        let half = pow2((k - 1) as nat) as int;
        lemma_pow2_unfold(k);
        let q = (2 * half) / n;
        assert(2 * half == n * q) by (nonlinear_arith)
            requires
                n > 0,
                (2 * half) % n == 0,
                q == (2 * half) / n,
        ;
        if n % 2 == 0 {
            let m = n / 2;
            assert(half == m * q) by (nonlinear_arith)
                requires
                    2 * half == n * q,
                    n == 2 * m,
            ;
            assert(half % m == 0) by (nonlinear_arith)
                requires
                    half == m * q,
                    m > 0,
            ;
            lemma_divisor_of_pow2(m, (k - 1) as nat);
        } else {
            if q % 2 != 0 {
                let a = n / 2;
                let b = q / 2;
                assert(n * q == 2 * (2 * a * b + a + b) + 1) by (nonlinear_arith)
                    requires
                        n == 2 * a + 1,
                        q == 2 * b + 1,
                ;
            }
            let r = q / 2;
            assert(half == n * r) by (nonlinear_arith)
                requires
                    2 * half == n * q,
                    q == 2 * r,
            ;
            assert(half % n == 0) by (nonlinear_arith)
                requires
                    half == n * r,
                    n > 0,
            ;
            lemma_divisor_of_pow2(n, (k - 1) as nat);
        }
    }
}

/// `power_of_two` picks out the powers of two among the sizes.
pub proof fn lemma_power_of_two(n: usize)
    ensures
        power_of_two(n) <==> is_pow2(n as int),
{
    lemma2_to64_rest();
    if power_of_two(n) {
        lemma_divisor_of_pow2(n as int, 63);
    }
    if is_pow2(n as int) {
        lemma_is_pow2_log2(n);
        let k = log2(n);
        lemma_pow2_adds(k, (63 - k) as nat);
        let m = pow2((63 - k) as nat) as int;
        let top = TOP_POWER as int;
        assert(top % (n as int) == 0) by (nonlinear_arith)
            requires
                top == n * m,
                n > 0,
        ;
    }
}

/// A power of two is two to the power of its logarithm, and that
/// logarithm is below the width of `usize`.
pub proof fn lemma_pow2_log2(n: usize)
    requires
        power_of_two(n),
    ensures
        pow2(log2(n)) == n,
        log2(n) < usize::BITS,
{
    lemma_power_of_two(n);
    lemma_is_pow2_log2(n);
}

proof fn lemma_is_pow2_log2(n: usize)
    requires
        is_pow2(n as int),
    ensures
        pow2(log2(n)) == n,
        log2(n) < usize::BITS,
        n > 0,
{
    is_pow2_equiv(n as int);
    let k = choose|k: nat| pow(2, k) == n as int;
    lemma_pow2(k);
    lemma_log_pow(2, k);
    assert(log2(n) == k);
    if k >= usize::BITS {
        lemma2_to64();
        if k > usize::BITS {
            lemma_pow2_strictly_increases(usize::BITS as nat, k);
        }
    }
    lemma_pow2_pos(k);
}

/// Masking with a power of two less one keeps the remainder.
pub proof fn lemma_mask_is_mod(x: usize, n: usize)
    requires
        power_of_two(n),
    ensures
        x & ((n - 1) as usize) == x % n,
        x & ((n - 1) as usize) < n,
{
    lemma_pow2_log2(n);
    lemma_usize_low_bits_mask_is_mod(x, log2(n));
    assert(low_bits_mask(log2(n)) == n - 1);
}

/// Dividing by a power of two shifts right by its logarithm.
pub proof fn lemma_div_is_shr(x: usize, n: usize)
    requires
        power_of_two(n),
    ensures
        x / n == x >> (log2(n) as usize),
{
    lemma_pow2_log2(n);
    lemma_usize_shr_is_div(x, log2(n) as usize);
}

/// The three fields of an address lose nothing: put back in their places
/// they give the address again, and offset and set index stay in range.
/// This holds of any line size and set count but zero.
pub proof fn lemma_decomposition_round_trip(addr: usize, line_bytes: usize, num_sets: usize)
    requires
        line_bytes > 0,
        num_sets > 0,
    ensures
        tag_of(addr, line_bytes, num_sets) * num_sets * line_bytes + set_of(
            addr,
            line_bytes,
            num_sets,
        ) * line_bytes + offset_of(addr, line_bytes) == addr,
        offset_of(addr, line_bytes) < line_bytes,
        set_of(addr, line_bytes, num_sets) < num_sets,
{
    let line = addr / line_bytes;
    assert(addr == line_bytes * line + addr % line_bytes) by (nonlinear_arith)
        requires
            line == addr / line_bytes,
            line_bytes > 0,
    ;
    assert(line == num_sets * (line / num_sets) + line % num_sets) by (nonlinear_arith)
        requires
            num_sets > 0,
    ;
    assert((line / num_sets) * num_sets * line_bytes + (line % num_sets) * line_bytes
        == line_bytes * line) by (nonlinear_arith)
        requires
            line == num_sets * (line / num_sets) + line % num_sets,
    ;
}

/// The fields are runs of bits: the offset is the address under the mask
/// `line_bytes - 1`, the set index is the address shifted right by
/// `log2(line_bytes)` under the mask `num_sets - 1`, and the tag is the
/// address shifted right by both logarithms, as long as that shift is
/// narrower than an address.
pub proof fn lemma_fields_are_bit_fields(addr: usize, line_bytes: usize, num_sets: usize)
    requires
        power_of_two(line_bytes),
        power_of_two(num_sets),
    ensures
        offset_of(addr, line_bytes) == addr & ((line_bytes - 1) as usize),
        set_of(addr, line_bytes, num_sets) == (addr >> (log2(line_bytes) as usize)) & ((num_sets
            - 1) as usize),
        log2(line_bytes) + log2(num_sets) < usize::BITS ==> tag_of(addr, line_bytes, num_sets)
            == addr >> ((log2(line_bytes) + log2(num_sets)) as usize),
{
    lemma_pow2_log2(line_bytes);
    lemma_pow2_log2(num_sets);
    lemma_mask_is_mod(addr, line_bytes);
    lemma_div_is_shr(addr, line_bytes);
    lemma_mask_is_mod(addr / line_bytes, num_sets);
    let kb = log2(line_bytes);
    let ks = log2(num_sets);
    if kb + ks < usize::BITS {
        lemma_usize_shr_is_div(addr, (kb + ks) as usize);
        lemma_pow2_adds(kb, ks);
        assert(addr / line_bytes / num_sets == (addr as int) / (line_bytes * num_sets)) by (nonlinear_arith)
            requires
                line_bytes > 0,
                num_sets > 0,
        ;
    }
}

} // verus!
