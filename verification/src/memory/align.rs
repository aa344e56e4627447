//! Rounding of offsets to alignment boundaries.
use vstd::prelude::*;

verus! {

/// `a` is a power of two (the form every Vulkan alignment takes).
pub open spec fn is_power_of_two(a: u64) -> bool {
    a != 0 && a & ((a - 1) as u64) == 0
}

/// The largest multiple of `alignment` that is at most `offset`.
pub open spec fn round_down(offset: int, alignment: int) -> int {
    (offset / alignment) * alignment
}

/// The smallest multiple of `alignment` that is at least `offset`.
pub open spec fn round_up(offset: int, alignment: int) -> int {
    ((offset + alignment - 1) / alignment) * alignment
}

/// Rounding up stays within one alignment step and lands on a multiple.
pub proof fn lemma_round_up(x: int, a: int)
    requires
        x >= 0,
        a > 0,
    ensures
        x <= round_up(x, a) < x + a,
        round_up(x, a) % a == 0,
{
    let q = (x + a - 1) / a;
    let r = (x + a - 1) % a;
    assert(x + a - 1 == q * a + r && 0 <= r < a) by (nonlinear_arith)
        requires a > 0, q == (x + a - 1) / a, r == (x + a - 1) % a;
    assert((q * a) % a == 0) by (nonlinear_arith)
        requires a > 0;
}

/// Rounding up gives the least multiple at or above `x`: no multiple of `a` at or
/// above `x` lies below it.
pub proof fn lemma_round_up_least(x: int, a: int, q: int)
    requires
        x >= 0,
        a > 0,
        x <= q,
        q % a == 0,
    ensures
        round_up(x, a) <= q,
{
    let k = q / a;
    assert(q == k * a) by (nonlinear_arith)
        requires q % a == 0, a > 0, k == q / a;
    assert(x + a - 1 < (k + 1) * a) by (nonlinear_arith)
        requires x <= k * a, a > 0;
    assert((x + a - 1) / a <= k) by (nonlinear_arith)
        requires x + a - 1 < (k + 1) * a, a > 0, x >= 0;
    assert(((x + a - 1) / a) * a <= k * a) by (nonlinear_arith)
        requires (x + a - 1) / a <= k, a > 0;
}

/// Rounding down stays within one alignment step and lands on a non-negative multiple.
pub proof fn lemma_round_down(x: int, a: int)
    requires
        x >= 0,
        a > 0,
    ensures
        x - a < round_down(x, a) <= x,
        0 <= round_down(x, a),
        round_down(x, a) % a == 0,
{
    let q = x / a;
    let r = x % a;
    assert(x == q * a + r && 0 <= r < a && q >= 0) by (nonlinear_arith)
        requires a > 0, x >= 0, q == x / a, r == x % a;
    assert((q * a) % a == 0) by (nonlinear_arith)
        requires a > 0;
    assert(q * a >= 0) by (nonlinear_arith)
        requires a > 0, q >= 0;
}

/// Rounding down gives the greatest multiple at or below `x`: no multiple of `a` at or
/// below `x` lies above it.
pub proof fn lemma_round_down_greatest(x: int, a: int, q: int)
    requires
        0 <= q <= x,
        a > 0,
        q % a == 0,
    ensures
        q <= round_down(x, a),
{
    let k = q / a;
    assert(q == k * a) by (nonlinear_arith)
        requires q % a == 0, a > 0, k == q / a;
    assert(k <= x / a) by (nonlinear_arith)
        requires k * a <= x, a > 0, q == k * a, q >= 0;
    assert(k * a <= (x / a) * a) by (nonlinear_arith)
        requires k <= x / a, a > 0;
}

/// Every power of two that fits in a `u64` is at most 2^63.
pub proof fn lemma_power_of_two_bound(a: u64)
    requires
        is_power_of_two(a),
    ensures
        1 <= a <= 0x8000_0000_0000_0000u64,
{
    assert(a != 0 && a & ((a - 1) as u64) == 0 ==> a <= 0x8000_0000_0000_0000u64) by (bit_vector);
}

/// For a power of two `a`, the low bits of `x` below `a` are `x % a`.
pub proof fn lemma_low_bits_are_mod(x: u64, a: u64)
    requires
        is_power_of_two(a),
    ensures
        x & ((a - 1) as u64) == x % a,
    decreases a,
{
    if a == 1 {
        assert(x & 0u64 == 0) by (bit_vector);
    } else {
        let h = a / 2;
        assert(a != 0 && a & ((a - 1) as u64) == 0 && a != 1 ==> h == a >> 1u64 && (a >> 1u64) != 0
            && (a >> 1u64) & (((a >> 1u64) - 1) as u64) == 0 && a == 2 * (a >> 1u64)) by (bit_vector)
            requires h == a / 2;
        lemma_low_bits_are_mod(x / 2, h);
        assert(a != 0 && a & ((a - 1) as u64) == 0 && a != 1 && h == a / 2 ==>
            x & ((a - 1) as u64) == 2 * ((x / 2) & ((h - 1) as u64)) + x % 2) by (bit_vector);
        vstd::arithmetic::div_mod::lemma_mod_breakdown(x as int, 2, h as int);
    }
}

/// For a power of two `a`, masking off the low bits rounds down to a multiple of `a`.
pub proof fn lemma_mask_rounds_down(x: u64, a: u64)
    requires
        is_power_of_two(a),
    ensures
        x & !((a - 1) as u64) == x - x % a,
{
    lemma_low_bits_are_mod(x, a);
    let m = (a - 1) as u64;
    assert(x & !m == x - (x & m)) by (bit_vector);
}

/// Rounds `offset` up to the next multiple of `alignment`, computed with the
/// bit mask of the alignment (saturating at zero, wrapping the mask).
pub fn align_up(offset: u64, alignment: u64) -> (r: u64)
    requires
        offset + alignment <= u64::MAX,
    ensures
        r == ((if offset + alignment == 0 { 0 } else { (offset + alignment - 1) as u64 }) as u64)
            & !((if alignment == 0 { u64::MAX } else { (alignment - 1) as u64 }) as u64),
        is_power_of_two(alignment) ==> r == round_up(offset as int, alignment as int),
        is_power_of_two(alignment) ==> offset <= r && r < offset + alignment,
        is_power_of_two(alignment) ==> r % alignment == 0,
{
    let r = ((offset + alignment).saturating_sub(1)) & !(alignment.wrapping_sub(1));
    proof {
        if is_power_of_two(alignment) {
            let x = (offset + alignment - 1) as u64;
            lemma_mask_rounds_down(x, alignment);
            assert(r == x - x % alignment);
            assert(x == (x / alignment) * alignment + x % alignment) by (nonlinear_arith)
                requires alignment > 0;
            assert(0 <= x % alignment < alignment);
            assert(((x / alignment) * alignment) % (alignment as int) == 0) by (nonlinear_arith)
                requires alignment > 0;
        }
    }
    r
}

/// Rounds `offset` down to a multiple of `alignment` by masking its low bits.
pub fn align_down(offset: u64, alignment: u64) -> (r: u64)
    ensures
        r == offset & !((if alignment == 0 { u64::MAX } else { (alignment - 1) as u64 }) as u64),
        r <= offset,
        is_power_of_two(alignment) ==> r == round_down(offset as int, alignment as int),
        is_power_of_two(alignment) ==> r % alignment == 0 && offset < r + alignment,
{
    let r = offset & !(alignment.wrapping_sub(1));
    proof {
        let m = (if alignment == 0 { u64::MAX } else { (alignment - 1) as u64 }) as u64;
        assert(offset & !m <= offset) by (bit_vector);
        if is_power_of_two(alignment) {
            lemma_mask_rounds_down(offset, alignment);
            assert(offset == (offset / alignment) * alignment + offset % alignment) by (nonlinear_arith)
                requires alignment > 0;
            assert(((offset / alignment) * alignment) % (alignment as int) == 0) by (nonlinear_arith)
                requires alignment > 0;
        }
    }
    r
}

} // verus!
