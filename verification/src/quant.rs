//! The integer half of the model's quantization.
//!
//! A model input `x` is quantized as `round(x * mult / 2^shift) + zp`, clamped
//! to a signed byte; an output byte `q` stands for `(q - zp) * mult / 2^shift`.
//! The scaling by a real factor is the caller's; the divisor, the zero point
//! and the clamp are here.

use vstd::arithmetic::power2::pow2;
use vstd::prelude::*;

verus! {

/// `x` limited to the range of a signed byte.
pub open spec fn clamped(x: int) -> int {
    if x < -128 {
        -128
    } else if x > 127 {
        127
    } else {
        x
    }
}

/// Quantizes a value that is already scaled to input steps and made an integer.
/// Whatever leaves the range of a signed byte, however far, becomes its nearest
/// end.
pub fn quantize(scaled: i32, zp: i32) -> (q: i8)
    ensures
        q == clamped(scaled + zp),
{
    let shifted: i64 = scaled as i64 + zp as i64;
    if shifted < -128 {
        -128
    } else if shifted > 127 {
        127
    } else {
        shifted as i8
    }
}

/// The distance of an output byte from the output's zero point, in output
/// steps.
pub fn dequantize(q: i8, zp: i32) -> (steps: i32)
    requires
        i32::MIN <= q - zp <= i32::MAX,
    ensures
        steps == q - zp,
{
    q as i32 - zp
}

/// The divisor `2^shift` of a scale factor.
pub fn scale_divisor(shift: u32) -> (divisor: u32)
    requires
        shift < 32,
    ensures
        divisor == pow2(shift as nat),
{
    proof {
        vstd::bits::lemma_u32_pow2_no_overflow(shift as nat);
        vstd::bits::lemma_u32_shl_is_mul(1, shift);
    }
    1u32 << shift
}

/// Quantizing never reverses the order of two values.
pub proof fn law_quantize_keeps_order(a: int, b: int, zp: int)
    requires
        a <= b,
    ensures
        clamped(a + zp) <= clamped(b + zp),
{
}

/// With one zero point for both ways, dequantizing gives a value back unless it
/// was clamped, and a clamped value comes back as the nearest end of the range.
pub proof fn law_dequantize_undoes_quantize(scaled: int, zp: int)
    ensures
        -128 <= scaled + zp <= 127 ==> clamped(scaled + zp) - zp == scaled,
        scaled + zp < -128 ==> clamped(scaled + zp) - zp == -128 - zp,
        scaled + zp > 127 ==> clamped(scaled + zp) - zp == 127 - zp,
{
}

/// Quantizing picks the nearest signed byte: no byte is nearer to the shifted value,
/// and a value that is a byte's becomes that byte.
pub proof fn law_quantize_picks_the_nearest_byte(x: int, other: i8)
    ensures
        -128 <= clamped(x) <= 127,
        -128 <= x <= 127 ==> clamped(x) == x,
        x <= -128 ==> clamped(x) == -128,
        x >= 127 ==> clamped(x) == 127,
        (if clamped(x) < x {
            x - clamped(x)
        } else {
            clamped(x) - x
        }) <= (if other < x {
            x - other
        } else {
            other - x
        }),
{
}

} // verus!
