use nrf54_audio::quant::{dequantize, quantize, scale_divisor};

#[test]
fn quantizing_shifts_and_clamps() {
    assert_eq!(quantize(0, 49), 49);
    assert_eq!(quantize(78, 49), 127);
    assert_eq!(quantize(79, 49), 127);
    assert_eq!(quantize(-177, 49), -128);
    assert_eq!(quantize(-178, 49), -128);
    assert_eq!(quantize(-50, 49), -1);
    assert_eq!(quantize(i32::MAX, 0), 127);
    assert_eq!(quantize(i32::MIN, 49), -128);
    assert_eq!(quantize(i32::MAX, -1_000_000), 127);
}

#[test]
fn quantizing_saturates_beyond_32_bits() {
    assert_eq!(quantize(1.0e10f32 as i32, 49), 127);
    assert_eq!(quantize(-1.0e10f32 as i32, -49), -128);
    assert_eq!(quantize(i32::MAX, 49), 127);
    assert_eq!(quantize(i32::MIN, -1), -128);
    assert_eq!(quantize(i32::MAX, i32::MAX), 127);
    assert_eq!(quantize(i32::MIN, i32::MIN), -128);
    assert_eq!(quantize(i32::MIN, i32::MAX), -1);
}

#[test]
fn dequantizing_undoes_quantizing() {
    for zp in [-128, -3, 0, 49, 127] {
        for scaled in -300..300 {
            let back = dequantize(quantize(scaled, zp), zp);
            if (-128..=127).contains(&(scaled + zp)) {
                assert_eq!(back, scaled);
            } else if scaled + zp < -128 {
                assert_eq!(back, -128 - zp);
            } else {
                assert_eq!(back, 127 - zp);
            }
        }
    }
    assert_eq!(dequantize(-128, 127), -255);
}

#[test]
fn quantizing_keeps_order() {
    for a in -200..199 {
        assert!(quantize(a, 5) <= quantize(a + 1, 5));
    }
}

#[test]
fn scale_divisors() {
    assert_eq!(scale_divisor(0), 1);
    assert_eq!(scale_divisor(1), 2);
    assert_eq!(scale_divisor(16), 65_536);
    assert_eq!(scale_divisor(31), 0x8000_0000);
}
