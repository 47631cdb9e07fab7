use cuda_cpp::float_bits::F32Bits;

fn samples() -> Vec<f32> {
    let mut v = vec![
        0.0, -0.0, 1.0, -1.0, 0.2, 1.1, -0.1, 1e20, -1e20, 1e-45, -1e-45, f32::MIN_POSITIVE,
        f32::MAX, f32::MIN, f32::INFINITY, f32::NEG_INFINITY, f32::NAN, -f32::NAN, 0.999, 1.0000001,
    ];
    v.push(f32::from_bits(0x7FC0_0001));
    v.push(f32::from_bits(0xFF80_0001));
    v.push(f32::from_bits(0x0000_0001));
    v.push(f32::from_bits(0x8000_0001));
    v
}

#[test]
fn comparisons_agree_with_native_floats() {
    for &x in &samples() {
        let bx = F32Bits(x.to_bits());
        assert_eq!(bx.is_finite(), x.is_finite(), "{x}");
        assert_eq!(bx.is_nan(), x.is_nan(), "{x}");
        for &y in &samples() {
            let by = F32Bits(y.to_bits());
            assert_eq!(bx.float_eq(by), x == y, "{x} == {y}");
            assert_eq!(bx.float_lt(by), x < y, "{x} < {y}");
            assert_eq!(bx.float_le(by), x <= y, "{x} <= {y}");
        }
    }
}

#[test]
fn comparisons_agree_on_a_bit_sweep() {
    let mut state = 0x1234_5678_9abc_def0u64;
    let mut values = Vec::new();
    for _ in 0..400 {
        state ^= state << 13;
        state ^= state >> 7;
        state ^= state << 17;
        values.push((state >> 32) as u32);
    }
    for &a in &values {
        for &b in &values {
            let (x, y) = (f32::from_bits(a), f32::from_bits(b));
            assert_eq!(F32Bits(a).float_lt(F32Bits(b)), x < y);
            assert_eq!(F32Bits(a).float_eq(F32Bits(b)), x == y);
        }
    }
}
