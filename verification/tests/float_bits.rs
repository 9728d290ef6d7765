use wave_link_rpc::float_bits::{
    is_finite_double, is_unit_single, narrow, same_unit_value, widen,
};

fn patterns() -> Vec<u64> {
    let mut patterns = vec![
        0,
        1,
        0x000f_ffff_ffff_ffff,
        0x0010_0000_0000_0000,
        0x36a0_0000_0000_0000,
        0x3690_0000_0000_0000,
        0x3690_0000_0000_0001,
        0x380f_ffff_ffff_ffff,
        0x3810_0000_0000_0000,
        0x3ff0_0000_1000_0000,
        0x3ff0_0000_1000_0001,
        0x3ff0_0000_3000_0000,
        0x47ef_ffff_efff_ffff,
        0x47ef_ffff_f000_0000,
        0x47f0_0000_0000_0000,
        0x7fef_ffff_ffff_ffff,
    ];
    let mut state = 0x9e37_79b9_7f4a_7c15_u64;
    for _ in 0..20_000 {
        state ^= state << 13;
        state ^= state >> 7;
        state ^= state << 17;
        patterns.push(state & 0x7fff_ffff_ffff_ffff);
        // Doubles whose single neighbours are subnormal or near one.
        patterns.push(0x3680_0000_0000_0000 + (state % 0x01a0_0000_0000_0000));
        patterns.push(0x3fe0_0000_0000_0000 + (state % 0x0020_0000_0000_0000));
    }
    patterns
}

#[test]
fn narrowing_rounds_like_the_hardware() {
    for pattern in patterns() {
        for bits in [pattern, pattern | 0x8000_0000_0000_0000] {
            let value = f64::from_bits(bits);
            assert_eq!(is_finite_double(bits), value.is_finite());
            if value.is_finite() {
                assert_eq!(narrow(bits), (value as f32).to_bits(), "{bits:#x}");
            }
        }
    }
}

#[test]
fn widening_is_exact_and_narrows_back() {
    for pattern in patterns() {
        let bits = pattern as u32;
        let value = f32::from_bits(bits);
        if value.is_finite() {
            assert_eq!(widen(bits), f64::from(value).to_bits(), "{bits:#x}");
            assert_eq!(narrow(widen(bits)), bits);
        }
    }
    for bits in [0_u32, 1, 0x7f_ffff, 0x80_0000, 0x3f80_0000, 0x7f7f_ffff, 0x8000_0000] {
        assert_eq!(widen(bits), f64::from(f32::from_bits(bits)).to_bits());
    }
}

#[test]
fn unit_singles_are_compared_by_value() {
    assert!(is_unit_single(1.0_f32.to_bits()));
    assert!(!is_unit_single(1.000_000_1_f32.to_bits()));
    assert!(same_unit_value(0, 0x8000_0000));
    assert!(!same_unit_value(0, 1));
    assert!(same_unit_value(0.25_f32.to_bits(), 0.25_f32.to_bits()));
}
