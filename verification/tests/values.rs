use wave_link_rpc::{ErrorKind, Gain, MixBalance, Volume};

#[test]
fn normalized_values_reject_invalid_numbers() {
    for value in [-1.0_f32, 1.1, f32::NAN, f32::INFINITY] {
        assert!(Volume::new(value.to_bits()).is_err());
        assert!(Gain::new(value.to_bits()).is_err());
        assert!(MixBalance::new(value.to_bits()).is_err());
    }
}

#[test]
fn normalized_values_accept_endpoints() {
    assert!(
        f32::from_bits(Volume::new(0.0_f32.to_bits()).expect("minimum").get()).abs()
            < f32::EPSILON
    );
    assert!(
        (f32::from_bits(Volume::new(1.0_f32.to_bits()).expect("maximum").get()) - 1.0).abs()
            < f32::EPSILON
    );
}

#[test]
fn invalid_values_name_what_they_are() {
    let error = Volume::new(2.0_f32.to_bits()).unwrap_err();
    assert_eq!(error.kind(), ErrorKind::InvalidValue);
    assert_eq!(error.context(), "volume must be finite and between 0.0 and 1.0");
    assert_eq!(
        error.to_string(),
        "invalid value: volume must be finite and between 0.0 and 1.0"
    );
    assert_eq!(
        Gain::new(f32::NEG_INFINITY.to_bits()).unwrap_err().context(),
        "gain must be finite and between 0.0 and 1.0"
    );
    assert_eq!(
        MixBalance::new((-f32::MIN_POSITIVE).to_bits()).unwrap_err().context(),
        "mix balance must be finite and between 0.0 and 1.0"
    );
}

#[test]
fn negative_zero_is_the_minimum() {
    let zero = Volume::new(0.0_f32.to_bits()).expect("zero");
    let negative = Volume::new((-0.0_f32).to_bits()).expect("negative zero");
    assert_eq!(zero, negative);
    assert_ne!(zero.get(), negative.get());
    assert_ne!(zero, Volume::new(1).expect("smallest"));
}

#[test]
fn every_pattern_near_the_bounds_is_judged_like_the_hardware_does() {
    for edge in [0_u32, 0x3f80_0000, 0x7f80_0000, 0x8000_0000, 0xff80_0000] {
        for offset in 0..64_u32 {
            for bits in [edge.wrapping_add(offset), edge.wrapping_sub(offset)] {
                let value = f32::from_bits(bits);
                let valid = value.is_finite() && (0.0..=1.0).contains(&value);
                assert_eq!(Volume::new(bits).is_ok(), valid, "{bits:#x}");
            }
        }
    }
}
