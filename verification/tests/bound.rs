use wave_link_rpc::bound::{bound, same_level, shows_level, step, STEP, TOLERANCE};
use wave_link_rpc::JsonNumber;

/// The step as the hardware computes it.
fn expected(level: f32) -> Option<u32> {
    let target = if level >= 0.02 {
        level - 0.02
    } else {
        (level + 0.02).min(1.0)
    };
    (target.is_finite() && (0.0..=1.0).contains(&target)).then_some(target.to_bits())
}

fn samples() -> Vec<u32> {
    let mut samples = Vec::new();
    for edge in [
        0_u32,
        0x3080_0000,
        0x3a83_126f,
        0x3c23_d70a,
        0x3ca3_d70a,
        0x3d23_d70a,
        0x3f7a_e148,
        0x3f80_0000,
        0x3f82_8f5c,
        0x4000_0000,
        0x7f80_0000,
    ] {
        for offset in 0..40 {
            samples.push(edge.saturating_sub(offset));
            if edge + offset <= 0x7f80_0000 {
                samples.push(edge + offset);
            }
        }
    }
    let mut state = 12345_u32;
    for _ in 0..200_000 {
        state = state.wrapping_mul(1_664_525).wrapping_add(1_013_904_223);
        samples.push(state % 0x4010_0000);
    }
    samples
}

#[test]
fn steps_agree_with_the_hardware() {
    assert_eq!(STEP, 0.02_f32.to_bits());
    for bits in samples() {
        for bits in [bits, bits | 0x8000_0000] {
            assert_eq!(step(bits), expected(f32::from_bits(bits)), "{bits:#x}");
        }
    }
}

#[test]
fn tolerance_agrees_with_the_hardware() {
    assert_eq!(TOLERANCE, 0.001_f32.to_bits());
    let judge = |actual: u32, volume: u32| {
        let apart = (f32::from_bits(actual) - f32::from_bits(volume)).abs() > 0.001;
        assert_eq!(same_level(actual, volume), !apart, "{actual:#x} {volume:#x}");
    };
    let volumes = [0.0_f32, -0.0, 1e-40, 1e-9, 0.0005, 0.001, 0.02, 0.3, 0.75, 1.0];
    for volume in volumes.map(f32::to_bits) {
        for sample in samples() {
            judge(sample, volume);
            judge(sample | 0x8000_0000, volume);
        }
        let value = f32::from_bits(volume);
        for near in [value + 0.001, value - 0.001] {
            let bits = near.to_bits();
            for offset in 0..200 {
                judge(bits.wrapping_add(offset), volume);
                judge(bits.wrapping_sub(offset) % 0x7f80_0000, volume);
            }
        }
    }
}

#[test]
fn numbers_are_bounded_after_rounding() {
    let double = |value: f64| JsonNumber::double(value.to_bits()).expect("finite");
    let (level, target) = bound(&double(0.1)).expect("bound");
    assert_eq!(level, 0.1_f32.to_bits());
    assert_eq!(target.get(), (0.1_f32 - 0.02).to_bits());
    let (level, target) = bound(&JsonNumber::unsigned(0)).expect("bound");
    assert_eq!((level, target.get()), (0, 0.02_f32.to_bits()));
    let (level, target) = bound(&JsonNumber::unsigned(1)).expect("bound");
    assert_eq!(level, 1.0_f32.to_bits());
    assert_eq!(target.get(), (1.0_f32 - 0.02).to_bits());
    assert!(bound(&JsonNumber::unsigned(2)).is_none());
    assert!(bound(&JsonNumber::signed(-1)).is_none());
    assert!(shows_level(&double(0.7509), 0.75_f32.to_bits()));
    assert!(!shows_level(&double(0.752), 0.75_f32.to_bits()));
    assert!(shows_level(&JsonNumber::unsigned(1), 1.0_f32.to_bits()));
    assert!(!shows_level(&JsonNumber::unsigned(2), 1.0_f32.to_bits()));
    assert!(!shows_level(&JsonNumber::signed(-1), 0));
}
