use wave_link_rpc::{
    ChannelId, Duration, Error, ErrorKind, Fade, FadeCurve, FadeInput, FadeOptions, FadeTarget,
    FadeTask, Fades, MixId, Operation, Volume,
};

fn volume(value: f32) -> Volume {
    Volume::new(value.to_bits()).expect("volume")
}

fn options(duration: Duration) -> FadeOptions {
    FadeOptions { duration, curve: FadeCurve::Linear }
}

fn channel(id: &str) -> FadeTarget {
    FadeTarget::Channel(ChannelId::new(id))
}

#[test]
fn fade_defaults_match_stream_deck_behavior() {
    let options = FadeOptions::default();
    assert!(options.duration.is_zero());
    assert_eq!(options.curve, FadeCurve::Perceptual);
    assert_eq!(FadeCurve::default(), FadeCurve::Perceptual);
}

#[test]
fn fades_longer_than_five_seconds_are_rejected() {
    let limit = Duration::from_secs(5);
    assert!(Fade::new(channel("c"), volume(0.0), volume(1.0), options(limit)).is_ok());
    let over = Duration::from_nanos(limit.as_nanos() + 1);
    let error = Fade::new(channel("c"), volume(0.0), volume(1.0), options(over)).unwrap_err();
    assert_eq!(error.kind(), ErrorKind::InvalidValue);
    assert_eq!(error.context(), "fade duration must be between 0 and 5000 ms");
}

fn written(fade: &Fade) -> Operation {
    match fade.task() {
        FadeTask::Update(operation) | FadeTask::Finish(operation) => operation,
        other => panic!("{other:?}"),
    }
}

fn waits_until(fade: &Fade) -> Duration {
    match fade.task() {
        FadeTask::Wait(until) => until,
        other => panic!("{other:?}"),
    }
}

fn woke(millis: u64) -> FadeInput {
    FadeInput::Woke(Duration::from_millis(millis))
}

fn error() -> Error {
    Error::new(ErrorKind::Timeout, "setChannel timed out")
}

#[test]
fn a_fade_of_no_length_writes_the_target_at_once() {
    let fade = Fade::new(
        channel("c"),
        volume(0.0),
        volume(0.3),
        options(Duration::from_millis(0)),
    )
    .expect("fade");
    assert!(matches!(fade.task(), FadeTask::Finish(_)));
    assert_eq!(
        written(&fade),
        Operation::SetChannelVolume { channel: ChannelId::new("c"), volume: volume(0.3) }
    );
    let fade = fade.step(FadeInput::Wrote(Ok(())));
    assert!(matches!(fade.task(), FadeTask::Done(Ok(()))));
}

fn mix_fade() -> Fade {
    Fade::new(
        FadeTarget::ChannelMix(ChannelId::new("c"), MixId::new("m")),
        volume(0.0),
        volume(0.3),
        options(Duration::from_millis(100)),
    )
    .expect("fade")
}

#[test]
fn a_fade_updates_at_its_pace_and_ends_exactly() {
    let fade = mix_fade();
    assert_eq!(waits_until(&fade), Duration::from_millis(34));
    let fade = fade.step(woke(33));
    assert_eq!(waits_until(&fade), Duration::from_millis(34));
    let fade = fade.step(woke(40));
    match fade.task() {
        FadeTask::Level { elapsed, start, end, options } => {
            assert_eq!(elapsed, Duration::from_millis(40));
            assert_eq!(start, volume(0.0));
            assert_eq!(end, volume(0.3));
            assert_eq!(options.duration, Duration::from_millis(100));
            assert_eq!(options.curve, FadeCurve::Linear);
        }
        other => panic!("{other:?}"),
    }
    let fade = fade.step(FadeInput::Level(0.12_f32.to_bits()));
    let write = |level| Operation::SetChannelMixVolume {
        channel: ChannelId::new("c"),
        mix: MixId::new("m"),
        volume: volume(level),
    };
    assert!(matches!(fade.task(), FadeTask::Update(_)));
    assert_eq!(written(&fade), write(0.12));
    let fade = fade.step(FadeInput::Wrote(Ok(())));
    assert_eq!(waits_until(&fade), Duration::from_millis(74));
    let fade = fade.step(woke(74)).step(FadeInput::Level(0.2_f32.to_bits()));
    let fade = fade.step(FadeInput::Wrote(Ok(())));
    assert_eq!(waits_until(&fade), Duration::from_millis(108));
    let fade = fade.step(woke(108));
    assert!(matches!(fade.task(), FadeTask::Finish(_)));
    assert_eq!(written(&fade), write(0.3));
    let fade = fade.step(FadeInput::Wrote(Ok(())));
    assert!(matches!(fade.task(), FadeTask::Done(Ok(()))));
}

#[test]
fn the_first_failed_write_ends_a_fade() {
    let update = mix_fade().step(woke(40)).step(FadeInput::Level(0.1_f32.to_bits()));
    let last = mix_fade().step(woke(200));
    for fade in [update, last] {
        let fade = fade.step(FadeInput::Wrote(Err(error())));
        let fade = fade.step(woke(300)).step(FadeInput::Wrote(Ok(())));
        match fade.task() {
            FadeTask::Done(outcome) => assert_eq!(outcome.unwrap_err(), error()),
            other => panic!("{other:?}"),
        }
    }
    let invalid = mix_fade().step(woke(40)).step(FadeInput::Level(1.5_f32.to_bits()));
    match invalid.task() {
        FadeTask::Done(outcome) => {
            assert_eq!(outcome.unwrap_err().kind(), ErrorKind::InvalidValue);
        }
        other => panic!("{other:?}"),
    }
}

#[test]
fn a_fade_stays_below_thirty_updates_for_each_second() {
    let mut fade = Fade::new(
        channel("c"),
        volume(0.0),
        volume(1.0),
        options(Duration::from_secs(5)),
    )
    .expect("fade");
    let mut updates = 0_u64;
    for millis in 1..5000_u64 {
        fade = fade.step(woke(millis));
        if let FadeTask::Level { .. } = fade.task() {
            updates += 1;
            assert!(updates * 1000 < 30 * millis);
            assert!(millis >= updates * 34);
            fade = fade.step(FadeInput::Level(0.5_f32.to_bits()));
            fade = fade.step(FadeInput::Wrote(Ok(())));
        }
    }
    assert_eq!(updates, 147);
}

#[test]
fn a_new_fade_replaces_the_one_of_the_same_target_only() {
    let start = |fades: Fades, target: &FadeTarget| {
        let (fades, ticket) = fades.start(target);
        (fades, ticket.expect("ticket"))
    };
    let (fades, first) = start(Fades::new(), &channel("a"));
    let (fades, other) = start(fades, &channel("b"));
    let mix = FadeTarget::ChannelMix(ChannelId::new("a"), MixId::new("m"));
    let (fades, scoped) = start(fades, &mix);
    let (fades, second) = start(fades, &channel("a"));
    assert!(!fades.is_running(&channel("a"), first));
    assert!(fades.is_running(&channel("a"), second));
    assert!(fades.is_running(&channel("b"), other));
    assert!(fades.is_running(&mix, scoped));

    let fades = fades.finish(&channel("a"), first);
    assert!(fades.is_running(&channel("a"), second));
    let fades = fades.finish(&channel("a"), second);
    assert!(!fades.is_running(&channel("a"), second));

    let (fades, cancelled) = fades.cancel(&channel("b"));
    assert!(cancelled);
    let (fades, cancelled) = fades.cancel(&channel("b"));
    assert!(!cancelled);
    assert!(fades.is_running(&mix, scoped));
    assert!(!fades.cancel_all().is_running(&mix, scoped));
}
