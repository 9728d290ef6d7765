use wave_link_rpc::json::NumberKind;
use wave_link_rpc::live::{
    live_levels, live_mode, live_run, live_targets, restored_level, LiveInput, LiveMode, LiveRun,
    LiveTask,
};
use wave_link_rpc::{
    decode_list, parse_json, ApplicationInfo, ChannelId, Decode, Duration, Error, ErrorKind,
    FadeCurve, MixId, MixerSnapshot, Operation, Volume,
};

fn snapshot(channels: &str, mixes: &str) -> MixerSnapshot {
    let application = parse_json(r#"{"interfaceRevision":2}"#).expect("JSON");
    MixerSnapshot {
        application: ApplicationInfo::decode(&application).expect("application"),
        channels: decode_list(&parse_json(channels).expect("JSON")).expect("channels"),
        mixes: decode_list(&parse_json(mixes).expect("JSON")).expect("mixes"),
        input_devices: Vec::new(),
        output_devices: Vec::new(),
    }
}

fn volume(value: f32) -> Volume {
    Volume::new(value.to_bits()).expect("volume")
}

#[test]
fn the_mode_is_read_unless_asked_otherwise() {
    assert_eq!(live_mode(None).expect("mode"), LiveMode::Read);
    assert_eq!(live_mode(Some("read")).expect("mode"), LiveMode::Read);
    assert_eq!(live_mode(Some("bounded-write")).expect("mode"), LiveMode::BoundedWrite);
    let error = live_mode(Some("write")).unwrap_err();
    assert_eq!(error.kind(), ErrorKind::CapabilityUnavailable);
    assert_eq!(error.context(), "mode must be read or bounded-write");
}

#[test]
fn targets_capture_the_first_channel_and_mix() {
    let targets = live_targets(&snapshot(
        r#"[{"id":"c","level":0.5,"isMuted":true},{"id":"d"}]"#,
        r#"[{"id":"m","level":1,"isMuted":false}]"#,
    ))
    .expect("targets");
    assert_eq!(targets.channel, ChannelId::new("c"));
    assert_eq!(targets.channel_level.kind(), NumberKind::Double(0.5_f64.to_bits()));
    assert!(targets.channel_muted);
    assert_eq!(targets.mix, MixId::new("m"));
    assert_eq!(targets.mix_level.kind(), NumberKind::Unsigned(1));
    assert!(!targets.mix_muted);
}

#[test]
fn targets_need_complete_state() {
    let whole = r#"[{"id":"x","level":0.5,"isMuted":true}]"#;
    for (channels, mixes, context) in [
        ("[]", whole, "bounded write validation requires one channel"),
        (whole, "[]", "bounded write validation requires one mix"),
        (r#"[{"id":"x","isMuted":true}]"#, whole, "live target omitted numeric level"),
        (r#"[{"id":"x","level":0.5}]"#, whole, "live target omitted boolean isMuted"),
        (whole, r#"[{"id":"x","level":"a"}]"#, "live target omitted numeric level"),
        (whole, r#"[{"id":"x","level":0.5,"isMuted":1}]"#, "live target omitted boolean isMuted"),
    ] {
        let error = live_targets(&snapshot(channels, mixes)).unwrap_err();
        assert_eq!(error.kind(), ErrorKind::CapabilityUnavailable);
        assert_eq!(error.context(), context);
    }
}

fn run(mix_level: &str) -> LiveRun {
    let mixes = format!(r#"[{{"id":"m","level":{mix_level},"isMuted":false}}]"#);
    let channels = r#"[{"id":"c","level":0.5,"isMuted":true}]"#;
    LiveRun::new(live_targets(&snapshot(channels, &mixes)).expect("targets")).expect("run")
}

fn applied(run: &LiveRun) -> Operation {
    match run.task() {
        LiveTask::Apply(operation) => operation,
        other => panic!("{other:?}"),
    }
}

fn failure(run: &LiveRun) -> Error {
    match run.task() {
        LiveTask::Done(outcome) => outcome.unwrap_err(),
        other => panic!("{other:?}"),
    }
}

fn restored(level: &str) -> LiveInput {
    LiveInput::Snapshot(Ok(snapshot(&format!(r#"[{{"id":"c","level":{level}}}]"#), "[]")))
}

/// Runs the four changes and the fade, up to the last snapshot.
fn run_to_verification() -> LiveRun {
    let mut run = run("0.01");
    for _ in 0..4 {
        run = run.step(LiveInput::Applied(Ok(())));
        run = run.step(LiveInput::Applied(Ok(())));
        run = run.step(restored("0.5"));
    }
    run = run.step(LiveInput::Applied(Ok(())));
    run.step(LiveInput::Applied(Ok(())))
}

#[test]
fn every_change_is_restored_to_what_was_captured() {
    let channel = || ChannelId::new("c");
    let mix = || MixId::new("m");
    let mut run = run("0.01");
    for (change, restoration) in [
        (
            Operation::SetChannelVolume { channel: channel(), volume: volume(0.5 - 0.02) },
            Operation::SetChannelVolume { channel: channel(), volume: volume(0.5) },
        ),
        (
            Operation::SetChannelMute { channel: channel(), muted: false },
            Operation::SetChannelMute { channel: channel(), muted: true },
        ),
        (
            Operation::SetMixVolume { mix: mix(), volume: volume(0.01 + 0.02) },
            Operation::SetMixVolume { mix: mix(), volume: volume(0.01) },
        ),
        (
            Operation::SetMixMute { mix: mix(), muted: true },
            Operation::SetMixMute { mix: mix(), muted: false },
        ),
    ] {
        assert_eq!(applied(&run), change);
        run = run.step(LiveInput::Applied(Ok(())));
        assert_eq!(applied(&run), restoration);
        run = run.step(LiveInput::Applied(Ok(())));
        assert!(matches!(run.task(), LiveTask::ReadSnapshot));
        run = run.step(restored("0.5"));
    }
    match run.task() {
        LiveTask::Fade { channel: faded, start, end, options } => {
            assert_eq!(faded, channel());
            assert_eq!(start, volume(0.5));
            assert_eq!(end, volume(0.5 - 0.02));
            assert_eq!(options.duration, Duration::from_millis(250));
            assert_eq!(options.curve, FadeCurve::Perceptual);
        }
        other => panic!("{other:?}"),
    }
    run = run.step(LiveInput::Applied(Ok(())));
    assert_eq!(
        applied(&run),
        Operation::SetChannelVolume { channel: channel(), volume: volume(0.5) }
    );
    run = run.step(LiveInput::Applied(Ok(())));
    assert!(matches!(run.task(), LiveTask::ReadSnapshot));
    run = run.step(restored("0.5005"));
    assert!(matches!(run.task(), LiveTask::Done(Ok(()))));
}

#[test]
fn a_failed_change_is_undone_before_the_validation_fails() {
    let failed = || Err(Error::new(ErrorKind::Timeout, "a"));
    let other = || Err(Error::new(ErrorKind::Transport, "b"));
    let after = |change, undo| {
        run("0.01")
            .step(LiveInput::Applied(change))
            .step(LiveInput::Applied(undo))
    };
    assert!(matches!(
        run("0.01").step(LiveInput::Applied(failed())).task(),
        LiveTask::Apply(Operation::SetChannelVolume { .. })
    ));
    assert_eq!(failure(&after(failed(), other())).kind(), ErrorKind::Timeout);
    assert_eq!(failure(&after(failed(), Ok(()))).kind(), ErrorKind::Timeout);
    assert_eq!(failure(&after(Ok(()), other())).kind(), ErrorKind::Transport);
    let unread = after(Ok(()), Ok(())).step(LiveInput::Snapshot(Err(Error::new(
        ErrorKind::Protocol,
        "c",
    ))));
    assert_eq!(failure(&unread).context(), "c");
    let over = unread.step(LiveInput::Applied(Ok(())));
    assert_eq!(failure(&over).context(), "c");
}

#[test]
fn a_failed_fade_is_undone_before_the_validation_fails() {
    let mut fading = run("0.01");
    for _ in 0..4 {
        fading = fading.step(LiveInput::Applied(Ok(())));
        fading = fading.step(LiveInput::Applied(Ok(())));
        fading = fading.step(restored("0.5"));
    }
    assert!(matches!(fading.task(), LiveTask::Fade { .. }));
    let returning = fading.step(LiveInput::Applied(Err(Error::new(ErrorKind::Protocol, "f"))));
    assert_eq!(
        applied(&returning),
        Operation::SetChannelVolume { channel: ChannelId::new("c"), volume: volume(0.5) }
    );
    let over = returning.step(LiveInput::Applied(Err(Error::new(ErrorKind::Timeout, "u"))));
    assert_eq!(failure(&over).kind(), ErrorKind::Protocol);
    assert_eq!(failure(&over).context(), "f");
}

#[test]
fn levels_without_a_bounded_step_are_rejected() {
    for level in ["2", "-1", "1.05", "-0.03", "1e300", "-1e300"] {
        let channels = format!(r#"[{{"id":"c","level":{level},"isMuted":true}}]"#);
        let mixes = r#"[{"id":"m","level":0,"isMuted":false}]"#;
        let targets = live_targets(&snapshot(&channels, mixes)).expect("targets");
        assert_eq!(
            live_levels(&targets).unwrap_err().kind(),
            ErrorKind::InvalidValue,
            "{level}"
        );
        assert!(LiveRun::new(targets).is_err());
    }
}

#[test]
fn a_level_that_could_not_be_restored_is_not_changed() {
    let mut run = run("1.01");
    for _ in 0..2 {
        run = run.step(LiveInput::Applied(Ok(())));
        run = run.step(LiveInput::Applied(Ok(())));
        run = run.step(restored("0.5"));
    }
    let error = failure(&run);
    assert_eq!(error.kind(), ErrorKind::InvalidValue);
    assert_eq!(error.context(), "volume must be finite and between 0.0 and 1.0");
}

#[test]
fn the_restored_channel_is_verified() {
    let run = run_to_verification().step(restored("0.4"));
    assert_eq!(failure(&run).kind(), ErrorKind::Protocol);
    assert_eq!(
        failure(&run).context(),
        "channel level restoration did not round trip"
    );
    let run = run_to_verification().step(LiveInput::Snapshot(Ok(snapshot("[]", "[]"))));
    assert_eq!(failure(&run).context(), "restored channel disappeared from snapshot");
    let run = run_to_verification().step(LiveInput::Snapshot(Err(Error::new(
        ErrorKind::Timeout,
        "t",
    ))));
    assert_eq!(failure(&run).kind(), ErrorKind::Timeout);
}

#[test]
fn the_restored_level_is_looked_up() {
    let snapshot = snapshot(r#"[{"id":"a"},{"id":"c","level":0.5}]"#, "[]");
    let level = restored_level(&snapshot, &ChannelId::new("c")).expect("level");
    assert_eq!(level.kind(), NumberKind::Double(0.5_f64.to_bits()));
    assert_eq!(
        restored_level(&snapshot, &ChannelId::new("z")).unwrap_err().kind(),
        ErrorKind::Protocol
    );
    assert_eq!(
        restored_level(&snapshot, &ChannelId::new("a")).unwrap_err().kind(),
        ErrorKind::CapabilityUnavailable
    );
}

#[test]
fn only_the_bounded_write_mode_writes() {
    let whole = snapshot(
        r#"[{"id":"c","level":0.5,"isMuted":true}]"#,
        r#"[{"id":"m","level":0.01,"isMuted":false}]"#,
    );
    let empty = snapshot("[]", "[]");
    assert!(live_run(LiveMode::Read, &whole).expect("mode").is_none());
    assert!(live_run(LiveMode::Read, &empty).expect("mode").is_none());
    let run = live_run(LiveMode::BoundedWrite, &whole).expect("mode").expect("run");
    assert_eq!(
        applied(&run),
        Operation::SetChannelVolume { channel: ChannelId::new("c"), volume: volume(0.5 - 0.02) }
    );
    assert_eq!(
        live_run(LiveMode::BoundedWrite, &empty).unwrap_err().kind(),
        ErrorKind::CapabilityUnavailable
    );
    let loud = snapshot(
        r#"[{"id":"c","level":3,"isMuted":true}]"#,
        r#"[{"id":"m","level":0.01,"isMuted":false}]"#,
    );
    assert_eq!(
        live_run(LiveMode::BoundedWrite, &loud).unwrap_err().kind(),
        ErrorKind::InvalidValue
    );
}
