use wave_link_rpc::{
    parse_json, Batch, BatchResult, ChannelId, Error, ErrorKind, MixId, Operation,
    OperationStatus, Volume,
};

fn volume(value: f32) -> Volume {
    Volume::new(value.to_bits()).expect("volume")
}

fn operations() -> Vec<Operation> {
    vec![
        Operation::SetChannelVolume { channel: ChannelId::new("c"), volume: volume(0.5) },
        Operation::SetChannelMute { channel: ChannelId::new("c"), muted: true },
        Operation::SetMixVolume { mix: MixId::new("m"), volume: volume(1.0) },
    ]
}

#[test]
fn operation_payloads_are_partial_and_exact() {
    let operation = Operation::SetChannelMixVolume {
        channel: ChannelId::new("channel-1"),
        mix: MixId::new("mix-1"),
        volume: volume(0.5),
    };
    assert_eq!(
        operation.request(),
        (
            "setChannel",
            parse_json(r#"{"id": "channel-1", "mixes": [{"id": "mix-1", "level": 0.5}]}"#)
                .expect("JSON")
        )
    );
}

#[test]
fn every_operation_has_its_payload() {
    let channel = || ChannelId::new("c");
    let mix = || MixId::new("m");
    for (operation, method, params) in [
        (
            Operation::SetChannelVolume { channel: channel(), volume: volume(0.25) },
            "setChannel",
            r#"{"id":"c","level":0.25}"#,
        ),
        (
            Operation::SetChannelMute { channel: channel(), muted: true },
            "setChannel",
            r#"{"id":"c","isMuted":true}"#,
        ),
        (
            Operation::SetChannelMixMute { channel: channel(), mix: mix(), muted: false },
            "setChannel",
            r#"{"id":"c","mixes":[{"id":"m","isMuted":false}]}"#,
        ),
        (
            Operation::SetMixVolume { mix: mix(), volume: volume(0.1) },
            "setMix",
            r#"{"id":"m","level":0.10000000149011612}"#,
        ),
        (
            Operation::SetMixMute { mix: mix(), muted: true },
            "setMix",
            r#"{"id":"m","isMuted":true}"#,
        ),
    ] {
        let (sent_method, sent_params) = operation.request();
        assert_eq!(sent_method, method);
        assert_eq!(sent_params.to_text(), params);
    }
}

#[test]
fn a_batch_without_failures_succeeds() {
    let mut batch = Batch::new(operations());
    let mut attempted = Vec::new();
    while let Some(operation) = batch.current() {
        attempted.push(operation.clone());
        batch = batch.record(Ok(()));
    }
    assert_eq!(attempted, operations());
    let result = batch.finish();
    assert!(result.succeeded());
    assert_eq!(result.operations.len(), 3);
    assert!(result.operations.iter().all(|one| one.error.is_none()));
}

#[test]
fn a_batch_stops_at_the_first_failure() {
    let batch = Batch::new(operations());
    let batch = batch.record(Ok(()));
    assert_eq!(batch.current(), Some(&operations()[1]));
    let batch = batch.record(Err(Error::new(ErrorKind::Timeout, "setChannel timed out")));
    assert!(batch.current().is_none());
    let batch = batch.record(Ok(()));
    let result = batch.finish();
    assert!(!result.succeeded());
    let statuses: Vec<_> = result.operations.iter().map(|one| one.status).collect();
    assert_eq!(
        statuses,
        vec![
            OperationStatus::Succeeded,
            OperationStatus::Failed,
            OperationStatus::NotAttempted,
        ]
    );
    assert_eq!(
        result.operations[1].error.as_deref(),
        Some("request timed out: setChannel timed out")
    );
    assert_eq!(result.operations[2].error, None);
    assert_eq!(result.operations[2].operation, operations()[2]);
}

#[test]
fn an_empty_batch_succeeds() {
    assert!(BatchResult::default().succeeded());
    let batch = Batch::new(Vec::new());
    assert!(batch.current().is_none());
    assert!(batch.record(Ok(())).finish().succeeded());
}
