use wave_link_rpc::{
    parse_json, BatchResult, Capabilities, ChannelId, Decode, Encode, Error, ErrorKind, MixId,
    MuteState, Operation, OperationResult, OperationStatus, ReadCapability, Volume,
    WriteCapability,
};

#[test]
fn variants_are_their_names() {
    for (value, text) in [
        (ErrorKind::InvalidValue, "\"InvalidValue\""),
        (ErrorKind::UnsupportedRevision, "\"UnsupportedRevision\""),
        (ErrorKind::CapabilityUnavailable, "\"CapabilityUnavailable\""),
        (ErrorKind::AmbiguousName, "\"AmbiguousName\""),
        (ErrorKind::Protocol, "\"Protocol\""),
        (ErrorKind::Transport, "\"Transport\""),
        (ErrorKind::Discovery, "\"Discovery\""),
        (ErrorKind::Timeout, "\"Timeout\""),
        (ErrorKind::Shutdown, "\"Shutdown\""),
    ] {
        assert_eq!(value.to_json().to_text(), text);
        assert_eq!(ErrorKind::decode(&parse_json(text).expect("JSON")), Some(value));
    }
    for value in [MuteState::Unmuted, MuteState::Muted] {
        assert_eq!(MuteState::decode(&value.to_json()), Some(value));
    }
    for value in [
        OperationStatus::Succeeded,
        OperationStatus::Failed,
        OperationStatus::NotAttempted,
    ] {
        assert_eq!(OperationStatus::decode(&value.to_json()), Some(value));
    }
    let muted = |text: &str| MuteState::decode(&parse_json(text).expect("JSON"));
    assert_eq!(muted(r#"{"Muted":null}"#), Some(MuteState::Muted));
    assert_eq!(muted(r#"{"Muted":1}"#), None);
    assert_eq!(muted(r#"{"Muted":null,"Unmuted":null}"#), None);
    assert_eq!(muted("{}"), None);
    assert_eq!(muted("\"muted\""), None);
    assert_eq!(muted("true"), None);
}

#[test]
fn capabilities_round_trip() {
    let capabilities = Capabilities::new(
        vec![ReadCapability::Mixes, ReadCapability::Application, ReadCapability::Mixes],
        vec![WriteCapability::PerMixState, WriteCapability::Volume],
    );
    let json = capabilities.to_json();
    assert_eq!(
        json.to_text(),
        r#"{"reads":["Application","Mixes"],"writes":["Volume","PerMixState"]}"#
    );
    assert_eq!(Capabilities::decode(&json), Some(capabilities));
    let read = |text: &str| Capabilities::decode(&parse_json(text).expect("JSON"));
    assert_eq!(
        read(r#"[["Channels","Channels"],[]]"#),
        Some(Capabilities::new(vec![ReadCapability::Channels], vec![]))
    );
    assert_eq!(read(r#"{"reads":[]}"#), None);
    assert_eq!(read(r#"{"reads":["Volume"],"writes":[]}"#), None);
}

#[test]
fn errors_round_trip() {
    let error = Error::new(ErrorKind::Timeout, "getMixes timed out");
    assert_eq!(
        error.to_json().to_text(),
        r#"{"context":"getMixes timed out","kind":"Timeout"}"#
    );
    assert_eq!(Error::decode(&error.to_json()), Some(error));
    let read = |text: &str| Error::decode(&parse_json(text).expect("JSON"));
    assert_eq!(
        read(r#"["Shutdown","x"]"#),
        Some(Error::new(ErrorKind::Shutdown, "x"))
    );
    assert_eq!(read(r#"{"kind":"Shutdown","context":1}"#), None);
    assert_eq!(read(r#"["Shutdown"]"#), None);
}

#[test]
fn batch_results_are_written_with_their_operations() {
    let channel = || ChannelId::new("c");
    let mix = || MixId::new("m");
    let volume = Volume::new(0.5_f32.to_bits()).expect("volume");
    for (operation, text) in [
        (
            Operation::SetChannelVolume { channel: channel(), volume },
            r#"{"SetChannelVolume":{"channel":"c","volume":0.5}}"#,
        ),
        (
            Operation::SetChannelMute { channel: channel(), muted: true },
            r#"{"SetChannelMute":{"channel":"c","muted":true}}"#,
        ),
        (
            Operation::SetChannelMixVolume { channel: channel(), mix: mix(), volume },
            r#"{"SetChannelMixVolume":{"channel":"c","mix":"m","volume":0.5}}"#,
        ),
        (
            Operation::SetChannelMixMute { channel: channel(), mix: mix(), muted: false },
            r#"{"SetChannelMixMute":{"channel":"c","mix":"m","muted":false}}"#,
        ),
        (
            Operation::SetMixVolume { mix: mix(), volume },
            r#"{"SetMixVolume":{"mix":"m","volume":0.5}}"#,
        ),
        (
            Operation::SetMixMute { mix: mix(), muted: true },
            r#"{"SetMixMute":{"mix":"m","muted":true}}"#,
        ),
    ] {
        assert_eq!(operation.to_json().to_text(), text);
    }
    let result = BatchResult {
        operations: vec![OperationResult {
            operation: Operation::SetMixMute { mix: mix(), muted: true },
            status: OperationStatus::Failed,
            error: Some("e".to_owned()),
        }],
    };
    assert_eq!(
        result.to_json().to_text(),
        [
            r#"{"operations":[{"error":"e","#,
            r#""operation":{"SetMixMute":{"mix":"m","muted":true}},"status":"Failed"}]}"#,
        ]
        .concat()
    );
}
