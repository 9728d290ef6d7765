use wave_link_rpc::json::NumberKind;
use wave_link_rpc::{
    decode_list, parse_json, ApplicationInfo, Channel, ChannelId, ChannelMixState, Decode, Encode,
    ErrorKind, InputDevice, Json, MixId, MixerSnapshot, OutputDevice, OutputMix, Volume,
};

fn channel(text: &str) -> Option<Channel> {
    Channel::decode(&parse_json(text).expect("JSON"))
}

#[test]
fn channel_accessors_normalize_volume_mute_and_mixes() {
    let channel = channel(
        r#"{
            "id": "channel-1",
            "name": "Synthetic",
            "level": 0.75,
            "isMuted": false,
            "mixes": [{
                "id": "mix-1",
                "level": 0.25,
                "isMuted": true,
                "futureField": 1
            }]
        }"#,
    )
    .expect("channel");

    assert_eq!(
        channel.volume().expect("volume"),
        Some(Volume::new(0.75_f32.to_bits()).unwrap())
    );
    assert_eq!(channel.muted(), Some(false));
    let mixes = channel.participating_mixes().expect("mixes");
    assert_eq!(mixes.len(), 1);
    assert_eq!(mixes[0].volume, Some(Volume::new(0.25_f32.to_bits()).unwrap()));
    assert_eq!(mixes[0].muted, Some(true));
    assert!(mixes[0].extra.get("futureField").is_some());
}

#[test]
fn malformed_normalized_state_is_a_protocol_error() {
    let channel = channel(r#"{"id": "channel-1", "level": 2.0}"#).expect("channel");
    assert_eq!(channel.volume().unwrap_err().kind(), ErrorKind::Protocol);
}

#[test]
fn new_normalized_models_are_public() {
    let _: Option<Channel> = None;
    let _: Option<ChannelMixState> = None;
}

#[test]
fn absent_state_is_none() {
    let channel = channel(r#"{"id":"c"}"#).expect("channel");
    assert_eq!(channel.id, ChannelId::new("c"));
    assert_eq!(channel.name, None);
    assert_eq!(channel.volume().expect("volume"), None);
    assert_eq!(channel.muted(), None);
    assert_eq!(channel.participating_mixes().expect("mixes"), Vec::new());
    assert_eq!(channel.mix(&MixId::new("m")).expect("mix"), None);
}

#[test]
fn null_state_is_none_except_for_the_level() {
    let channel =
        channel(r#"{"id":"c","name":null,"level":null,"isMuted":null,"mixes":null}"#).expect("c");
    assert_eq!(channel.name, None);
    let error = channel.volume().unwrap_err();
    assert_eq!(error.kind(), ErrorKind::Protocol);
    assert_eq!(error.context(), "level must be a number between 0.0 and 1.0");
    assert_eq!(channel.muted(), None);
    assert_eq!(channel.participating_mixes().expect("mixes"), Vec::new());
}

#[test]
fn entities_need_a_text_identifier() {
    assert!(channel(r#"{"name":"x"}"#).is_none());
    assert!(channel(r#"{"id":5}"#).is_none());
    assert!(channel(r#"{"id":"c","name":5}"#).is_none());
    assert!(channel(r#"["c"]"#).is_none());
    let value = parse_json(r#"{"id":"x","name":"n","gain":12}"#).expect("JSON");
    let mix = OutputMix::decode(&value).expect("mix");
    assert_eq!(mix.id, MixId::new("x"));
    assert_eq!(mix.name.as_deref(), Some("n"));
    let input = InputDevice::decode(&value).expect("input");
    assert_eq!(input.id.as_str(), "x");
    assert_eq!(input.state.get("gain").and_then(Json::as_u64), Some(12));
    assert_eq!(input.state.get("id"), None);
    assert_eq!(input.state.get("name"), None);
    assert_eq!(OutputDevice::decode(&value).expect("output").id.as_str(), "x");
}

#[test]
fn mixes_are_found_by_identifier() {
    let channel = channel(
        r#"{"id":"c","mixes":[{"id":"a","level":0.5},{"id":"b","isMuted":true},{"id":"b"}]}"#,
    )
    .expect("channel");
    let found = channel.mix(&MixId::new("b")).expect("mixes").expect("mix");
    assert_eq!(found.muted, Some(true));
    assert_eq!(found.volume, None);
    assert_eq!(channel.mix(&MixId::new("z")).expect("mixes"), None);
}

#[test]
fn malformed_mixes_are_a_protocol_error() {
    for (mixes, context) in [
        ("5", "invalid type: integer, expected a sequence"),
        ("{}", "invalid type: map, expected a sequence"),
        (r#"["a"]"#, "invalid type: string, expected struct ChannelMixState"),
        (r#"[{"level":0.5}]"#, "missing field `id`"),
        (
            r#"[{"id":"a","level":1.5}]"#,
            "invalid value: volume must be finite and between 0.0 and 1.0",
        ),
        (r#"[{"id":"a","level":"x"}]"#, "invalid type: string, expected f32"),
        (r#"[{"id":"a","isMuted":0}]"#, "invalid type: integer, expected a boolean"),
        (r#"[{"id":"a"},{"id":true}]"#, "invalid type: boolean, expected a string"),
    ] {
        let channel =
            channel(&format!(r#"{{"id":"c","mixes":{mixes}}}"#)).expect("channel");
        let error = channel.participating_mixes().unwrap_err();
        assert_eq!(error.kind(), ErrorKind::Protocol, "{mixes}");
        assert_eq!(error.context(), context);
        assert_eq!(channel.mix(&MixId::new("a")).unwrap_err().kind(), ErrorKind::Protocol);
    }
}

#[test]
fn application_information_keeps_what_it_does_not_know() {
    let value = parse_json(
        r#"{"appId":"EWL","applicationVersion":"3.2.9.4002","build":4002,
            "interfaceRevision":2,"futureField":true}"#,
    )
    .expect("JSON");
    let info = ApplicationInfo::decode(&value).expect("application");
    assert_eq!(info.app_id.as_deref(), Some("EWL"));
    assert_eq!(info.application_version.as_deref(), Some("3.2.9.4002"));
    match &info.build {
        Some(Json::Number(number)) => assert_eq!(number.kind(), NumberKind::Unsigned(4002)),
        other => panic!("{other:?}"),
    }
    assert_eq!(info.interface_revision, 2);
    assert_eq!(info.extra.get("futureField").and_then(Json::as_bool), Some(true));
    assert_eq!(info.extra.get("build"), None);
    assert_eq!(info.clone(), info);

    for text in [
        r#"{}"#,
        r#"{"interfaceRevision":2.0}"#,
        r#"{"interfaceRevision":-1}"#,
        r#"{"interfaceRevision":4294967296}"#,
        r#"{"interfaceRevision":2,"appId":7}"#,
        r#"{"interfaceRevision":2,"applicationVersion":7}"#,
        r#"[2]"#,
    ] {
        assert!(ApplicationInfo::decode(&parse_json(text).expect("JSON")).is_none(), "{text}");
    }
    let bare = ApplicationInfo::decode(
        &parse_json(r#"{"interfaceRevision":4294967295,"build":null}"#).expect("JSON"),
    )
    .expect("application");
    assert_eq!(bare.interface_revision, u32::MAX);
    assert_eq!(bare.build, None);
    assert_eq!(bare.app_id, None);
}

#[test]
fn lists_are_read_item_by_item() {
    let value = parse_json(r#"[{"id":"a"},{"id":"b","x":1}]"#).expect("JSON");
    let list: Vec<Channel> = decode_list(&value).expect("list");
    assert_eq!(list.len(), 2);
    assert_eq!(list[1].id, ChannelId::new("b"));
    assert!(decode_list::<Channel>(&parse_json(r#"[{"id":"a"},{}]"#).expect("JSON")).is_none());
    assert!(decode_list::<Channel>(&parse_json(r#"{"id":"a"}"#).expect("JSON")).is_none());
}

#[test]
fn snapshots_round_trip() {
    let text = r#"{
        "application":{"appId":"EWL","interfaceRevision":2,"future":[1]},
        "channels":[{"id":"c","name":"Mic","level":0.5},{"id":"d"}],
        "mixes":[{"id":"m","isMuted":false}],
        "inputDevices":[],
        "outputDevices":[{"id":"o","name":null}]
    }"#;
    let snapshot = MixerSnapshot::decode(&parse_json(text).expect("JSON")).expect("snapshot");
    let written = snapshot.to_json();
    assert_eq!(MixerSnapshot::decode(&written), Some(snapshot.clone()));
    assert_eq!(
        written.to_text(),
        [
            r#"{"application":{"appId":"EWL","applicationVersion":null,"build":null,"#,
            r#""future":[1],"interfaceRevision":2},"#,
            r#""channels":[{"id":"c","level":0.5,"name":"Mic"},{"id":"d","name":null}],"#,
            r#""inputDevices":[],"mixes":[{"id":"m","isMuted":false,"name":null}],"#,
            r#""outputDevices":[{"id":"o","name":null}]}"#,
        ]
        .concat()
    );
    let parts = parse_json(r#"[{"interfaceRevision":2},[],[],[],[]]"#).expect("JSON");
    assert!(MixerSnapshot::decode(&parts).is_some());
    for text in [
        r#"[{"interfaceRevision":2},[],[],[]]"#,
        r#"{"application":{"interfaceRevision":2},"channels":[],"mixes":[],"inputDevices":[]}"#,
        "null",
    ] {
        assert!(MixerSnapshot::decode(&parse_json(text).expect("JSON")).is_none());
    }
}

#[test]
fn mix_states_round_trip() {
    let value = parse_json(r#"{"id":"m","level":0.25,"isMuted":true,"x":1}"#).expect("JSON");
    let state = ChannelMixState::decode(&value).expect("state");
    assert_eq!(state.to_json(), value);
    let bare = ChannelMixState::decode(&parse_json(r#"{"id":"m"}"#).expect("JSON")).expect("state");
    assert_eq!(
        bare.to_json().to_text(),
        r#"{"id":"m","isMuted":null,"level":null}"#
    );
    assert_eq!(ChannelMixState::decode(&bare.to_json()), Some(bare));
}
