use wave_link_rpc::transport::{close_timeout, map_transport, read_collection, request_timeout};
use wave_link_rpc::transport::{is_notification, notice, ORIGIN_VALUE};
use wave_link_rpc::{
    parse_json, Channel, ChannelId, Compatibility, Duration, ErrorKind, Incoming, Json, Notice,
    Operation, ReadCapability, Request, Requests, SnapshotProgress, SnapshotReader, Volume,
    WaveLinkClient,
    WriteCapability,
};

fn json(text: &str) -> Json {
    parse_json(text).expect("JSON")
}

fn text(text: &str) -> Incoming {
    Incoming::Text(text.to_owned())
}

fn client(revision: u32) -> WaveLinkClient {
    WaveLinkClient::connect(json(&format!(
        r#"{{"appId":"EWL","applicationVersion":"3.2.9.4002","build":4002,
            "interfaceRevision":{revision},"futureField":true}}"#
    )))
    .expect("connect client")
}

#[test]
fn requests_are_numbered_and_rendered() {
    let mut requests = Requests::new();
    let first = requests.begin("getApplicationInfo", Json::Null).expect("request");
    assert_eq!(first.id(), 1);
    assert_eq!(
        first.text(),
        r#"{"id":1,"jsonrpc":"2.0","method":"getApplicationInfo","params":null}"#
    );
    let second = requests.begin("setMix", json(r#"{"id":"m","level":0.5}"#)).expect("request");
    assert_eq!(second.id(), 2);
    assert_eq!(
        second.text(),
        r#"{"id":2,"jsonrpc":"2.0","method":"setMix","params":{"id":"m","level":0.5}}"#
    );
    assert_eq!(second.timed_out().kind(), ErrorKind::Timeout);
    assert_eq!(second.timed_out().context(), "setMix timed out");
}

#[test]
fn a_request_waits_for_its_own_response() {
    let mut requests = Requests::new();
    let request = requests.begin("getMixes", Json::Null).expect("request");
    assert!(request.receive(text(r#"{"id":2,"result":[]}"#)).is_none());
    assert!(request.receive(text(r#"{"id":"1","result":[]}"#)).is_none());
    assert!(request.receive(text(r#"{"id":1.0,"result":[]}"#)).is_none());
    assert!(request.receive(text(r#"{"method":"changed"}"#)).is_none());
    assert!(request.receive(text("[1]")).is_none());
    assert!(request.receive(Incoming::Ping(vec![1])).is_none());
    assert!(request.receive(Incoming::Close).is_none());
    assert!(request.receive(Incoming::Other).is_none());
    assert_eq!(
        request.receive(text(r#"{"id":1,"result":null}"#)),
        Some(Ok(Json::Null))
    );
    assert_eq!(
        request.respond(json(r#"{"id":1,"result":{"a":[0.5]}}"#)),
        Some(Ok(json(r#"{"a":[0.5]}"#)))
    );
}

#[test]
fn failures_end_a_request() {
    let mut requests = Requests::new();
    let request = requests.begin("getMixes", Json::Null).expect("request");
    let failure = |incoming| request.receive(incoming).expect("answer").unwrap_err();
    let error = failure(text(
        r#"{"jsonrpc":"2.0","id":1,"error":{"code":-32000,"message":"no channel Desk-Mic"}}"#,
    ));
    assert_eq!(error.kind(), ErrorKind::Protocol);
    assert_eq!(error.context(), "Wave Link answered with an error");
    let error = failure(text(r#"{"id":1,"error":null,"result":1}"#));
    assert_eq!(error.context(), "Wave Link answered with an error");
    let error = failure(text(r#"{"id":1}"#));
    assert_eq!(error.kind(), ErrorKind::Protocol);
    assert_eq!(error.context(), "JSON-RPC response omitted result");
    assert_eq!(failure(text("nonsense")).kind(), ErrorKind::Protocol);
    let error = failure(Incoming::Failed("reset".to_owned()));
    assert_eq!(error.kind(), ErrorKind::Transport);
    assert_eq!(error.context(), "reset");
    let error = failure(Incoming::Ended);
    assert_eq!(error.kind(), ErrorKind::Transport);
    assert_eq!(error.context(), "Wave Link closed the connection");
    assert_eq!(map_transport("reset").to_string(), "transport error: reset");
}

#[test]
fn notifications_name_a_method_and_carry_no_number() {
    assert!(is_notification(&json(r#"{"method":"channelChanged"}"#)));
    assert!(!is_notification(&json(r#"{"id":null,"method":"channelChanged"}"#)));
    assert!(!is_notification(&json(r#"{"result":1}"#)));
    assert!(!is_notification(&json("[]")));
    assert!(matches!(notice(text(r#"{"method":"m"}"#)), Notice::Changed));
    assert!(matches!(notice(text(r#"{"id":1,"result":1}"#)), Notice::Ignored));
    assert!(matches!(notice(Incoming::Other), Notice::Ignored));
    match notice(Incoming::Ping(vec![1, 2])) {
        Notice::Pong(payload) => assert_eq!(payload, vec![1, 2]),
        other => panic!("{other:?}"),
    }
    for (incoming, kind) in [
        (Incoming::Close, ErrorKind::Transport),
        (Incoming::Ended, ErrorKind::Transport),
        (Incoming::Failed("x".to_owned()), ErrorKind::Transport),
        (text("{"), ErrorKind::Protocol),
    ] {
        match notice(incoming) {
            Notice::Failed(error) => assert_eq!(error.kind(), kind),
            other => panic!("{other:?}"),
        }
    }
}

#[test]
fn revision_two_reads_and_writes() {
    let client = client(2);
    assert_eq!(client.compatibility(), Compatibility::Revision2);
    assert!(client.compatibility().writes_allowed());
    assert!(client.application_info().extra.get("futureField").is_some());
    for read in [
        ReadCapability::Application,
        ReadCapability::Channels,
        ReadCapability::Mixes,
        ReadCapability::InputDevices,
        ReadCapability::OutputDevices,
    ] {
        assert!(client.capabilities().can_read(read));
    }
    assert!(!client.capabilities().can_read(ReadCapability::Notifications));
    assert!(client.capabilities().can_write(WriteCapability::Volume));
    assert!(client.capabilities().can_write(WriteCapability::Mute));
    assert!(client.capabilities().can_write(WriteCapability::PerMixState));
    assert!(!client.capabilities().can_write(WriteCapability::Routing));

    let mut requests = Requests::new();
    let operation = Operation::SetChannelVolume {
        channel: ChannelId::new("c"),
        volume: Volume::new(0.5_f32.to_bits()).expect("volume"),
    };
    let request = client.apply(&mut requests, &operation).expect("request");
    assert_eq!(
        request.text(),
        r#"{"id":1,"jsonrpc":"2.0","method":"setChannel","params":{"id":"c","level":0.5}}"#
    );
}

#[test]
fn unknown_revisions_are_write_locked() {
    let client = client(99);
    assert_eq!(client.compatibility(), Compatibility::ReadOnlyUnknownRevision(99));
    assert!(!client.compatibility().writes_allowed());
    assert!(client.capabilities().can_read(ReadCapability::Channels));
    assert!(!client.capabilities().can_write(WriteCapability::Volume));
    let mut requests = Requests::new();
    let operation = Operation::SetChannelMute { channel: ChannelId::new("c"), muted: true };
    let error = client.apply(&mut requests, &operation).unwrap_err();
    assert_eq!(error.kind(), ErrorKind::UnsupportedRevision);
    assert_eq!(error.context(), "writes are locked for this interface revision");
    assert_eq!(requests.begin("getMixes", Json::Null).expect("request").id(), 1);
}

#[test]
fn revision_one_is_unsupported() {
    let error = WaveLinkClient::connect(json(r#"{"interfaceRevision":1}"#)).unwrap_err();
    assert_eq!(error.kind(), ErrorKind::UnsupportedRevision);
    for (answer, context) in [
        (r#"{"interfaceRevision":"2"}"#, "invalid type: string, expected u32"),
        (r#"{"interfaceRevision":2.0}"#, "invalid type: floating point, expected u32"),
        (r#"{"interfaceRevision":-1}"#, "invalid value: integer, expected u32"),
        (r#"{"interfaceRevision":4294967296}"#, "invalid value: integer, expected u32"),
        ("{}", "missing field `interfaceRevision`"),
        (r#"{"appId":{}}"#, "invalid type: map, expected a string"),
        (r#"{"applicationVersion":[]}"#, "invalid type: sequence, expected a string"),
        ("[]", "invalid type: sequence, expected struct ApplicationInfo"),
    ] {
        let error = WaveLinkClient::connect(json(answer)).unwrap_err();
        assert_eq!(error.kind(), ErrorKind::Protocol);
        assert_eq!(error.context(), context);
    }
}

#[test]
fn collections_come_bare_or_wrapped() {
    let bare: Vec<Channel> =
        read_collection("getChannels", "channels", json(r#"[{"id":"a"}]"#)).expect("bare");
    let wrapped: Vec<Channel> = read_collection(
        "getChannels",
        "channels",
        json(r#"{"channels":[{"id":"a"}],"more":1}"#),
    )
    .expect("wrapped");
    assert_eq!(bare, wrapped);
    for (value, context) in [
        (r#"{"other":[]}"#, "getChannels response omitted channels"),
        ("5", "getChannels returned a non-collection result"),
        ("null", "getChannels returned a non-collection result"),
        (r#"{"channels":{}}"#, "invalid type: map, expected a sequence"),
        (r#"{"channels":null}"#, "invalid type: null, expected a sequence"),
        (r#"[{}]"#, "missing field `id`"),
        (r#"[{"id":"a"},null]"#, "invalid type: null, expected struct Channel"),
        (r#"[{"id":"Desk-Mic","name":["x"]}]"#, "invalid type: sequence, expected a string"),
        (r#"[{"id":7}]"#, "invalid type: integer, expected a string"),
    ] {
        let error =
            read_collection::<Channel>("getChannels", "channels", json(value)).unwrap_err();
        assert_eq!(error.kind(), ErrorKind::Protocol);
        assert_eq!(error.context(), context);
    }
}

/// Answers a request as a Wave Link of the given interface revision does.
fn server(revision: u32, request: &str) -> String {
    let request: serde_json::Value = serde_json::from_str(request).expect("JSON-RPC request");
    let result = match request["method"].as_str().expect("method") {
        "getApplicationInfo" => format!(
            r#"{{"appId":"EWL","applicationVersion":"3.2.9.4002","build":4002,
                "interfaceRevision":{revision},"futureField":true}}"#
        ),
        "getChannels" => {
            r#"{"channels":[{"id":"channel-1","name":"Mic","level":0.5}]}"#.to_owned()
        }
        "getMixes" => r#"{"mixes":[{"id":"mix-1","name":"Stream","mute":false}]}"#.to_owned(),
        "getInputDevices" => r#"{"inputDevices":[{"id":"input-1","gain":12}]}"#.to_owned(),
        "getOutputDevices" => {
            r#"{"outputDevices":[{"id":"output-1","mixId":"mix-1"}]}"#.to_owned()
        }
        _ => "null".to_owned(),
    };
    format!(r#"{{"jsonrpc":"2.0","id":{},"result":{result}}}"#, request["id"])
}

fn open(revision: u32) -> (Requests, Json) {
    let (requests, request) = Requests::open();
    assert_eq!(
        request.text(),
        r#"{"id":1,"jsonrpc":"2.0","method":"getApplicationInfo","params":null}"#
    );
    let response = server(revision, request.text());
    (
        requests,
        request.receive(Incoming::Text(response)).expect("answer").expect("result"),
    )
}

fn call(revision: u32, request: &Request) -> Json {
    let response = server(revision, request.text());
    request.receive(Incoming::Text(response)).expect("answer").expect("result")
}

#[test]
fn connects_with_origin_and_reads_tolerant_snapshot() {
    assert_eq!(ORIGIN_VALUE, "streamdeck://");
    let (mut requests, answer) = open(2);
    let client = WaveLinkClient::connect(answer).expect("connect client");
    assert_eq!(client.compatibility(), Compatibility::Revision2);
    let mut reader = SnapshotReader::Channels;
    let snapshot = loop {
        let request = reader.request(&mut requests).expect("request");
        let response = call(2, &request);
        match reader.accept(client.application_info(), response).expect("read snapshot") {
            SnapshotProgress::More(next) => reader = next,
            SnapshotProgress::Complete(snapshot) => break snapshot,
        }
    };
    assert_eq!(snapshot.channels.len(), 1);
    assert_eq!(snapshot.mixes.len(), 1);
    assert_eq!(snapshot.input_devices.len(), 1);
    assert_eq!(snapshot.output_devices.len(), 1);
    assert!(snapshot.application.extra.get("futureField").is_some());
    assert_eq!(snapshot.channels[0].id.as_str(), "channel-1");
    assert_eq!(snapshot.mixes[0].id.as_str(), "mix-1");
    assert_eq!(snapshot.input_devices[0].id.as_str(), "input-1");
    assert_eq!(snapshot.output_devices[0].id.as_str(), "output-1");
}

#[test]
fn unknown_revision_is_explicitly_read_only() {
    let (_, answer) = open(99);
    let client = WaveLinkClient::connect(answer).expect("connect client");
    assert_eq!(
        client.compatibility(),
        Compatibility::ReadOnlyUnknownRevision(99)
    );
    assert!(!client.compatibility().writes_allowed());
}

#[test]
fn a_snapshot_needs_every_collection() {
    let client = client(2);
    let error = SnapshotReader::Channels
        .accept(client.application_info(), json("{}"))
        .unwrap_err();
    assert_eq!(error.context(), "getChannels response omitted channels");
}

#[test]
fn the_exchange_is_bounded_in_time() {
    assert_eq!(request_timeout(), Duration::from_secs(5));
    assert_eq!(close_timeout(), Duration::from_millis(500));
}
