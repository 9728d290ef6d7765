use wave_link_rpc::json::NumberKind;
use wave_link_rpc::{
    parse_json, read_list, ApplicationInfo, ChannelId, ChannelMixState, Decode, Encode, ErrorKind,
    Explain, Fields, Gain, InputDeviceId, Json, JsonNumber, MixBalance, MixId, OutputDeviceId,
    Volume,
};

fn double(value: f64) -> Json {
    Json::Number(JsonNumber::double(value.to_bits()).expect("finite"))
}

#[test]
fn public_models_round_trip_through_serde() {
    let id = ChannelId::new("redacted-channel-1");
    let json = id.to_json().to_text();
    assert_eq!(json, "\"redacted-channel-1\"");
    assert_eq!(
        ChannelId::decode(&parse_json(&json).expect("deserialize ID")),
        Some(id)
    );

    let volume = Volume::new(0.75_f32.to_bits()).expect("valid volume");
    let json = volume.to_text();
    assert_eq!(
        Volume::decode(&parse_json(&json).expect("deserialize volume")),
        Some(volume)
    );
}

#[test]
fn text_parses_into_every_kind_of_value() {
    let value = parse_json(
        r#"{"n":null,"t":true,"u":7,"i":-3,"d":0.5,"s":"a\"b","a":[1,[]],"o":{"x":1}}"#,
    )
    .expect("JSON");
    assert_eq!(value.get("n"), Some(&Json::Null));
    assert_eq!(value.get("t").and_then(Json::as_bool), Some(true));
    assert_eq!(value.get("u").and_then(Json::as_u64), Some(7));
    assert_eq!(value.get("i").and_then(Json::as_u64), None);
    match value.get("i") {
        Some(Json::Number(number)) => assert_eq!(number.kind(), NumberKind::Negative(-3)),
        other => panic!("{other:?}"),
    }
    assert_eq!(value.get("d"), Some(&double(0.5)));
    assert_eq!(value.get("d").and_then(Json::as_u64), None);
    assert_eq!(value.get("s"), Some(&Json::Text("a\"b".to_owned())));
    assert_eq!(
        value.get("a"),
        Some(&Json::Array(vec![
            Json::Number(JsonNumber::unsigned(1)),
            Json::Array(Vec::new()),
        ]))
    );
    let mut object = Fields::new();
    object.insert("x", Json::Number(JsonNumber::unsigned(1)));
    assert_eq!(value.get("o"), Some(&Json::Object(object)));
    assert_eq!(value.get("missing"), None);
    assert_eq!(Json::Null.get("n"), None);
    assert_eq!(Json::Null.as_bool(), None);
}

#[test]
fn text_that_is_not_json_is_a_protocol_error() {
    let error = parse_json("{\"open\":").unwrap_err();
    assert_eq!(error.kind(), ErrorKind::Protocol);
    assert_eq!(error.context(), "EOF while parsing a value at line 1 column 8");
}

#[test]
fn values_render_compactly_with_ordered_names() {
    let mut fields = Fields::new();
    fields.insert("z", Json::Bool(false));
    fields.insert("a", Json::Null);
    fields.insert("m", Json::Array(vec![double(0.1), Json::Number(JsonNumber::signed(-2))]));
    fields.insert("s", Json::Text("q\"\n".to_owned()));
    assert_eq!(
        Json::Object(fields).to_text(),
        r#"{"a":null,"m":[0.1,-2],"s":"q\"\n","z":false}"#
    );
    assert_eq!(Json::Number(JsonNumber::unsigned(u64::MAX)).to_text(), "18446744073709551615");
    assert_eq!(double(1.0).to_text(), "1.0");
    assert_eq!(double(-0.0).to_text(), "-0.0");
}

#[test]
fn members_are_set_and_taken_out_by_name() {
    let mut fields = Fields::new();
    fields.insert("a", Json::Bool(true));
    fields.insert("b", Json::Null);
    fields.insert("a", Json::Bool(false));
    assert_eq!(fields.get("a"), Some(&Json::Bool(false)));
    assert_eq!(fields.clone(), fields);
    assert_eq!(fields.remove("a"), Some(Json::Bool(false)));
    assert_eq!(fields.remove("a"), None);
    assert_eq!(fields.get("b"), Some(&Json::Null));
}

#[test]
fn equality_ignores_the_order_of_members() {
    let one = parse_json(r#"{"a":1,"b":[true,{"c":"x"}]}"#).expect("JSON");
    let mut inner = Fields::new();
    inner.insert("c", Json::Text("x".to_owned()));
    let mut fields = Fields::new();
    fields.insert("b", Json::Array(vec![Json::Bool(true), Json::Object(inner)]));
    fields.insert("a", Json::Number(JsonNumber::unsigned(1)));
    let two = Json::Object(fields);
    assert_eq!(one, two);
    assert_eq!(one.clone(), two);
    assert_ne!(one, parse_json(r#"{"a":1,"b":[true,{"c":"y"}]}"#).expect("JSON"));
    assert_ne!(one, parse_json(r#"{"a":1}"#).expect("JSON"));
    assert_ne!(parse_json(r#"{"a":1}"#).expect("JSON"), one);
    assert_ne!(Json::Number(JsonNumber::unsigned(1)), double(1.0));
    assert_eq!(double(0.0), double(-0.0));
    assert_ne!(double(0.0), double(0.5));
    assert_eq!(JsonNumber::signed(4).kind(), NumberKind::Unsigned(4));
    assert!(JsonNumber::double(f64::NAN.to_bits()).is_none());
    assert!(JsonNumber::double(f64::INFINITY.to_bits()).is_none());
}

#[test]
fn levels_round_to_single_precision_before_they_are_judged() {
    for (text, expected) in [
        ("0", Some(0.0_f32)),
        ("1", Some(1.0)),
        ("0.25", Some(0.25)),
        ("0.1", Some(0.1)),
        ("1.00000001", Some(1.0)),
        ("1.0000001", None),
        ("-1e-60", Some(-0.0)),
        ("-0.001", None),
        ("1e-46", Some(0.0)),
        ("2", None),
        ("-1", None),
        ("1e300", None),
        ("null", None),
        ("true", None),
        ("\"0.5\"", None),
    ] {
        let level = Volume::decode(&parse_json(text).expect("JSON"));
        assert_eq!(
            level.map(Volume::get),
            expected.map(f32::to_bits),
            "{text}"
        );
    }
}

#[test]
fn written_levels_read_back() {
    for value in [0.0_f32, f32::from_bits(1), 0.02, 0.1, 0.3, 0.75, 1.0 - f32::EPSILON, 1.0] {
        let volume = Volume::new(value.to_bits()).expect("volume");
        assert_eq!(volume.to_json(), double(f64::from(value)));
        assert_eq!(
            Volume::decode(&volume.to_json()).map(Volume::get),
            Some(value.to_bits())
        );
    }
}

#[test]
fn every_model_that_travels_round_trips() {
    for text in ["", "plain", "q\"\\/\u{8}\n\u{1}\u{7f}é\u{1f600}"] {
        let id = MixId::new(text);
        let back = parse_json(&id.to_json().to_text()).expect("JSON");
        assert_eq!(back, Json::Text(text.to_owned()));
        assert_eq!(MixId::decode(&back), Some(id));
    }
    assert_eq!(InputDeviceId::decode(&Json::Null), None);
    assert_eq!(OutputDeviceId::new("o").to_json(), Json::Text("o".to_owned()));
    let gain = Gain::new(0.25_f32.to_bits()).expect("gain");
    assert_eq!(Gain::decode(&gain.to_json()), Some(gain));
    let balance = MixBalance::new(1.0_f32.to_bits()).expect("balance");
    assert_eq!(MixBalance::decode(&balance.to_json()), Some(balance));
    assert_eq!(MixBalance::decode(&double(1.5)), None);
}

#[test]
fn members_are_counted_and_walked_in_order() {
    let value = parse_json(r#"{"b":1,"a":null,"ab":2,"":3,"\u00e9":4,"B":5}"#).expect("JSON");
    match value {
        Json::Object(fields) => {
            assert_eq!(fields.len(), 6);
            assert_eq!(fields.names(), vec!["", "B", "a", "ab", "b", "\u{e9}"]);
            assert!(fields.contains_key("ab"));
            assert!(!fields.contains_key("c"));
        }
        other => panic!("{other:?}"),
    }
    assert_eq!(Fields::new().len(), 0);
    assert!(Fields::new().names().is_empty());
}

#[test]
fn a_level_on_its_own_has_the_digits_of_its_single() {
    for value in [0.0_f32, 0.1, 0.75, 1.0, 1e-7, 0.3, f32::from_bits(1), 0.123_456_79] {
        let text = serde_json::to_string(&value).expect("text");
        let bits = value.to_bits();
        assert_eq!(Volume::new(bits).expect("volume").to_text(), text);
        assert_eq!(Gain::new(bits).expect("gain").to_text(), text);
        assert_eq!(MixBalance::new(bits).expect("balance").to_text(), text);
    }
    assert_eq!(Volume::new(0.1_f32.to_bits()).expect("volume").to_text(), "0.1");
}

#[test]
fn faults_are_worded_like_the_parser_words_them() {
    let null = || serde_json::Value::Null;
    let words = |expected: &str| format!("invalid type: null, expected {expected}");
    let error = serde_json::from_value::<String>(null()).unwrap_err();
    assert_eq!(error.to_string(), words("a string"));
    let error = serde_json::from_value::<bool>(null()).unwrap_err();
    assert_eq!(error.to_string(), words("a boolean"));
    let error = serde_json::from_value::<f32>(null()).unwrap_err();
    assert_eq!(error.to_string(), words("f32"));
    let nulls = parse_json("[null]").expect("JSON");
    assert_eq!(
        read_list::<ChannelMixState>(&nulls).unwrap_err(),
        words("struct ChannelMixState")
    );
    let error = serde_json::from_value::<Vec<u8>>(null()).unwrap_err();
    assert_eq!(read_list::<ChannelMixState>(&Json::Null).unwrap_err(), error.to_string());
    let map = serde_json::Value::Object(serde_json::Map::new());
    let error = serde_json::from_value::<u32>(map).unwrap_err();
    let value = parse_json(r#"{"interfaceRevision":{}}"#).expect("JSON");
    assert_eq!(ApplicationInfo::explain(&value), error.to_string());
}
