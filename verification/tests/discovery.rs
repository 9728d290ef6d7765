use std::path::PathBuf;

use wave_link_rpc::{Discovery, Endpoint, ErrorKind, Metadata, PACKAGE_LOCAL_STATE};

fn metadata(bytes: &[u8]) -> Metadata {
    let file: serde_json::Value = serde_json::from_slice(bytes).expect("metadata");
    let port = file["port"].as_u64().expect("port");
    Metadata::Port(u16::try_from(port).expect("port"))
}

#[test]
fn reads_advertised_port() {
    let path = PathBuf::from("temporary directory").join("ws-info.json");
    let endpoint = Discovery::from_metadata_path(path)
        .discover(metadata(br#"{"port":1824,"extra":"ignored"}"#))
        .expect("discover endpoint");
    assert_eq!(endpoint.port(), 1824);
    assert_eq!(endpoint.websocket_url(), "ws://127.0.0.1:1824");
}

#[test]
fn rejects_zero_port() {
    let path = PathBuf::from("temporary directory").join("ws-info.json");
    assert!(Discovery::from_metadata_path(path)
        .discover(metadata(br#"{"port":0}"#))
        .is_err());
}

#[test]
fn every_port_has_its_address() {
    for port in [1, 9, 10, 99, 100, 8080, 65535] {
        let endpoint = Endpoint::new(port).expect("endpoint");
        assert_eq!(endpoint.websocket_url(), format!("ws://127.0.0.1:{port}"));
    }
}

#[test]
fn port_zero_is_a_discovery_error() {
    let discovery = Discovery::from_metadata_path(PathBuf::from("ws-info.json"));
    let error = discovery.discover(Metadata::Port(0)).unwrap_err();
    assert_eq!(error.kind(), ErrorKind::Discovery);
    assert_eq!(error.context(), "Wave Link advertised port zero");
    assert!(Endpoint::new(0).is_err());
}

#[test]
fn unreadable_and_malformed_metadata_fail_discovery() {
    let discovery = Discovery::from_metadata_path(PathBuf::from("ws-info.json"));
    let error = discovery
        .discover(Metadata::Unreadable("entity not found".to_owned()))
        .unwrap_err();
    assert_eq!(error.to_string(), "discovery failed: entity not found");
    let error = discovery
        .discover(Metadata::Malformed("missing field `port`".to_owned()))
        .unwrap_err();
    assert_eq!(error.context(), "invalid ws-info.json: missing field `port`");
}

#[test]
fn the_package_metadata_needs_a_directory() {
    let path = PathBuf::from("local").join(PACKAGE_LOCAL_STATE);
    let discovery = Discovery::msix_default(Some(PathBuf::from("local"))).expect("path");
    assert_eq!(discovery.metadata_path(), &path);
    assert_eq!(discovery.clone().metadata_path(), &path);
    let error = Discovery::msix_default(None).unwrap_err();
    assert_eq!(error.kind(), ErrorKind::Discovery);
    assert_eq!(
        error.context(),
        "LOCALAPPDATA is not set; automatic discovery requires Windows"
    );
}
