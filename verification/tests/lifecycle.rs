use std::sync::Arc;

use wave_link_rpc::lifecycle::{backoff, ready, receive, shutdown_outcome};
use wave_link_rpc::Decode;
use wave_link_rpc::{
    parse_json, Admission, ApplicationInfo, Compatibility, ConnectionState, Duration, Effect,
    ErrorKind, Event, Input, Lifecycle, MixerSnapshot, Received, Task,
};

fn snapshot() -> Arc<MixerSnapshot> {
    let value = parse_json(r#"{"interfaceRevision":2}"#).expect("JSON");
    Arc::new(MixerSnapshot {
        application: ApplicationInfo::decode(&value).expect("application"),
        channels: Vec::new(),
        mixes: Vec::new(),
        input_devices: Vec::new(),
        output_devices: Vec::new(),
    })
}

fn names(effects: &[Effect]) -> Vec<String> {
    effects
        .iter()
        .map(|effect| match effect {
            Effect::ReplaceSnapshot(_) => "replace".to_owned(),
            Effect::Transition(state) => format!("{state:?}"),
            Effect::Emit(Event::Snapshot(_)) => "snapshot".to_owned(),
            Effect::Emit(Event::Resynchronized(_)) => "resynchronized".to_owned(),
            Effect::Emit(Event::Shutdown) => "shutdown".to_owned(),
            Effect::Emit(other) => format!("{other:?}"),
            Effect::CancelFades => "cancel".to_owned(),
        })
        .collect()
}

fn connected(compatibility: Compatibility) -> Lifecycle {
    let mut lifecycle = Lifecycle::new();
    lifecycle.step(Input::ShutdownFlag(false));
    lifecycle.step(Input::Connection(Some(compatibility)));
    lifecycle.step(Input::Snapshot(Some(snapshot())));
    lifecycle
}

#[test]
fn reconnect_backoff_is_bounded_and_jittered() {
    let values: Vec<_> = (0..20).map(backoff).collect();
    assert!(values.iter().all(|value| *value <= Duration::from_secs(6)));
    assert!(values[0] >= Duration::from_millis(200));
    assert_ne!(values[4], values[5]);
}

#[test]
fn backoff_has_exact_values() {
    for (attempt, millis) in [
        (0, 200),
        (1, 585),
        (2, 1130),
        (3, 2180),
        (4, 4200),
        (5, 4040),
        (u32::MAX, 250 * 16 * (80 + (u32::MAX.wrapping_mul(37) % 41)) / 100),
    ] {
        assert_eq!(backoff(attempt), Duration::from_millis(u64::from(millis)), "{attempt}");
    }
}

#[test]
fn a_client_connects_synchronizes_and_watches() {
    let mut lifecycle = Lifecycle::new();
    assert_eq!(lifecycle.state(), ConnectionState::Disconnected);
    assert!(matches!(lifecycle.task(), Task::CheckShutdown));
    assert_eq!(names(&lifecycle.step(Input::ShutdownFlag(false))), ["Connecting"]);
    assert!(matches!(lifecycle.task(), Task::Connect));
    assert_eq!(
        names(&lifecycle.step(Input::Connection(Some(Compatibility::Revision2)))),
        ["Synchronizing"]
    );
    assert!(matches!(lifecycle.task(), Task::ReadSnapshot));
    assert_eq!(
        names(&lifecycle.step(Input::Snapshot(Some(snapshot())))),
        ["replace", "Ready", "snapshot"]
    );
    assert!(matches!(lifecycle.task(), Task::Watch));
    assert_eq!(lifecycle.state(), ConnectionState::Ready);
    assert!(lifecycle.step(Input::ShutdownFlag(false)).is_empty());
    assert_eq!(names(&lifecycle.step(Input::Notification(true))), ["Synchronizing"]);
    assert_eq!(
        names(&lifecycle.step(Input::Snapshot(Some(snapshot())))),
        ["replace", "Ready", "resynchronized"]
    );
}

#[test]
fn an_unknown_revision_is_read_only() {
    let lifecycle = connected(Compatibility::ReadOnlyUnknownRevision(7));
    assert_eq!(lifecycle.state(), ConnectionState::ReadOnlyUnknownRevision);
}

#[test]
fn failed_attempts_back_off_further_and_further() {
    let mut lifecycle = Lifecycle::new();
    for attempt in 0..3 {
        let announced = lifecycle.step(Input::ShutdownFlag(false));
        let expected = if attempt == 0 { "Connecting" } else { "Reconnecting" };
        assert_eq!(names(&announced), [expected]);
        assert!(lifecycle.step(Input::Connection(None)).is_empty());
        match lifecycle.task() {
            Task::Backoff(wait) => assert_eq!(wait, backoff(attempt)),
            other => panic!("{other:?}"),
        }
        assert!(lifecycle.step(Input::BackoffOver(false)).is_empty());
    }
    lifecycle.step(Input::ShutdownFlag(false));
    lifecycle.step(Input::Connection(None));
    assert_eq!(names(&lifecycle.step(Input::BackoffOver(true))), ["Shutdown", "shutdown"]);
    assert!(matches!(lifecycle.task(), Task::Stop));
}

#[test]
fn a_connection_without_a_snapshot_is_closed_and_tried_again() {
    let mut lifecycle = Lifecycle::new();
    lifecycle.step(Input::ShutdownFlag(false));
    lifecycle.step(Input::Connection(Some(Compatibility::Revision2)));
    assert!(lifecycle.step(Input::Snapshot(None)).is_empty());
    assert!(matches!(lifecycle.task(), Task::Close));
    assert!(lifecycle.step(Input::Closed).is_empty());
    assert!(matches!(lifecycle.task(), Task::CheckShutdown));
    assert_eq!(names(&lifecycle.step(Input::ShutdownFlag(false))), ["Connecting"]);
}

#[test]
fn a_lost_connection_cancels_fades_and_reconnects() {
    for last in [Input::Notification(false), Input::Snapshot(None)] {
        let mut lifecycle = connected(Compatibility::Revision2);
        if matches!(last, Input::Snapshot(None)) {
            lifecycle.step(Input::Notification(true));
        }
        assert_eq!(names(&lifecycle.step(last)), ["cancel", "Reconnecting"]);
        lifecycle.step(Input::ShutdownFlag(false));
        lifecycle.step(Input::Connection(Some(Compatibility::Revision2)));
        assert_eq!(
            names(&lifecycle.step(Input::Snapshot(Some(snapshot())))),
            ["replace", "Ready", "resynchronized"]
        );
    }
}

#[test]
fn mutations_need_a_connection_and_are_followed_by_a_snapshot() {
    let mut lifecycle = Lifecycle::new();
    assert!(lifecycle.step(Input::Mutated).is_empty());
    match lifecycle.admits_mutation() {
        Admission::Refused(error) => assert_eq!(error.kind(), ErrorKind::Transport),
        other => panic!("{other:?}"),
    }
    let mut lifecycle = connected(Compatibility::Revision2);
    assert!(matches!(lifecycle.admits_mutation(), Admission::Now));
    assert_eq!(names(&lifecycle.step(Input::Mutated)), ["Synchronizing"]);
    assert!(matches!(lifecycle.task(), Task::ReadSnapshot));
    assert!(matches!(lifecycle.admits_mutation(), Admission::AfterSnapshot));
    lifecycle.step(Input::Snapshot(None));
    assert!(matches!(lifecycle.admits_mutation(), Admission::Refused(_)));
}

#[test]
fn a_shutdown_closes_and_is_final() {
    let mut lifecycle = connected(Compatibility::Revision2);
    assert_eq!(names(&lifecycle.step(Input::ShutdownFlag(true))), ["cancel"]);
    assert!(matches!(lifecycle.task(), Task::Close));
    match lifecycle.admits_mutation() {
        Admission::Refused(error) => assert_eq!(error.kind(), ErrorKind::Shutdown),
        other => panic!("{other:?}"),
    }
    assert_eq!(names(&lifecycle.step(Input::Closed)), ["Shutdown", "shutdown"]);
    assert_eq!(lifecycle.state(), ConnectionState::Shutdown);
    assert!(lifecycle.step(Input::ShutdownFlag(false)).is_empty());
    assert!(lifecycle.step(Input::Notification(true)).is_empty());
    assert!(matches!(lifecycle.task(), Task::Stop));

    let mut early = Lifecycle::new();
    assert_eq!(names(&early.step(Input::ShutdownFlag(true))), ["Shutdown", "shutdown"]);
}

#[test]
fn a_subscriber_that_lags_gets_the_latest_snapshot() {
    match receive(Received::Lagged(3), Some(snapshot())).expect("event") {
        Event::LaggedAndResynchronized { skipped, .. } => assert_eq!(skipped, 3),
        other => panic!("{other:?}"),
    }
    assert_eq!(
        receive(Received::Lagged(3), None).unwrap_err().kind(),
        ErrorKind::Protocol
    );
    assert_eq!(receive(Received::Closed, None).unwrap_err().kind(), ErrorKind::Shutdown);
    let event = Event::StateChanged(ConnectionState::Ready);
    assert!(matches!(
        receive(Received::Event(event), None),
        Ok(Event::StateChanged(ConnectionState::Ready))
    ));
}

#[test]
fn waiting_ends_with_a_snapshot_or_with_the_client() {
    assert!(matches!(ready(Some(snapshot()), true), Some(Ok(_))));
    assert!(ready(None, false).is_none());
    let error = ready(None, true).expect("done").unwrap_err();
    assert_eq!(error.kind(), ErrorKind::Shutdown);
    assert_eq!(error.context(), "client shut down before becoming ready");
    assert!(shutdown_outcome(None).is_ok());
    assert_eq!(
        shutdown_outcome(Some("panicked".to_owned())).unwrap_err().to_string(),
        "client is shut down: lifecycle task failed: panicked"
    );
}
