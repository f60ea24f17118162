use codex_control_plane::protocol::{
    socket_file_name, socket_path, ApplySteerPayload, ApplySteerRequest, ApplySteerResult,
    CurrentSessionPayload, CurrentTurnPayload, LaunchKind, Request, Response, TurnStatus,
    empty_request_response, invalid_request_response, metadata_keys, parsed_request,
    read_request_text, ErrorPayload, RequestText,
};
use codex_control_plane::state::{
    apply_steer_payload_from_response, ControlPlaneConfig, ControlPlaneState, FinishedTurnStatus,
    RequestOutcome, SteerCall, SteerError,
};
use codex_control_plane::text::sorted_distinct;
use std::path::Path;

const IPC_DIR: &str = "/tmp/control-plane-test/instances";

fn config() -> ControlPlaneConfig {
    ControlPlaneConfig {
        feature_enabled: true,
        consent_accepted: true,
        steering_enabled: true,
        ipc_dir: IPC_DIR.to_string(),
        launch_kind: LaunchKind::Fresh,
    }
}

fn runtime() -> ControlPlaneState {
    ControlPlaneState::for_new_instance(config())
}

fn steer_request(turn: &str, text: &str, key: &str) -> ApplySteerRequest {
    ApplySteerRequest {
        expected_turn_id: turn.to_string(),
        text: text.to_string(),
        idempotency_key: key.to_string(),
        metadata: None,
    }
}

/// Runs a request the way the served control plane does, with a delegate
/// that answers `delegate_result` and records the call it got.
fn handle(
    state: &mut ControlPlaneState,
    request: Request,
    delegate_result: Result<String, SteerError>,
    calls: &mut Vec<SteerCall>,
) -> Response {
    match state.handle_request(request) {
        RequestOutcome::Respond(response) => response,
        RequestOutcome::Steer(call) => {
            calls.push(call.clone());
            let payload = state.finish_apply_steer(&call, delegate_result);
            Response::ApplySteer { payload }
        }
    }
}

fn steer(state: &mut ControlPlaneState, request: ApplySteerRequest) -> ApplySteerPayload {
    let mut calls = Vec::new();
    let response = handle(state, Request::ApplySteer(request), Ok("turn-1".to_string()), &mut calls);
    let Response::ApplySteer { payload } = response else {
        panic!("expected apply-steer response");
    };
    payload
}

#[test]
fn status_reports_runtime_metadata() {
    let mut runtime = runtime();
    let mut calls = Vec::new();
    let response = handle(&mut runtime, Request::Status, Ok(String::new()), &mut calls);
    let Response::Status { payload } = response else {
        panic!("expected status response");
    };
    assert!(payload.feature_enabled);
    assert!(payload.consent_accepted);
    assert!(payload.steering_enabled);
    assert!(!payload.session_known);
    assert!(!payload.active_turn_present);
    assert!(payload.socket_path.ends_with(".sock"));
    assert_eq!(payload.instance_id.len(), 36);
    assert_eq!(payload.launch_kind, LaunchKind::Fresh);
}

#[test]
fn current_session_and_turn_follow_lifecycle_updates() {
    let mut runtime = runtime();
    let cwd = "/tmp/control-plane-test".to_string();
    runtime.register_session("thread-1".to_string(), Some("hello".to_string()), cwd.clone());
    runtime.note_turn_started("turn-1");
    let mut calls = Vec::new();

    let session = handle(&mut runtime, Request::CurrentSession, Ok(String::new()), &mut calls);
    let Response::CurrentSession { payload } = session else {
        panic!("expected current-session response");
    };
    assert_eq!(
        payload,
        Some(CurrentSessionPayload {
            thread_id: "thread-1".to_string(),
            thread_name: Some("hello".to_string()),
            cwd: cwd.clone(),
            launch_kind: LaunchKind::Fresh,
        })
    );

    let turn = handle(&mut runtime, Request::CurrentTurn, Ok(String::new()), &mut calls);
    let Response::CurrentTurn { payload } = turn else {
        panic!("expected current-turn response");
    };
    assert_eq!(
        payload,
        Some(CurrentTurnPayload {
            thread_id: "thread-1".to_string(),
            turn_id: "turn-1".to_string(),
            status: TurnStatus::InProgress,
        })
    );

    runtime.note_turn_finished(Some("turn-1"), FinishedTurnStatus::Completed);
    runtime.clear_session("test");

    let turn = handle(&mut runtime, Request::CurrentTurn, Ok(String::new()), &mut calls);
    let Response::CurrentTurn { payload } = turn else {
        panic!("expected current-turn response");
    };
    assert_eq!(payload, None);
    assert!(calls.is_empty());
}

#[test]
fn apply_steer_rejects_not_enabled() {
    let mut runtime = ControlPlaneState::for_new_instance(ControlPlaneConfig {
        feature_enabled: false,
        ..config()
    });
    let payload = steer(&mut runtime, steer_request("turn-1", "hello", "abc"));
    assert_eq!(payload.outcome, ApplySteerResult::RejectedNotEnabled);
}

#[test]
fn apply_steer_rejects_not_authorized() {
    let mut runtime = ControlPlaneState::for_new_instance(ControlPlaneConfig {
        consent_accepted: false,
        ..config()
    });
    let payload = steer(&mut runtime, steer_request("turn-1", "hello", "abc"));
    assert_eq!(payload.outcome, ApplySteerResult::RejectedNotAuthorized);
}

#[test]
fn apply_steer_rejects_when_steering_is_disabled() {
    let mut runtime = ControlPlaneState::for_new_instance(ControlPlaneConfig {
        steering_enabled: false,
        ..config()
    });
    runtime.register_session("thread-1".to_string(), None, "/tmp".to_string());
    runtime.note_turn_started("turn-1");
    let payload = steer(&mut runtime, steer_request("turn-1", "hello", "abc"));
    assert_eq!(payload, ApplySteerPayload::new(ApplySteerResult::RejectedNotAuthorized));
}

#[test]
fn apply_steer_rejects_when_no_active_turn_exists() {
    let mut runtime = runtime();
    runtime.register_session("thread-1".to_string(), None, "/tmp".to_string());
    let payload = steer(&mut runtime, steer_request("turn-1", "hello", "abc"));
    assert_eq!(payload.outcome, ApplySteerResult::RejectedNoActiveTurn);
}

#[test]
fn apply_steer_rejects_when_no_session_is_registered() {
    let mut runtime = runtime();
    runtime.note_turn_started("turn-1");
    let payload = steer(&mut runtime, steer_request("turn-1", "hello", "abc"));
    assert_eq!(payload, ApplySteerPayload::new(ApplySteerResult::RejectedNoActiveTurn));
}

#[test]
fn apply_steer_rejects_stale_turns() {
    let mut runtime = runtime();
    runtime.register_session("thread-1".to_string(), None, "/tmp".to_string());
    runtime.note_turn_started("turn-2");
    let payload = steer(&mut runtime, steer_request("turn-1", "hello", "abc"));
    assert_eq!(payload.outcome, ApplySteerResult::RejectedStaleTurn);
    assert_eq!(payload.actual_turn_id.as_deref(), Some("turn-2"));
}

#[test]
fn apply_steer_rejects_duplicate_idempotency_keys() {
    let mut runtime = runtime();
    runtime.register_session("thread-1".to_string(), None, "/tmp".to_string());
    runtime.note_turn_started("turn-1");

    let first = steer(&mut runtime, steer_request("turn-1", "hello", "abc"));
    assert_eq!(first.outcome, ApplySteerResult::Applied);

    let second = steer(&mut runtime, steer_request("turn-1", "hello", "abc"));
    assert_eq!(second.outcome, ApplySteerResult::Duplicate);
    assert_eq!(second.turn_id.as_deref(), Some("turn-1"));
}

#[test]
fn apply_steer_rejects_empty_text() {
    let mut runtime = runtime();
    runtime.register_session("thread-1".to_string(), None, "/tmp".to_string());
    runtime.note_turn_started("turn-1");
    let payload = steer(&mut runtime, steer_request("turn-1", "", "abc"));
    assert_eq!(payload.outcome, ApplySteerResult::Error);
    assert_eq!(payload.message.as_deref(), Some("text must not be empty"));
    // The key was not kept: the same key with text goes through.
    let retry = steer(&mut runtime, steer_request("turn-1", "hello", "abc"));
    assert_eq!(retry.outcome, ApplySteerResult::Applied);
}

#[test]
fn apply_steer_surfaces_delegate_turn_mismatch() {
    let mut runtime = runtime();
    runtime.register_session("thread-1".to_string(), None, "/tmp".to_string());
    runtime.note_turn_started("turn-1");
    let mut calls = Vec::new();
    let response = handle(
        &mut runtime,
        Request::ApplySteer(steer_request("turn-1", "hello", "abc")),
        Err(SteerError::ExpectedTurnMismatch { actual_turn_id: "turn-2".to_string() }),
        &mut calls,
    );
    let Response::ApplySteer { payload } = response else {
        panic!("expected apply-steer response");
    };
    assert_eq!(payload.outcome, ApplySteerResult::RejectedStaleTurn);
    assert_eq!(payload.actual_turn_id.as_deref(), Some("turn-2"));
}

#[test]
fn delegate_failures_release_the_key() {
    let mut runtime = runtime();
    runtime.register_session("thread-1".to_string(), None, "/tmp".to_string());
    runtime.note_turn_started("turn-1");
    let mut calls = Vec::new();
    let failed = handle(
        &mut runtime,
        Request::ApplySteer(steer_request("turn-1", "hello", "abc")),
        Err(SteerError::Error("boom".to_string())),
        &mut calls,
    );
    assert_eq!(
        failed,
        Response::ApplySteer {
            payload: ApplySteerPayload {
                outcome: ApplySteerResult::Error,
                turn_id: Some("turn-1".to_string()),
                actual_turn_id: None,
                message: Some("boom".to_string()),
            }
        }
    );
    let no_turn = handle(
        &mut runtime,
        Request::ApplySteer(steer_request("turn-1", "hello", "abc")),
        Err(SteerError::NoActiveTurn),
        &mut calls,
    );
    assert_eq!(
        no_turn,
        Response::ApplySteer { payload: ApplySteerPayload::new(ApplySteerResult::RejectedNoActiveTurn) }
    );
    let applied = handle(
        &mut runtime,
        Request::ApplySteer(steer_request("turn-1", "hello", "abc")),
        Ok("turn-1".to_string()),
        &mut calls,
    );
    let Response::ApplySteer { payload } = applied else {
        panic!("expected apply-steer response");
    };
    assert_eq!(payload.outcome, ApplySteerResult::Applied);
    assert_eq!(calls.len(), 3);
    assert_eq!(calls[0].thread_id, "thread-1");
    assert_eq!(calls[0].expected_turn_id, "turn-1");
    assert_eq!(calls[0].text, "hello");
    assert_eq!(calls[0].idempotency_key, "abc");
}

#[test]
fn a_new_turn_forgets_keys() {
    let mut runtime = runtime();
    runtime.register_session("thread-1".to_string(), None, "/tmp".to_string());
    runtime.note_turn_started("turn-1");
    assert_eq!(steer(&mut runtime, steer_request("turn-1", "hi", "k")).outcome, ApplySteerResult::Applied);
    runtime.note_turn_finished(Some("turn-1"), FinishedTurnStatus::Completed);
    assert_eq!(
        steer(&mut runtime, steer_request("turn-1", "hi", "k")).outcome,
        ApplySteerResult::RejectedNoActiveTurn
    );
    runtime.note_turn_started("turn-1");
    assert_eq!(steer(&mut runtime, steer_request("turn-1", "hi", "k")).outcome, ApplySteerResult::Applied);
}

#[test]
fn finishing_another_turn_keeps_the_active_one() {
    let mut runtime = runtime();
    runtime.register_session("thread-1".to_string(), None, "/tmp".to_string());
    runtime.note_turn_started("turn-1");
    runtime.note_turn_finished(Some("turn-0"), FinishedTurnStatus::Aborted);
    assert_eq!(runtime.current_turn().map(|t| t.turn_id), Some("turn-1".to_string()));
    runtime.note_turn_finished(None, FinishedTurnStatus::Interrupted);
    assert_eq!(runtime.current_turn(), None);
}

#[test]
fn snapshot_reports_everything() {
    let mut runtime = runtime();
    runtime.register_session("thread-1".to_string(), Some("demo".to_string()), "/tmp/project".to_string());
    runtime.note_turn_started("turn-7");
    let snapshot = runtime.snapshot();
    assert_eq!(snapshot.instance_id, *runtime.instance_id());
    assert_eq!(snapshot.socket_path, *runtime.socket_path());
    let session = snapshot.session.expect("session");
    assert_eq!(session.thread_id, "thread-1");
    assert_eq!(session.thread_name.as_deref(), Some("demo"));
    assert_eq!(session.cwd, "/tmp/project");
    assert_eq!(snapshot.active_turn.expect("turn").turn_id, "turn-7");
}

#[test]
fn socket_path_generation_uses_instance_id() {
    let runtime = runtime();
    let socket_path = runtime.socket_path();
    let path = Path::new(socket_path.as_str());
    assert_eq!(path.parent(), Some(Path::new(IPC_DIR)));
    assert_eq!(path.extension().and_then(|ext| ext.to_str()), Some("sock"));
    let stem = path.file_stem().and_then(|s| s.to_str()).expect("stem");
    assert_eq!(stem, &runtime.instance_id()[..12]);
}

#[test]
fn socket_file_name_takes_twelve_characters() {
    assert_eq!(socket_file_name("0123456789abcdef"), "0123456789ab.sock");
    assert_eq!(socket_file_name("short"), "short.sock");
    assert_eq!(socket_file_name("ééééééééééééé"), "éééééééééééé.sock");
    assert_eq!(socket_path("/ipc", "0123456789abcdef"), "/ipc/0123456789ab.sock");
}

#[test]
fn error_responses_carry_messages() {
    assert_eq!(
        empty_request_response(),
        Response::Error { payload: ErrorPayload { message: "request must not be empty".to_string() } }
    );
    assert_eq!(
        invalid_request_response("expected value"),
        Response::Error {
            payload: ErrorPayload { message: "invalid control-plane request: expected value".to_string() }
        }
    );
}

#[test]
fn apply_steer_payload_is_read_from_responses() {
    let payload = ApplySteerPayload::new(ApplySteerResult::Duplicate);
    assert_eq!(
        apply_steer_payload_from_response(Response::ApplySteer { payload: payload.clone() }),
        payload
    );
    assert_eq!(
        apply_steer_payload_from_response(invalid_request_response("x")).message.as_deref(),
        Some("invalid control-plane request: x")
    );
    let unexpected = apply_steer_payload_from_response(Response::CurrentTurn { payload: None });
    assert_eq!(unexpected.outcome, ApplySteerResult::Error);
    assert_eq!(unexpected.message.as_deref(), Some("unexpected control-plane response"));
}

#[test]
fn request_text_is_trimmed_then_parsed() {
    assert_eq!(read_request_text("  \n\t "), RequestText::Answer(empty_request_response()));
    assert_eq!(read_request_text(" {\"type\":\"status\"}\n"), RequestText::Parse("{\"type\":\"status\"}".to_string()));
    assert_eq!(parsed_request(Ok(Request::Status)), Ok(Request::Status));
    assert_eq!(
        parsed_request(Err("expected value at line 1 column 1".to_string())),
        Err(invalid_request_response("expected value at line 1 column 1"))
    );
}

#[test]
fn metadata_is_logged_as_sorted_key_names() {
    let object: serde_json::Value =
        serde_json::from_str(r#"{"zeta": 1, "alpha": {"secret": "x"}, "Mid": true}"#).expect("json");
    assert_eq!(
        metadata_keys(&Some(object)),
        Some(vec!["Mid".to_string(), "alpha".to_string(), "zeta".to_string()])
    );
    let list: serde_json::Value = serde_json::from_str("[1, 2]").expect("json");
    assert_eq!(metadata_keys(&Some(list)), None);
    assert_eq!(metadata_keys(&None), None);
    assert_eq!(
        sorted_distinct(&vec!["b".to_string(), "a".to_string(), "b".to_string()]),
        vec!["a".to_string(), "b".to_string()]
    );
}

#[test]
fn identity_survives_a_run_of_changes() {
    let mut state = runtime();
    let id = state.instance_id().clone();
    let path = state.socket_path().clone();
    state.register_session("thread-1".to_string(), None, "/work".to_string());
    state.note_turn_started("turn-1");
    let _ = steer(&mut state, steer_request("turn-1", "hello", "k1"));
    state.note_turn_finished(Some("turn-1"), FinishedTurnStatus::Completed);
    state.clear_session("bye");
    state.register_session("thread-2".to_string(), None, "/work".to_string());
    state.note_turn_started("turn-2");
    let snapshot = state.snapshot();
    assert_eq!(snapshot.instance_id, id);
    assert_eq!(snapshot.socket_path, path);
    assert_eq!(snapshot.launch_kind, config().launch_kind);
    let session = snapshot.session.expect("session");
    assert_eq!(session.launch_kind, config().launch_kind);
    assert_eq!(snapshot.active_turn.expect("turn").status, TurnStatus::InProgress);
}

#[test]
fn socket_paths_join_the_directory_and_the_file_name() {
    assert_eq!(socket_path("/ipc/", "0123456789abcdef"), "/ipc/0123456789ab.sock");
    assert_eq!(socket_path("relative/dir", "abc"), "relative/dir/abc.sock");
    assert_eq!(socket_path("", "abc"), "abc.sock");
}
