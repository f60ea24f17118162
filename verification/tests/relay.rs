use codex_control_plane::protocol::{ApplySteerPayload, ApplySteerResult, LaunchKind, Request};
use codex_control_plane::relay::{
    decode_failed_warning, finish_receipt, format_channel_steer_message, plan_receipt,
    receipt_send_failed_warning, relay_start, resolve_channel_steer_message_template,
    validate_channel_steer_message_template, ReceiptStep, RelayConnection,
    DEFAULT_CHANNEL_STEER_MESSAGE_TEMPLATE, INITIAL_BACKOFF_MS, MAX_BACKOFF_MS,
};
use codex_control_plane::state::{ControlPlaneConfig, ControlPlaneState, RequestOutcome};

#[test]
fn format_channel_steer_message_single_line() {
    assert_eq!(
        format_channel_steer_message(DEFAULT_CHANNEL_STEER_MESSAGE_TEMPLATE, "ops", "hello world"),
        "You have received a message from another Codex instance in the channel #ops. Please continue working after reading this message. You do not need to stop.\n\nContents of the message:\n> hello world"
    );
}

#[test]
fn format_channel_steer_message_multiline() {
    assert_eq!(
        format_channel_steer_message(DEFAULT_CHANNEL_STEER_MESSAGE_TEMPLATE, "ops", "line one\nline two"),
        "You have received a message from another Codex instance in the channel #ops. Please continue working after reading this message. You do not need to stop.\n\nContents of the message:\n> line one\n> line two"
    );
}

#[test]
fn format_channel_steer_message_preserves_blank_lines() {
    assert_eq!(
        format_channel_steer_message(
            DEFAULT_CHANNEL_STEER_MESSAGE_TEMPLATE,
            "ops",
            "line one\n\nline three"
        ),
        "You have received a message from another Codex instance in the channel #ops. Please continue working after reading this message. You do not need to stop.\n\nContents of the message:\n> line one\n>\n> line three"
    );
}

#[test]
fn format_channel_steer_message_preserves_whitespace() {
    assert_eq!(
        format_channel_steer_message(
            DEFAULT_CHANNEL_STEER_MESSAGE_TEMPLATE,
            "ops",
            "  padded  \ntrailing  "
        ),
        "You have received a message from another Codex instance in the channel #ops. Please continue working after reading this message. You do not need to stop.\n\nContents of the message:\n>   padded  \n> trailing  "
    );
}

#[test]
fn format_channel_steer_message_edge_cases() {
    assert_eq!(format_channel_steer_message("{channel}:{contents}", "c", ""), "c:>");
    assert_eq!(format_channel_steer_message("{channel}:{contents}", "c", "\n"), "c:>\n>");
    assert_eq!(
        format_channel_steer_message("{contents}{channel}{contents}", "ch", "x"),
        "> xch> x"
    );
    // The channel is substituted first, so a channel name that holds the
    // contents placeholder gets it replaced too.
    assert_eq!(format_channel_steer_message("{channel}|{contents}", "{contents}", "y"), "> y|> y");
}

#[test]
fn resolve_channel_steer_message_template_accepts_default_template() {
    assert_eq!(
        resolve_channel_steer_message_template(None).as_deref(),
        Ok(DEFAULT_CHANNEL_STEER_MESSAGE_TEMPLATE)
    );
}

#[test]
fn resolve_channel_steer_message_template_rejects_missing_channel_placeholder() {
    let expected = "missing required placeholder `{channel}`".to_string();
    assert_eq!(
        resolve_channel_steer_message_template(Some("Hello\n{contents}")).as_deref(),
        Err(&expected)
    );
}

#[test]
fn resolve_channel_steer_message_template_rejects_missing_contents_placeholder() {
    let expected = "missing required placeholder `{contents}`".to_string();
    assert_eq!(
        resolve_channel_steer_message_template(Some("Hello #{channel}")).as_deref(),
        Err(&expected)
    );
}

#[test]
fn resolve_channel_steer_message_template_rejects_unknown_placeholder() {
    let expected = "unsupported placeholder `{oops}` in steer_message_template".to_string();
    assert_eq!(
        resolve_channel_steer_message_template(Some("{channel}\n{contents}\n{oops}")).as_deref(),
        Err(&expected)
    );
}

#[test]
fn resolve_channel_steer_message_template_allows_repeated_placeholders() {
    assert_eq!(
        resolve_channel_steer_message_template(Some("{channel}\n{contents}\n{channel}")).as_deref(),
        Ok("{channel}\n{contents}\n{channel}")
    );
}

#[test]
fn validate_template_reports_brace_errors() {
    assert_eq!(
        validate_channel_steer_message_template("{channel}{contents}{"),
        Err("unterminated placeholder in steer_message_template".to_string())
    );
    assert_eq!(
        validate_channel_steer_message_template("{channel}}{contents}"),
        Err("unmatched `}` in steer_message_template".to_string())
    );
    assert_eq!(
        validate_channel_steer_message_template("{chan{channel}{contents}"),
        Err("unsupported placeholder `{chan{channel}` in steer_message_template".to_string())
    );
    assert_eq!(validate_channel_steer_message_template("a {channel} b {contents} c"), Ok(()));
}

fn test_control_plane() -> ControlPlaneState {
    let mut control_plane = ControlPlaneState::for_new_instance(ControlPlaneConfig {
        feature_enabled: true,
        consent_accepted: true,
        steering_enabled: true,
        ipc_dir: "/tmp/relay-test/instances".to_string(),
        launch_kind: LaunchKind::Fresh,
    });
    control_plane.register_session(
        "thread-1".to_string(),
        Some("demo".to_string()),
        "/tmp/project".to_string(),
    );
    control_plane.note_turn_started("turn-1");
    control_plane
}

#[test]
fn build_receipt_uses_templated_steer_text() {
    let mut control_plane = test_control_plane();
    let metadata: serde_json::Value =
        serde_json::from_str(r#"{"channel":"ops","messageId":"msg-1","serverMetadata":{"source":"test"}}"#)
            .expect("json");

    let step = plan_receipt(
        control_plane.current_turn(),
        DEFAULT_CHANNEL_STEER_MESSAGE_TEMPLATE,
        "msg-1",
        "ops",
        "hello\n\nworld",
        Some(metadata.clone()),
    );
    let ReceiptStep::Steer { request, turn_id } = step else {
        panic!("expected a steering request");
    };
    assert_eq!(request.metadata, Some(metadata));
    let RequestOutcome::Steer(call) = control_plane.handle_request(Request::ApplySteer(request)) else {
        panic!("expected a delegate call");
    };
    assert_eq!(call.thread_id, "thread-1");
    assert_eq!(call.expected_turn_id, "turn-1");
    assert_eq!(
        call.text,
        "You have received a message from another Codex instance in the channel #ops. Please continue working after reading this message. You do not need to stop.\n\nContents of the message:\n> hello\n>\n> world"
    );
    let payload = control_plane.finish_apply_steer(&call, Ok("turn-1".to_string()));
    let receipt = finish_receipt("msg-1", turn_id, payload);

    assert_eq!(receipt.kind, "message_result");
    assert_eq!(receipt.message_id, "msg-1");
    assert_eq!(receipt.outcome, "steered");
    assert_eq!(receipt.turn_id, Some("turn-1".to_string()));
    assert_eq!(receipt.detail, None);
}

#[test]
fn receipts_follow_the_steer_outcome() {
    let mut control_plane = test_control_plane();
    control_plane.clear_session("done");
    let ReceiptStep::Done(skipped) =
        plan_receipt(control_plane.current_turn(), "{channel}{contents}", "m", "c", "t", None)
    else {
        panic!("expected a skip");
    };
    assert_eq!(skipped.outcome, "skipped_no_active_turn");
    assert_eq!(skipped.turn_id, None);

    let duplicate = finish_receipt("m", "turn-9".to_string(), ApplySteerPayload::new(ApplySteerResult::Duplicate));
    assert_eq!(duplicate.outcome, "steered");
    assert_eq!(duplicate.turn_id.as_deref(), Some("turn-9"));

    let stale = finish_receipt(
        "m",
        "turn-9".to_string(),
        ApplySteerPayload {
            outcome: ApplySteerResult::RejectedStaleTurn,
            turn_id: None,
            actual_turn_id: Some("turn-10".to_string()),
            message: None,
        },
    );
    assert_eq!(stale.outcome, "skipped_stale_turn");
    assert_eq!(stale.turn_id.as_deref(), Some("turn-10"));

    let error = finish_receipt(
        "m",
        "turn-9".to_string(),
        ApplySteerPayload {
            outcome: ApplySteerResult::RejectedNotAuthorized,
            turn_id: None,
            actual_turn_id: None,
            message: Some("nope".to_string()),
        },
    );
    assert_eq!(error.outcome, "error");
    assert_eq!(error.detail.as_deref(), Some("nope"));
    assert_eq!(error.kind, "message_result");

    let no_turn = finish_receipt("m", "turn-9".to_string(), ApplySteerPayload::new(ApplySteerResult::RejectedNoActiveTurn));
    assert_eq!(no_turn.outcome, "skipped_no_active_turn");
}

#[test]
fn invalid_template_prevents_wrapper_start_and_emits_warning() {
    let started = relay_start(Some("Hello {channel}"));
    assert_eq!(started.is_err(), true);
    assert_eq!(
        started.unwrap_err(),
        "channel wrapper disabled because control_plane.steer_message_template is invalid: missing required placeholder `{contents}`"
    );
    assert_eq!(relay_start(None).as_deref(), Ok(DEFAULT_CHANNEL_STEER_MESSAGE_TEMPLATE));
}

#[test]
fn relay_backoff_doubles_up_to_the_cap_and_resets() {
    let mut relay = RelayConnection::new(vec!["ops".to_string()]);
    assert_eq!(relay.retry_delay_ms(), INITIAL_BACKOFF_MS);
    let mut waits = Vec::new();
    for _ in 0..7 {
        waits.push(relay.retry_delay_ms());
        relay.on_retry();
    }
    assert_eq!(waits, vec![250, 500, 1000, 2000, 4000, 5000, 5000]);
    assert_eq!(relay.retry_delay_ms(), MAX_BACKOFF_MS);
    relay.on_connected();
    assert_eq!(relay.retry_delay_ms(), 250);
    let (warning, wait) = relay.on_hello_failed("broken pipe");
    assert_eq!(warning, "failed to send wrapper hello: broken pipe");
    assert_eq!(wait, 250);
    assert_eq!(relay.retry_delay_ms(), 500);
}

#[test]
fn relay_warns_once_per_outage() {
    let mut relay = RelayConnection::new(vec![]);
    assert_eq!(
        relay.on_connect_failed("refused").as_deref(),
        Some("failed to connect channel wrapper: refused")
    );
    assert_eq!(relay.on_connect_failed("refused"), None);
    assert_eq!(relay.on_stream_error("reset"), None);
    relay.on_connected();
    assert_eq!(relay.on_stream_closed(), None);
    relay.on_subscribed();
    assert_eq!(
        relay.on_stream_closed().as_deref(),
        Some("channel wrapper disconnected; reconnecting in background")
    );
    assert_eq!(relay.on_stream_closed(), None);
    relay.on_connected();
    assert_eq!(
        relay.on_stream_error("reset").as_deref(),
        Some("channel wrapper websocket error: reset")
    );
    relay.update_channels(vec!["a".to_string(), "b".to_string()]);
    assert_eq!(relay.channels(), &vec!["a".to_string(), "b".to_string()]);
    assert_eq!(receipt_send_failed_warning("x"), "failed to send wrapper receipt: x");
    assert_eq!(decode_failed_warning("y"), "failed to decode wrapper message: y");
}
