use codex_control_plane::headers::build_channel_server_http_headers;
use codex_control_plane::prompts::{
    channel_picker, channels_selected, selection_cancelled, ChannelPickerEvent,
    control_plane_consent_prompt, control_plane_create_channel_prompt,
    control_plane_save_channels_prompt, control_plane_server_token_prompt,
    control_plane_server_url_prompt, requests_channel_creation, PromptAction, TextPromptAction,
};
use codex_control_plane::protocol::LaunchKind;
use codex_control_plane::setup::{
    control_plane_config, launch_kind_from_session_selection, merge_available_channels,
    normalize_channel_name, should_prompt_for_control_plane_consent,
    should_prompt_for_control_plane_setup, ControlPlaneConsent, ControlPlaneSettings,
    SessionSelectionKind,
};
use codex_control_plane::relay::{bearer_authorization, websocket_scheme};
use codex_control_plane::server_url::{
    channel_create_status_error, channel_list_status_error, channel_server_endpoint,
    channel_server_websocket_url,
};
use codex_control_plane::text::trim_whitespace;

fn strings(v: &[&str]) -> Vec<String> {
    v.iter().map(|s| s.to_string()).collect()
}

#[test]
fn build_channel_server_http_headers_accepts_custom_headers() {
    let headers = build_channel_server_http_headers(Some(vec![
        ("CF-Access-Client-Id".to_string(), "client-id".to_string()),
        ("CF-Access-Client-Secret".to_string(), "client-secret".to_string()),
    ]))
    .expect("headers");

    assert_eq!(headers.get("cf-access-client-id"), Some(&"client-id".to_string()));
    assert_eq!(headers.get("cf-access-client-secret"), Some(&"client-secret".to_string()));
}

#[test]
fn build_channel_server_http_headers_rejects_reserved_headers() {
    for header_name in ["authorization", "content-type", "host"] {
        let err = build_channel_server_http_headers(Some(vec![(
            header_name.to_string(),
            "reserved".to_string(),
        )]))
        .expect_err("reserved headers should be rejected");

        assert_eq!(
            err,
            format!("control_plane.http_headers cannot override reserved header `{header_name}`")
        );
    }
    let err = build_channel_server_http_headers(Some(vec![("Host".to_string(), "x".to_string())]))
        .expect_err("reserved headers should be rejected");
    assert_eq!(err, "control_plane.http_headers cannot override reserved header `Host`");
}

#[test]
fn build_channel_server_http_headers_rejects_invalid_header_name() {
    let err = build_channel_server_http_headers(Some(vec![(
        "bad header".to_string(),
        "value".to_string(),
    )]))
    .expect_err("invalid header name should be rejected");

    assert_eq!(
        err,
        "control_plane.http_headers contains invalid header name `bad header`: invalid HTTP header name"
    );
}

#[test]
fn build_channel_server_http_headers_rejects_invalid_value_and_replaces_repeats() {
    let err = build_channel_server_http_headers(Some(vec![("x-a".to_string(), "bad\nvalue".to_string())]))
        .expect_err("invalid value should be rejected");
    assert_eq!(
        err,
        "control_plane.http_headers contains invalid value for `x-a`: failed to parse header value"
    );
    let headers = build_channel_server_http_headers(Some(vec![
        ("X-A".to_string(), "one".to_string()),
        ("x-a".to_string(), "two".to_string()),
    ]))
    .expect("headers");
    assert_eq!(headers.get("x-a"), Some(&"two".to_string()));
    assert_eq!(headers.entries().len(), 1);
    let none = build_channel_server_http_headers(None).expect("headers");
    assert!(none.entries().is_empty());
}

#[test]
fn normalize_channel_name_trims_lowercases_and_checks() {
    assert_eq!(normalize_channel_name("  Ops.Team_1-x \t"), Ok("ops.team_1-x".to_string()));
    assert_eq!(normalize_channel_name("\u{3000} a \u{2028}"), Ok("a".to_string()));
    assert_eq!(normalize_channel_name("   "), Err("Channel name cannot be empty.".to_string()));
    assert_eq!(
        normalize_channel_name("bad name"),
        Err("Channel names may only contain lowercase letters, numbers, '.', '_' and '-'.".to_string())
    );
    assert_eq!(
        normalize_channel_name("ÉCOLE"),
        Err("Channel names may only contain lowercase letters, numbers, '.', '_' and '-'.".to_string())
    );
    let once = normalize_channel_name(" Research ").expect("valid");
    assert_eq!(normalize_channel_name(&once), Ok(once.clone()));
    assert_eq!(trim_whitespace("\n x y \r"), "x y");
}

#[test]
fn merge_available_channels_sorts_and_dedups() {
    let merged = merge_available_channels(&strings(&["ops", "alpha", "ops"]), &strings(&["zeta", "alpha", "Beta"]));
    assert_eq!(merged, strings(&["Beta", "alpha", "ops", "zeta"]));
    let swapped = merge_available_channels(&strings(&["zeta", "alpha", "Beta"]), &strings(&["ops", "alpha", "ops"]));
    assert_eq!(merged, swapped);
    assert!(merge_available_channels(&vec![], &vec![]).is_empty());
    assert_eq!(merge_available_channels(&strings(&["b", "ab", "a"]), &vec![]), strings(&["a", "ab", "b"]));
}

fn settings() -> ControlPlaneSettings {
    ControlPlaneSettings {
        enabled: true,
        consent: None,
        steering_enabled: true,
        ipc_dir: "/home/u/.codex/control-plane/instances".to_string(),
        server_url: None,
        server_token: None,
    }
}

#[test]
fn consent_and_setup_prompts_follow_settings() {
    assert!(should_prompt_for_control_plane_consent(&settings()));
    assert!(should_prompt_for_control_plane_consent(&ControlPlaneSettings {
        consent: Some(ControlPlaneConsent::Declined),
        ..settings()
    }));
    let accepted = ControlPlaneSettings { consent: Some(ControlPlaneConsent::Accepted), ..settings() };
    assert!(!should_prompt_for_control_plane_consent(&accepted));
    assert!(!should_prompt_for_control_plane_consent(&ControlPlaneSettings { enabled: false, ..settings() }));
    assert!(!should_prompt_for_control_plane_setup(&settings()));
    assert!(should_prompt_for_control_plane_setup(&accepted));
    assert!(should_prompt_for_control_plane_setup(&ControlPlaneSettings {
        server_url: Some("http://127.0.0.1:3000".to_string()),
        ..accepted.clone()
    }));
    assert!(!should_prompt_for_control_plane_setup(&ControlPlaneSettings {
        server_url: Some("http://127.0.0.1:3000".to_string()),
        server_token: Some("t".to_string()),
        ..accepted.clone()
    }));
    let config = control_plane_config(&accepted, LaunchKind::Resume);
    assert!(config.feature_enabled && config.consent_accepted && config.steering_enabled);
    assert_eq!(config.ipc_dir, accepted.ipc_dir);
    assert_eq!(config.launch_kind, LaunchKind::Resume);
    assert!(!control_plane_config(&settings(), LaunchKind::Fresh).consent_accepted);
}

#[test]
fn launch_kinds_follow_session_selection() {
    assert_eq!(launch_kind_from_session_selection(SessionSelectionKind::StartFresh), LaunchKind::Fresh);
    assert_eq!(launch_kind_from_session_selection(SessionSelectionKind::Exit), LaunchKind::Fresh);
    assert_eq!(launch_kind_from_session_selection(SessionSelectionKind::Resume), LaunchKind::Resume);
    assert_eq!(launch_kind_from_session_selection(SessionSelectionKind::Fork), LaunchKind::Fork);
}

#[test]
fn prompts_say_what_they_do() {
    let consent = control_plane_consent_prompt();
    assert_eq!(consent.title, "Local control-plane access");
    assert_eq!(consent.items.len(), 2);
    assert_eq!(consent.items[0].action, PromptAction::ConsentSelected(ControlPlaneConsent::Accepted));
    assert_eq!(consent.on_cancel, PromptAction::ConsentSelected(ControlPlaneConsent::Declined));

    let save = control_plane_save_channels_prompt(&strings(&["ops", "research"]));
    assert_eq!(save.subtitle, "Use ops, research for this run only, or also save them for future runs.");
    let none = control_plane_save_channels_prompt(&vec![]);
    assert_eq!(none.subtitle, "Use no channels for this run only, or also save them for future runs.");
    assert_eq!(none.items[1].action, PromptAction::SaveChannelSelection(false));

    assert_eq!(control_plane_server_url_prompt().on_submit, TextPromptAction::ServerUrlSubmitted);
    assert_eq!(control_plane_server_token_prompt().title, "Channel server token");
    assert_eq!(
        control_plane_create_channel_prompt().context_label.as_deref(),
        Some("Allowed: lowercase letters, numbers, '.', '_' and '-'.")
    );
}

#[test]
fn channel_picker_ticks_selected_channels() {
    let picker = channel_picker(&strings(&["ops", "research", "misc"]), &strings(&["misc", "ops", "gone"]));
    assert_eq!(picker.title, "Channel subscriptions");
    let ticks: Vec<(String, bool)> = picker.items.iter().map(|i| (i.id.clone(), i.enabled)).collect();
    assert_eq!(
        ticks,
        vec![("ops".to_string(), true), ("research".to_string(), false), ("misc".to_string(), true)]
    );
    assert!(requests_channel_creation('c'));
    assert!(requests_channel_creation('C'));
    assert!(!requests_channel_creation('x'));
}

#[test]
fn server_endpoints_join_and_switch_to_websocket_schemes() {
    let endpoint = channel_server_endpoint("http://127.0.0.1:3000", "/v1/channels").expect("endpoint");
    assert_eq!(endpoint.serialization(), "http://127.0.0.1:3000/v1/channels");
    let ws = channel_server_websocket_url("http://127.0.0.1:3000/base/").expect("ws");
    assert_eq!(ws.serialization(), "ws://127.0.0.1:3000/v1/subscribe");
    let wss = channel_server_websocket_url("https://relay.example").expect("wss");
    assert_eq!(wss.serialization(), "wss://relay.example/v1/subscribe");
    let kept = channel_server_websocket_url("wss://relay.example").expect("wss");
    assert_eq!(kept.into_url().as_str(), "wss://relay.example/v1/subscribe");
    assert_eq!(
        channel_server_websocket_url("ftp://relay.example").err(),
        Some("unsupported server URL scheme `ftp`".to_string())
    );
    assert_eq!(
        channel_server_endpoint("not a url", "/v1/channels").err(),
        Some("invalid server URL `not a url`: relative URL without a base".to_string())
    );
}

#[test]
fn websocket_schemes_and_bearer_values() {
    assert_eq!(websocket_scheme("http"), Ok(Some("ws".to_string())));
    assert_eq!(websocket_scheme("https"), Ok(Some("wss".to_string())));
    assert_eq!(websocket_scheme("ws"), Ok(None));
    assert_eq!(websocket_scheme("wss"), Ok(None));
    assert_eq!(websocket_scheme("ftp"), Err("unsupported server URL scheme `ftp`".to_string()));
    assert_eq!(bearer_authorization("tok"), "Bearer tok");
}

#[test]
fn channel_picker_confirms_cancels_and_requests_creation() {
    let mut picker =
        channel_picker(&strings(&["ops", "research", "misc"]), &strings(&["misc", "ops", "gone"]));
    assert_eq!(
        picker.instructions,
        "Press space to toggle; c to create; enter to confirm; esc to keep current selection"
    );
    assert_eq!(
        picker.confirm(),
        ChannelPickerEvent::ChannelsSelected { channels: strings(&["ops", "misc"]) }
    );
    assert_eq!(picker.cancel(), ChannelPickerEvent::SelectionCancelled);
    assert_eq!(
        picker.on_key('C'),
        Some(ChannelPickerEvent::CreateChannelRequested {
            available_channels: strings(&["ops", "research", "misc"]),
            selected_channels: strings(&["ops", "misc"]),
        })
    );
    assert_eq!(picker.on_key(' '), None);
    picker.items[1].enabled = true;
    picker.items[0].enabled = false;
    assert_eq!(
        picker.confirm(),
        ChannelPickerEvent::ChannelsSelected { channels: strings(&["research", "misc"]) }
    );
    assert_eq!(
        channels_selected(&strings(&["b", "a"])),
        ChannelPickerEvent::ChannelsSelected { channels: strings(&["b", "a"]) }
    );
    assert_eq!(selection_cancelled(), ChannelPickerEvent::SelectionCancelled);
}

#[test]
fn channel_server_status_errors() {
    assert_eq!(channel_list_status_error(200, "200 OK"), None);
    assert_eq!(channel_list_status_error(299, "299"), None);
    assert_eq!(
        channel_list_status_error(404, "404 Not Found").as_deref(),
        Some("channel list request failed: HTTP 404 Not Found")
    );
    assert_eq!(
        channel_list_status_error(199, "199").as_deref(),
        Some("channel list request failed: HTTP 199")
    );
    assert_eq!(channel_create_status_error("ops", 201, "201 Created"), None);
    assert_eq!(
        channel_create_status_error("ops", 500, "500 Internal Server Error").as_deref(),
        Some("channel create request failed for `ops`: HTTP 500 Internal Server Error")
    );
}
