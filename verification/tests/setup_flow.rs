use halcyon::config::{HaConfig, YamlConfig};
use halcyon::config_yaml::{config_to_yaml, parse_config_yml};
use halcyon::errors::SetupError;
use halcyon::ha_types::RegisterDeviceResponse;

fn record(
    host: &str,
    token: Option<&str>,
    device: Option<&str>,
    webhook: Option<&str>,
) -> YamlConfig {
    YamlConfig {
        ha: HaConfig {
            host: host.to_string(),
            long_lived_token: token.map(|s| s.to_string()),
            device_id: device.map(|s| s.to_string()),
            webhook_id: webhook.map(|s| s.to_string()),
        },
    }
}

#[test]
fn device_id_left_alone_when_present() {
    let mut c = record("hub.local:8123", None, Some("dev-1"), None);
    let before = c.clone();
    let wrote = c.update_device_id_if_needed();
    assert!(!wrote);
    assert_eq!(c, before);
}

#[test]
fn device_id_filled_when_absent() {
    let mut c = record("hub.local:8123", Some("tok"), None, Some("hook"));
    let wrote = c.update_device_id_if_needed();
    assert!(wrote);
    let id = c.ha.device_id.clone().expect("device id must be filled");
    assert_eq!(id.chars().count(), 36);
    for (i, ch) in id.chars().enumerate() {
        if i == 8 || i == 13 || i == 18 || i == 23 {
            assert_eq!(ch, '-');
        } else {
            assert!(ch.is_ascii_hexdigit() && !ch.is_ascii_uppercase());
        }
    }
    assert_eq!(c.ha.host, "hub.local:8123");
    assert_eq!(c.ha.long_lived_token.as_deref(), Some("tok"));
    assert_eq!(c.ha.webhook_id.as_deref(), Some("hook"));
}

#[test]
fn two_fresh_device_ids_differ() {
    let mut a = record("h", None, None, None);
    let mut b = record("h", None, None, None);
    a.update_device_id_if_needed();
    b.update_device_id_if_needed();
    assert_ne!(a.ha.device_id, b.ha.device_id);
}

#[test]
fn long_lived_token_fill_once() {
    let mut c = record("hub.local:8123", None, None, None);
    assert!(c.long_lived_token_flow_needed());
    let wrote = c.update_long_lived_access_token_if_needed("issued-token".to_string());
    assert!(wrote);
    assert_eq!(c.ha.long_lived_token.as_deref(), Some("issued-token"));
    // second run: the flow is not needed and nothing changes
    assert!(!c.long_lived_token_flow_needed());
    let before = c.clone();
    let wrote_again = c.update_long_lived_access_token_if_needed("other-token".to_string());
    assert!(!wrote_again);
    assert_eq!(c, before);
}

#[test]
fn webhook_id_fill_if_absent() {
    let resp = RegisterDeviceResponse {
        cloud_hook_url: None,
        remote_ui_url: None,
        secret: None,
        webhook_id: "hook-9".to_string(),
    };
    let mut c = record("h", None, None, None);
    assert!(c.update_webhook_id_if_needed(&resp));
    assert_eq!(c.ha.webhook_id.as_deref(), Some("hook-9"));
    let before = c.clone();
    assert!(!c.update_webhook_id_if_needed(&resp));
    assert_eq!(c, before);
}

#[test]
fn config_round_trip_all_optionals_absent() {
    let c = record("192.168.1.4:8123", None, None, None);
    let text = config_to_yaml(&c);
    assert_eq!(text, "ha:\n  host: 192.168.1.4:8123\n");
    let back = parse_config_yml(&text).expect("round trip must parse");
    assert_eq!(back, c);
    assert!(back.ha.long_lived_token.is_none());
    assert!(back.ha.device_id.is_none());
    assert!(back.ha.webhook_id.is_none());
}

#[test]
fn config_round_trip_all_fields_present() {
    let c = record("hub:8123", Some("tok.en"), Some("dev"), Some("hook"));
    let text = config_to_yaml(&c);
    assert_eq!(
        text,
        "ha:\n  host: hub:8123\n  long-lived-token: tok.en\n  device-id: dev\n  webhook-id: hook\n"
    );
    let back = parse_config_yml(&text).expect("round trip must parse");
    assert_eq!(back, c);
}

#[test]
fn config_parse_accepts_marker_null_quotes_and_unknown_keys() {
    let text = "---\nha:\n\n  host: \"hub:8123\"\n  long-lived-token: null\n  device-id: ~\n  extra: ignored\n  webhook-id: hook\n";
    let c = parse_config_yml(text).expect("must parse");
    assert_eq!(c.ha.host, "hub:8123");
    assert!(c.ha.long_lived_token.is_none());
    assert!(c.ha.device_id.is_none());
    assert_eq!(c.ha.webhook_id.as_deref(), Some("hook"));
}

#[test]
fn config_parse_last_line_wins() {
    let text = "ha:\n  host: one\n  host: two\n";
    let c = parse_config_yml(text).expect("must parse");
    assert_eq!(c.ha.host, "two");
}

#[test]
fn config_parse_missing_host_is_error() {
    let text = "ha:\n  device-id: dev\n";
    match parse_config_yml(text) {
        Err(SetupError::ConfigIo(_)) => {}
        other => panic!("expected a configuration error, got {:?}", other),
    }
}

#[test]
fn config_parse_missing_header_is_error() {
    match parse_config_yml("host: h\n") {
        Err(SetupError::ConfigIo(_)) => {}
        other => panic!("expected a configuration error, got {:?}", other),
    }
}

#[test]
fn config_parse_stray_line_is_error() {
    match parse_config_yml("ha:\n  host: h\nstray\n") {
        Err(SetupError::ConfigIo(_)) => {}
        other => panic!("expected a configuration error, got {:?}", other),
    }
}

#[test]
fn error_messages_carry_context() {
    assert_eq!(
        SetupError::Bind("port in use".to_string()).message(),
        "could not start server port in use"
    );
    assert_eq!(
        SetupError::MissingCode.message(),
        "callback request carried no authorization code"
    );
    assert_eq!(
        SetupError::Provider {
            error: "invalid_grant".to_string(),
            description: "expired".to_string()
        }
        .message(),
        "Error getting access token from HA Error: invalid_grant Details: expired"
    );
    assert_eq!(
        SetupError::AuthRejected("denied".to_string()).message(),
        "Error authorizing websocket denied"
    );
    assert_eq!(
        SetupError::Refresh.message(),
        "Tried to refresh a long lived access token"
    );
    assert_eq!(
        SetupError::Transport("eof".to_string()).message(),
        "error while waiting for the callback: eof"
    );
    assert_eq!(
        SetupError::Network("no route".to_string()).message(),
        "network error: no route"
    );
    assert_eq!(
        SetupError::Decode("bad json".to_string()).message(),
        "could not decode response: bad json"
    );
    assert_eq!(
        SetupError::Protocol("odd frame".to_string()).message(),
        "protocol error: odd frame"
    );
    assert_eq!(
        SetupError::ConfigIo("no file".to_string()).message(),
        "config file error: no file"
    );
    assert_eq!(SetupError::Config("Missing Webhook ID".to_string()).message(), "Missing Webhook ID");
}
