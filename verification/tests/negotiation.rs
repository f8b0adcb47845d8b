use halcyon::errors::SetupError;
use halcyon::ws::{
    run_negotiation, parse_ws_response, Negotiator, NegotiationState, WsAuthRequest,
    WsLongLivedAccessTokenRequest,
};

const AUTH_REQUIRED: &str = "{\"type\": \"auth_required\", \"ha_version\": \"2021.5.3\"}";
const AUTH_OK: &str = "{\"type\": \"auth_ok\", \"ha_version\": \"2021.5.3\"}";

#[test]
fn negotiation_happy_path() {
    let msgs: Vec<String> = vec![
        AUTH_REQUIRED.to_string(),
        AUTH_OK.to_string(),
        "{\"id\": 11, \"type\": \"result\", \"success\": true, \"result\": \"abc123\"}".to_string(),
    ];
    let run = run_negotiation("short-lived".to_string(), &msgs);
    assert_eq!(run.outcome, Ok("abc123".to_string()));
    assert_eq!(
        run.sent,
        vec![
            "{\"type\":\"auth\",\"access_token\":\"short-lived\"}".to_string(),
            "{\"id\":11,\"type\":\"auth/long_lived_access_token\",\"client_name\":\"Halcyon\",\"lifespan\":365}"
                .to_string(),
        ]
    );
}

#[test]
fn negotiation_auth_rejection() {
    let msgs: Vec<String> = vec![
        AUTH_REQUIRED.to_string(),
        "{\"type\": \"auth_invalid\", \"message\": \"denied\"}".to_string(),
    ];
    let run = run_negotiation("short-lived".to_string(), &msgs);
    match run.outcome {
        Err(SetupError::AuthRejected(m)) => assert_eq!(m, "denied"),
        other => panic!("expected an auth rejection, got {:?}", other),
    }
    assert_eq!(run.sent.len(), 1);
}

#[test]
fn negotiation_auth_rejection_without_message() {
    let msgs: Vec<String> =
        vec![AUTH_REQUIRED.to_string(), "{\"type\": \"auth_invalid\"}".to_string()];
    let run = run_negotiation("short-lived".to_string(), &msgs);
    assert_eq!(run.outcome, Err(SetupError::AuthRejected(String::new())));
}

#[test]
fn negotiation_id_mismatch_fails_without_hanging() {
    let msgs: Vec<String> = vec![
        AUTH_REQUIRED.to_string(),
        AUTH_OK.to_string(),
        "{\"id\": 12, \"type\": \"result\", \"success\": true, \"result\": \"abc123\"}".to_string(),
    ];
    let run = run_negotiation("short-lived".to_string(), &msgs);
    match run.outcome {
        Err(SetupError::Protocol(m)) => assert_eq!(m, "result for an unexpected command id"),
        other => panic!("expected a protocol error, got {:?}", other),
    }
}

#[test]
fn negotiation_unsuccessful_result_fails() {
    let msgs: Vec<String> = vec![
        AUTH_REQUIRED.to_string(),
        AUTH_OK.to_string(),
        "{\"id\": 11, \"type\": \"result\", \"success\": false}".to_string(),
    ];
    let run = run_negotiation("short-lived".to_string(), &msgs);
    match run.outcome {
        Err(SetupError::Protocol(m)) => assert!(m.contains("already has been created")),
        other => panic!("expected a protocol error, got {:?}", other),
    }
}

#[test]
fn negotiation_unrecognized_message_fails() {
    let msgs: Vec<String> =
        vec![AUTH_REQUIRED.to_string(), "{\"type\": \"pong\"}".to_string()];
    let run = run_negotiation("short-lived".to_string(), &msgs);
    match run.outcome {
        Err(SetupError::Protocol(m)) => assert_eq!(m, "unexpected negotiation message"),
        other => panic!("expected a protocol error, got {:?}", other),
    }
}

#[test]
fn negotiation_malformed_message_fails() {
    let msgs: Vec<String> = vec!["not json at all".to_string()];
    let run = run_negotiation("short-lived".to_string(), &msgs);
    match run.outcome {
        Err(SetupError::Protocol(m)) => assert_eq!(m, "malformed negotiation message"),
        other => panic!("expected a protocol error, got {:?}", other),
    }
}

#[test]
fn negotiation_out_of_frames_is_a_transport_error() {
    let msgs: Vec<String> = vec![AUTH_REQUIRED.to_string()];
    let run = run_negotiation("short-lived".to_string(), &msgs);
    match run.outcome {
        Err(SetupError::Transport(m)) => {
            assert_eq!(m, "connection closed during negotiation")
        }
        other => panic!("expected a transport error, got {:?}", other),
    }
}

#[test]
fn auth_payload_escapes_the_token() {
    let req = WsAuthRequest::new("a\"b\\c\nd".to_string());
    assert_eq!(req.to_json(), "{\"type\":\"auth\",\"access_token\":\"a\\\"b\\\\c\\nd\"}");
}

#[test]
fn issue_request_is_the_fixed_frame() {
    let req = WsLongLivedAccessTokenRequest::new();
    assert_eq!(req.id, 11);
    assert_eq!(req.lifespan, 365);
    assert_eq!(req.client_name, "Halcyon");
    assert_eq!(
        req.to_json(),
        "{\"id\":11,\"type\":\"auth/long_lived_access_token\",\"client_name\":\"Halcyon\",\"lifespan\":365}"
    );
}

#[test]
fn result_frame_parses_into_the_response_record() {
    let resp = parse_ws_response(
        "{\"id\": 11, \"type\": \"result\", \"success\": true, \"result\": \"tok\"}",
    )
    .expect("must parse");
    assert_eq!(resp.id, 11);
    assert_eq!(resp.command_type, "result");
    assert!(resp.success);
    assert_eq!(resp.result.as_deref(), Some("tok"));

    let none = parse_ws_response(
        "{\"id\": 11, \"type\": \"result\", \"success\": false, \"result\": null}",
    )
    .expect("must parse");
    assert!(!none.success);
    assert!(none.result.is_none());

    assert!(parse_ws_response("{\"type\": \"result\"}").is_none());
    assert!(parse_ws_response("{\"id\": 99999999999, \"type\": \"result\", \"success\": true}")
        .is_none());
    assert!(parse_ws_response("[1, 2]").is_none());
}

#[test]
fn stepping_a_terminal_negotiator_changes_nothing() {
    let mut neg = Negotiator::new("tok".to_string());
    assert!(neg.step("{\"type\": \"auth_required\"}").is_some());
    assert!(neg.step("{\"type\": \"auth_invalid\", \"message\": \"denied\"}").is_none());
    assert!(neg.is_terminal());
    assert!(neg.step(AUTH_REQUIRED).is_none());
    match neg.state {
        NegotiationState::Failed(SetupError::AuthRejected(m)) => assert_eq!(m, "denied"),
        other => panic!("unexpected state {:?}", other),
    }
}

#[test]
fn result_frame_decodes_string_escapes() {
    let resp = parse_ws_response(
        "{\"id\": 11, \"type\": \"result\", \"success\": true, \"result\": \"a\\/b\\n\\\"c\"}",
    )
    .expect("must parse");
    assert_eq!(resp.result.as_deref(), Some("a/b\n\"c"));
}

#[test]
fn frames_tolerate_surrounding_whitespace() {
    let msgs: Vec<String> = vec![
        "  {\"type\" : \"auth_required\"}  ".to_string(),
        "{ \"type\": \"auth_ok\" }".to_string(),
        "{\"id\":11,\"type\":\"result\",\"success\":true,\"result\":\"t\"}".to_string(),
    ];
    let run = run_negotiation("s".to_string(), &msgs);
    assert_eq!(run.outcome, Ok("t".to_string()));
}
