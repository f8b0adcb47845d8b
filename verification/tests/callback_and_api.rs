use halcyon::callback::{build_authorize_url, code_of, handle_callback_request, local_server_host};
use halcyon::errors::SetupError;
use halcyon::ha_api::{
    access_token_form_body, build_register_device_request, client_id, device_already_registered,
    parse_access_token_response, parse_authorization_code, parse_refresh_token,
    parse_register_device_response, HomeAssistantAPI, Token,
};
use halcyon::ha_types::{HaEntityAttribute, HaEntityState};

#[test]
fn callback_with_code_answers_success() {
    let r = handle_callback_request("/callback?code=xyz");
    assert_eq!(r.status, 200);
    assert_eq!(r.body, "Halcyon now authenticated to Home Assistant. You can close this page now.");
    assert_eq!(r.code, Ok("xyz".to_string()));
}

#[test]
fn callback_without_code_answers_failure() {
    let r = handle_callback_request("/callback?state=5");
    assert_eq!(r.status, 500);
    assert_eq!(r.body, "Something went wrong with authenticating Halcyon with Home Assistant");
    assert_eq!(r.code, Err(SetupError::MissingCode));
    let r2 = handle_callback_request("/callback");
    assert_eq!(r2.status, 500);
    assert_eq!(r2.code, Err(SetupError::MissingCode));
}

#[test]
fn code_extraction_decodes_and_takes_the_last() {
    assert_eq!(code_of("/cb?code=a%2Fb+c"), Some("a/b c".to_string()));
    assert_eq!(code_of("/cb?code=first&code=second"), Some("second".to_string()));
    assert_eq!(code_of("/cb?other=1&code=x&more=2"), Some("x".to_string()));
    assert_eq!(code_of("/cb?co%64e=y"), Some("y".to_string()));
    assert_eq!(code_of("/cb"), None);
    assert_eq!(code_of("/cb?codex=1"), None);
    assert_eq!(code_of("/cb?"), None);
}

#[test]
fn authorize_url_is_percent_encoded() {
    let url = build_authorize_url("hub.local:8123", "http://127.0.0.1:8000");
    assert_eq!(
        url,
        "http://hub.local:8123/auth/authorize?client_id=http%3A%2F%2F127.0.0.1%3A8000&redirect_uri=http%3A%2F%2F127.0.0.1%3A8000%2Fcallback"
    );
    assert_eq!(local_server_host(), "127.0.0.1:8000");
}

#[test]
fn token_exchange_form_body_is_form_encoded() {
    assert_eq!(
        access_token_form_body("co de&x", "http://x"),
        "grant_type=authorization_code&code=co+de%26x&client_id=http%3A%2F%2Fx"
    );
}

#[test]
fn token_exchange_success_parses() {
    let t = parse_access_token_response(
        200,
        "{\"access_token\": \"at\", \"expires_in\": 1800, \"refresh_token\": \"rt\", \"token_type\": \"Bearer\"}",
    )
    .expect("must parse");
    assert_eq!(t.access_token, "at");
    assert_eq!(t.expires_in, 1800);
    assert_eq!(t.refresh_token, "rt");
    assert_eq!(t.token_type, "Bearer");
}

#[test]
fn token_exchange_error_surfaces_the_provider() {
    match parse_access_token_response(
        400,
        "{\"error\": \"invalid_grant\", \"error_description\": \"expired code\"}",
    ) {
        Err(SetupError::Provider { error, description }) => {
            assert_eq!(error, "invalid_grant");
            assert_eq!(description, "expired code");
        }
        other => panic!("expected a provider error, got {:?}", other),
    }
}

#[test]
fn token_exchange_garbage_is_a_decode_error() {
    assert!(matches!(parse_access_token_response(200, "nope"), Err(SetupError::Decode(_))));
    assert!(matches!(
        parse_access_token_response(200, "{\"access_token\": \"at\"}"),
        Err(SetupError::Decode(_))
    ));
    assert!(matches!(parse_access_token_response(500, "{}"), Err(SetupError::Decode(_))));
}

#[test]
fn client_state_constructors_and_bearer() {
    let api = HomeAssistantAPI::from_token(
        vec!["http://hub".to_string()],
        "at".to_string(),
        "rt".to_string(),
        1000,
    )
    .expect("always built");
    // the bearer of an OAuth pair is its refresh token
    assert_eq!(api.get_token(), "rt");
    assert!(matches!(api.token, Token::Oauth(_)));

    let api2 = HomeAssistantAPI::from_long_lived_token(
        vec!["http://hub".to_string()],
        "llt".to_string(),
    )
    .expect("always built");
    assert_eq!(api2.get_token(), "llt");
    assert!(api2.webhook_id.is_none());
}

#[test]
fn need_refresh_only_well_past_expiration() {
    let api = HomeAssistantAPI::from_token(
        vec!["http://hub".to_string()],
        "at".to_string(),
        "rt".to_string(),
        1000,
    )
    .expect("always built");
    assert!(!api.need_refresh(999));
    assert!(!api.need_refresh(1000));
    assert!(!api.need_refresh(1010));
    assert!(api.need_refresh(1011));
    let ll = HomeAssistantAPI::from_long_lived_token(
        vec!["http://hub".to_string()],
        "llt".to_string(),
    )
    .expect("always built");
    assert!(!ll.need_refresh(u64::MAX));
}

#[test]
fn from_authorization_code_expires_half_an_hour_out() {
    let api = HomeAssistantAPI::from_authorization_code(
        vec!["http://hub".to_string()],
        "{\"access_token\": \"at\", \"expires_in\": 1800, \"refresh_token\": \"rt\", \"token_type\": \"Bearer\"}",
        5000,
    )
    .expect("must parse");
    match api.token {
        Token::Oauth(o) => {
            assert_eq!(o.token, "at");
            assert_eq!(o.refresh_token, "rt");
            assert_eq!(o.token_expiration, 6800);
        }
        other => panic!("expected an OAuth pair, got {:?}", other),
    }
    assert!(matches!(
        HomeAssistantAPI::from_authorization_code(vec![], "{}", 0),
        Err(SetupError::Decode(_))
    ));
}

#[test]
fn refresh_flow_urls_and_application() {
    let mut api = HomeAssistantAPI::from_token(
        vec!["http://hub/auth/token".to_string()],
        "at".to_string(),
        "r t".to_string(),
        1000,
    )
    .expect("always built");
    assert_eq!(
        api.refresh_request_url().expect("oauth pair refreshes"),
        "http://hub/auth/token?grant_type=refresh_token&client_id=https%3A%2F%2Fhalcyon.casa&refresh_token=r+t"
    );
    api.apply_refresh(
        "{\"access_token\": \"at2\", \"expires_in\": 60, \"token_type\": \"Bearer\"}",
        2000,
    )
    .expect("must apply");
    match &api.token {
        Token::Oauth(o) => {
            assert_eq!(o.token, "at2");
            assert_eq!(o.refresh_token, "r t");
            assert_eq!(o.token_expiration, 2060);
        }
        other => panic!("expected an OAuth pair, got {:?}", other),
    }

    let ll = HomeAssistantAPI::from_long_lived_token(
        vec!["http://hub".to_string()],
        "llt".to_string(),
    )
    .expect("always built");
    assert_eq!(ll.refresh_request_url(), Err(SetupError::Refresh));
    assert_eq!(client_id(), "https://halcyon.casa");
}

#[test]
fn refresh_parse_and_authorization_code_parse() {
    let r = parse_refresh_token(
        "{\"access_token\": \"a\", \"expires_in\": 5, \"token_type\": \"t\"}",
    )
    .expect("must parse");
    assert_eq!((r.access_token.as_str(), r.expires_in, r.token_type.as_str()), ("a", 5, "t"));
    assert!(matches!(parse_refresh_token("{}"), Err(SetupError::Decode(_))));

    let c = parse_authorization_code(
        "{\"access_token\": \"a\", \"expires_in\": 5, \"refresh_token\": \"r\", \"token_type\": \"t\"}",
    )
    .expect("must parse");
    assert_eq!(c.expires_in, 5);
    assert_eq!(c.refresh_token, "r");
}

#[test]
fn registration_urls_and_response() {
    let mut api = HomeAssistantAPI::from_long_lived_token(
        vec!["http://hub".to_string()],
        "llt".to_string(),
    )
    .expect("always built");
    assert_eq!(api.register_device_url(), "http://hub/api/mobile_app/registrations");
    match api.webhook_url() {
        Err(SetupError::Config(m)) => assert_eq!(m, "Missing Webhook ID"),
        other => panic!("expected a missing webhook error, got {:?}", other),
    }
    api.apply_device_registration(
        "{\"cloudhook_url\": null, \"remote_ui_url\": \"http://r\", \"secret\": \"s\", \"webhook_id\": \"wh1\"}",
    )
    .expect("must apply");
    assert_eq!(api.webhook_id.as_deref(), Some("wh1"));
    assert!(api.cloudhook_url.is_none());
    assert_eq!(api.remote_ui_url.as_deref(), Some("http://r"));
    assert_eq!(api.webhook_url().expect("webhook known"), "http://hub/api/webhook/wh1");

    let resp = parse_register_device_response(
        "{\"cloud_hook_url\": \"http://c\", \"webhook_id\": \"wh2\"}",
    )
    .expect("must parse");
    assert_eq!(resp.webhook_id, "wh2");
    assert_eq!(resp.cloud_hook_url.as_deref(), Some("http://c"));
    assert!(resp.remote_ui_url.is_none());
    assert!(resp.secret.is_none());
    assert!(matches!(
        parse_register_device_response("{\"secret\": \"s\"}"),
        Err(SetupError::Decode(_))
    ));
}

#[test]
fn device_lookup_by_friendly_name() {
    let states = vec![
        HaEntityState { attributes: HaEntityAttribute { friendly_name: None } },
        HaEntityState {
            attributes: HaEntityAttribute { friendly_name: Some("kitchen".to_string()) },
        },
    ];
    assert!(device_already_registered(&states, "kitchen"));
    assert!(!device_already_registered(&states, "attic"));
    // a state without a name matches the empty name, as the flow compares
    // against an empty default
    assert!(device_already_registered(&states, ""));
}

#[test]
fn register_device_request_carries_the_fixed_identity() {
    let r = build_register_device_request(
        "dev-1".to_string(),
        "1.0".to_string(),
        "myhost".to_string(),
        "x86_64".to_string(),
        "Linux".to_string(),
        "6.1".to_string(),
    );
    assert_eq!(r.device_id, "dev-1");
    assert_eq!(r.app_id, "HalcyonAppId");
    assert_eq!(r.app_name, "Halcyon");
    assert_eq!(r.manufacturer, "PC");
    assert_eq!(r.device_name, "myhost");
    assert!(!r.supports_encryption);
}

#[test]
fn token_exchange_rejects_oversized_expiry() {
    assert!(matches!(
        parse_access_token_response(
            200,
            "{\"access_token\": \"at\", \"expires_in\": 99999999999, \"refresh_token\": \"rt\", \"token_type\": \"Bearer\"}",
        ),
        Err(SetupError::Decode(_))
    ));
}
