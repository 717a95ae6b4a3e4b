use macro_core::auth_context::{MacroApiTokenContext, TokenContext};
use macro_core::call_rtc::{CallError, CallRtcError, DisabledCallRtcClient};

#[test]
fn disabled_client_refuses_room_creation() {
    let client = DisabledCallRtcClient::new();
    assert_eq!(client.create_room("standup"), Err(CallRtcError::Disabled));
}

#[test]
fn disabled_client_accepts_cleanup_calls() {
    let client = DisabledCallRtcClient::new();
    assert_eq!(client.delete_room("standup"), Ok(()));
    assert_eq!(client.remove_participant("standup", "user-1"), Ok(()));
    assert_eq!(client.stop_egress("egress-1"), Ok(()));
    assert_eq!(client.dispatch_transcription_agent("standup"), Ok(()));
}

#[test]
fn disabled_client_refuses_tokens_and_egress() {
    let client = DisabledCallRtcClient::new();
    assert_eq!(client.generate_token("standup", "user-1"), Err(CallRtcError::Disabled));
    assert_eq!(client.start_room_composite_egress("standup"), Err(CallRtcError::Disabled));
    let verified: Result<u32, CallRtcError> = client.verify_access_token("token");
    assert_eq!(verified, Err(CallRtcError::Disabled));
}

#[test]
fn disabled_client_rejects_webhooks_and_builds_no_payloads() {
    let client = DisabledCallRtcClient::new();
    let event: Result<String, CallError> = client.receive_webhook("{}", "Bearer x");
    assert_eq!(event, Err(CallError::Auth));
    let payloads: Vec<String> = client.build_voip_push_payloads();
    assert!(payloads.is_empty());
}

#[test]
fn disabled_error_message_text() {
    assert_eq!(
        CallRtcError::Disabled.message(),
        "Calls feature is disabled in this deployment"
    );
}

#[test]
fn token_contexts_hold_their_values() {
    let tokens = TokenContext {
        access_token: "access".to_string(),
        refresh_token: "refresh".to_string(),
    };
    let copy = tokens.clone();
    assert_eq!(copy.access_token, "access");
    assert_eq!(copy.refresh_token, "refresh");
    let signing = MacroApiTokenContext {
        issuer: "macro".to_string(),
        macro_api_token_private_key: "SECRET-REDACTED".to_string(),
        expiry_seconds: 3600,
    };
    assert_eq!(signing.clone().expiry_seconds, 3600);
    assert_eq!(signing.issuer, "macro");
}
