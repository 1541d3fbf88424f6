use zou::cargo_helper::{
    negotiate_step, negotiation_start, next_action, AuthorizationType, NegotiationAction,
    NegotiationEvent, NegotiationState, ProbeResponse, RemoteServerError,
    RemoteServerInformations,
};

fn response(status: u16, auth: Option<AuthorizationType>, cl: Option<u64>) -> NegotiationEvent {
    NegotiationEvent::Response(ProbeResponse {
        status,
        auth_type: auth,
        content_length: cl,
    })
}

fn complete(state: NegotiationState) -> RemoteServerInformations {
    match state {
        NegotiationState::Complete { info } => info,
        _ => panic!("negotiation did not complete"),
    }
}

#[test]
fn plain_negotiation_succeeds() {
    let state = negotiation_start("http://example.com/file".to_string());
    let state = negotiate_step(state, response(200, None, Some(10_000)));
    assert!(matches!(
        next_action(&state),
        NegotiationAction::SendRangeCheckProbe { auth_header: None }
    ));
    let info = complete(negotiate_step(state, response(206, None, Some(2))));
    assert!(info.accept_partialcontent);
    assert_eq!(info.file.content_length, 10_000);
    assert_eq!(info.auth_header, None);
    assert_eq!(info.url, "http://example.com/file");
}

#[test]
fn full_status_on_range_probe_means_no_partial_content() {
    let state = negotiation_start("http://example.com/file".to_string());
    let state = negotiate_step(state, response(200, None, Some(500)));
    let info = complete(negotiate_step(state, response(200, None, Some(500))));
    assert!(!info.accept_partialcontent);
    assert_eq!(info.file.content_length, 500);
}

#[test]
fn fallback_supplies_the_content_length() {
    let state = negotiation_start("http://example.com/file".to_string());
    // no content length on the initial probe: the fallback probe is due
    let state = negotiate_step(state, response(200, None, None));
    assert!(matches!(
        next_action(&state),
        NegotiationAction::SendFullRangeProbe { auth_header: None }
    ));
    // the full-range fallback carries one: negotiation goes on with it
    let state = negotiate_step(state, response(200, None, Some(4_096)));
    let info = complete(negotiate_step(state, response(206, None, None)));
    assert!(info.accept_partialcontent);
    assert_eq!(info.file.content_length, 4_096);
}

#[test]
fn missing_content_length_twice_is_terminal() {
    let state = negotiation_start("http://example.com/file".to_string());
    let state = negotiate_step(state, response(200, None, None));
    let state = negotiate_step(state, response(200, None, None));
    match &state {
        NegotiationState::Failed {
            error: RemoteServerError::TooMuchAttempting(attempts),
        } => assert_eq!(*attempts, 2),
        _ => panic!("expected the two-attempt failure"),
    }
    // the failure is final: no third attempt is asked for, and nothing moves
    assert!(matches!(next_action(&state), NegotiationAction::Finish));
    let state = negotiate_step(state, response(200, None, Some(123)));
    assert!(matches!(state, NegotiationState::Failed { .. }));
}

#[test]
fn basic_auth_is_collected_and_kept() {
    let state = negotiation_start("http://example.com/file".to_string());
    let state = negotiate_step(
        state,
        response(401, Some(AuthorizationType::Basic), None),
    );
    assert!(matches!(
        next_action(&state),
        NegotiationAction::PromptCredentials
    ));
    let state = negotiate_step(
        state,
        NegotiationEvent::Credentials {
            auth_header: "Basic Zm9vOmJhcg==".to_string(),
        },
    );
    match next_action(&state) {
        NegotiationAction::SendHeadProbe { auth_header } => {
            assert_eq!(auth_header.as_deref(), Some("Basic Zm9vOmJhcg=="));
        }
        _ => panic!("expected the authorized header probe"),
    }
    let state = negotiate_step(state, response(200, None, Some(77)));
    let info = complete(negotiate_step(state, response(206, None, None)));
    assert_eq!(info.auth_header.as_deref(), Some("Basic Zm9vOmJhcg=="));
    assert_eq!(info.file.content_length, 77);
}

#[test]
fn unsupported_auth_scheme_is_terminal() {
    let state = negotiation_start("http://example.com/file".to_string());
    let state = negotiate_step(
        state,
        response(
            401,
            Some(AuthorizationType::Unsupported("Digest".to_string())),
            Some(1000),
        ),
    );
    match state {
        NegotiationState::Failed {
            error: RemoteServerError::UnknownAuthorizationType(AuthorizationType::Unsupported(name)),
        } => assert_eq!(name, "Digest"),
        _ => panic!("expected the unsupported-scheme failure"),
    }
}

#[test]
fn error_descriptions() {
    assert_eq!(
        RemoteServerError::TooMuchAttempting(2).description(),
        "Many attempts failed"
    );
    assert_eq!(
        RemoteServerError::UnknownAuthorizationType(AuthorizationType::Basic).description(),
        "Authorization type not supported"
    );
}
