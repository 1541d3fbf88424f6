use vstd::prelude::*;
use crate::Bytes;
use crate::response::CheckResponseStatus;

verus! {

/// The authentication scheme advertised by a server's challenge, as a closed
/// set: basic credentials are the one supported scheme, every other one is
/// carried by name.
#[derive(Clone, Debug)]
pub enum AuthorizationType {
    Basic,
    Unsupported(String),
}

/// Contains informations about the remote file.
pub struct RemoteFileInformations {
    pub content_length: Bytes,
}

/// Contains informations about the remote server, as negotiation established
/// them: whether ranged requests are honoured, the authorization header value
/// to attach to every further request, the remote file, and the URL itself.
pub struct RemoteServerInformations {
    pub accept_partialcontent: bool,
    pub auth_header: Option<String>,
    pub file: RemoteFileInformations,
    pub url: String,
}

/// The ways a negotiation can fail for good.
#[derive(Debug)]
pub enum RemoteServerError {
    TooMuchAttempting(usize),
    UnknownAuthorizationType(AuthorizationType),
}

impl RemoteServerError {
    /// A short, human-readable description of the failure.
    pub fn description(&self) -> (s: &'static str)
        ensures
            (self matches RemoteServerError::TooMuchAttempting(_)) ==> s@ == "Many attempts failed"@,
            (self matches RemoteServerError::UnknownAuthorizationType(_)) ==> s@
                == "Authorization type not supported"@,
    {
        match self {
            RemoteServerError::TooMuchAttempting(_) => "Many attempts failed",
            RemoteServerError::UnknownAuthorizationType(_) => "Authorization type not supported",
        }
    }
}

/// What one probe of the server came back with: the response status, the
/// authentication challenge if one was advertised, and the content-length
/// header if the server sent one.
#[derive(Clone, Debug)]
pub struct ProbeResponse {
    pub status: u16,
    pub auth_type: Option<AuthorizationType>,
    pub content_length: Option<Bytes>,
}

/// Where a negotiation stands, between the probes that drive it forward.
pub enum NegotiationState {
    /// Nothing sent yet: the initial header-only probe is due.
    Start { url: String },
    /// The server asked for basic credentials: they must be collected.
    AwaitingCredentials { url: String },
    /// Credentials are built: the header-only probe is due again, authorized.
    AwaitingAuthedProbe { url: String, auth_header: String },
    /// The authoritative response had no content length: the one fallback
    /// probe, a ranged request for the whole resource, is due.
    AwaitingFallback { url: String, auth_header: Option<String> },
    /// The content length is known: the ranged probe for the first two bytes,
    /// which settles partial-content support, is due.
    AwaitingRangeProbe { url: String, auth_header: Option<String>, content_length: Bytes },
    /// Negotiation succeeded.
    Complete { info: RemoteServerInformations },
    /// Negotiation failed for good.
    Failed { error: RemoteServerError },
}

/// What the collaborator driving the negotiation feeds back into it.
pub enum NegotiationEvent {
    /// The response to the probe that the previous state asked for.
    Response(ProbeResponse),
    /// The authorization header value built from the collected credentials.
    Credentials { auth_header: String },
}

/// What the collaborator driving the negotiation must do next.
pub enum NegotiationAction {
    /// Send a header-only probe, with the given authorization header if any.
    SendHeadProbe { auth_header: Option<String> },
    /// Collect credentials from the user and build an authorization header.
    PromptCredentials,
    /// Send a ranged request for the whole resource, from byte zero onward.
    SendFullRangeProbe { auth_header: Option<String> },
    /// Send a probe asking for exactly the first two bytes of the resource.
    SendRangeCheckProbe { auth_header: Option<String> },
    /// Negotiation is over; nothing more to send.
    Finish,
}

/// One step of the negotiation protocol: from the current state and the event
/// that answered it, the next state. An authentication challenge of an
/// unsupported scheme and a second missing content length are terminal
/// failures; a response to the final ranged probe completes the negotiation,
/// accepting partial content exactly when the server answered with the
/// partial-content status.
pub open spec fn spec_negotiate_step(
    state: NegotiationState,
    event: NegotiationEvent,
) -> NegotiationState {
    match (state, event) {
        (NegotiationState::Start { url }, NegotiationEvent::Response(r)) => match r.auth_type {
            Some(AuthorizationType::Basic) => NegotiationState::AwaitingCredentials { url },
            Some(AuthorizationType::Unsupported(name)) => NegotiationState::Failed {
                error: RemoteServerError::UnknownAuthorizationType(
                    AuthorizationType::Unsupported(name),
                ),
            },
            None => match r.content_length {
                Some(cl) => NegotiationState::AwaitingRangeProbe {
                    url,
                    auth_header: None,
                    content_length: cl,
                },
                None => NegotiationState::AwaitingFallback { url, auth_header: None },
            },
        },
        (
            NegotiationState::AwaitingCredentials { url },
            NegotiationEvent::Credentials { auth_header },
        ) => NegotiationState::AwaitingAuthedProbe { url, auth_header },
        (
            NegotiationState::AwaitingAuthedProbe { url, auth_header },
            NegotiationEvent::Response(r),
        ) => match r.content_length {
            Some(cl) => NegotiationState::AwaitingRangeProbe {
                url,
                auth_header: Some(auth_header),
                content_length: cl,
            },
            None => NegotiationState::AwaitingFallback { url, auth_header: Some(auth_header) },
        },
        (
            NegotiationState::AwaitingFallback { url, auth_header },
            NegotiationEvent::Response(r),
        ) => match r.content_length {
            Some(cl) => NegotiationState::AwaitingRangeProbe {
                url,
                auth_header,
                content_length: cl,
            },
            None => NegotiationState::Failed { error: RemoteServerError::TooMuchAttempting(2) },
        },
        (
            NegotiationState::AwaitingRangeProbe { url, auth_header, content_length },
            NegotiationEvent::Response(r),
        ) => NegotiationState::Complete {
            info: RemoteServerInformations {
                accept_partialcontent: r.status == 206,
                auth_header,
                file: RemoteFileInformations { content_length },
                url,
            },
        },
        (s, _) => s,
    }
}

/// Advance the negotiation by one step.
pub fn negotiate_step(state: NegotiationState, event: NegotiationEvent) -> (next: NegotiationState)
    ensures
        next == spec_negotiate_step(state, event),
{
    match (state, event) {
        (NegotiationState::Start { url }, NegotiationEvent::Response(r)) => match r.auth_type {
            Some(AuthorizationType::Basic) => NegotiationState::AwaitingCredentials { url },
            Some(AuthorizationType::Unsupported(name)) => NegotiationState::Failed {
                error: RemoteServerError::UnknownAuthorizationType(
                    AuthorizationType::Unsupported(name),
                ),
            },
            None => match r.content_length {
                Some(cl) => NegotiationState::AwaitingRangeProbe {
                    url,
                    auth_header: None,
                    content_length: cl,
                },
                None => NegotiationState::AwaitingFallback { url, auth_header: None },
            },
        },
        (
            NegotiationState::AwaitingCredentials { url },
            NegotiationEvent::Credentials { auth_header },
        ) => NegotiationState::AwaitingAuthedProbe { url, auth_header },
        (
            NegotiationState::AwaitingAuthedProbe { url, auth_header },
            NegotiationEvent::Response(r),
        ) => match r.content_length {
            Some(cl) => NegotiationState::AwaitingRangeProbe {
                url,
                auth_header: Some(auth_header),
                content_length: cl,
            },
            None => NegotiationState::AwaitingFallback { url, auth_header: Some(auth_header) },
        },
        (
            NegotiationState::AwaitingFallback { url, auth_header },
            NegotiationEvent::Response(r),
        ) => match r.content_length {
            Some(cl) => NegotiationState::AwaitingRangeProbe {
                url,
                auth_header,
                content_length: cl,
            },
            None => NegotiationState::Failed { error: RemoteServerError::TooMuchAttempting(2) },
        },
        (
            NegotiationState::AwaitingRangeProbe { url, auth_header, content_length },
            NegotiationEvent::Response(r),
        ) => {
            let accept_partialcontent = r.check_partialcontent_status();
            NegotiationState::Complete {
                info: RemoteServerInformations {
                    accept_partialcontent,
                    auth_header,
                    file: RemoteFileInformations { content_length },
                    url,
                },
            }
        },
        (s, _) => s,
    }
}

/// The view of an optional header value: the characters, if one is there.
pub open spec fn opt_str_view(o: Option<String>) -> Option<Seq<char>> {
    match o {
        Some(s) => Some(s@),
        None => None,
    }
}

/// Copy an optional header value.
fn clone_opt_header(o: &Option<String>) -> (r: Option<String>)
    ensures
        opt_str_view(r) == opt_str_view(*o),
{
    match o {
        Some(s) => Some(s.clone()),
        None => None,
    }
}

/// The probe or prompt that the current negotiation state asks its driver
/// for; a finished negotiation asks for nothing.
pub fn next_action(state: &NegotiationState) -> (action: NegotiationAction)
    ensures
        (state matches NegotiationState::Start { .. }) ==> action
            == (NegotiationAction::SendHeadProbe { auth_header: None }),
        (state matches NegotiationState::AwaitingCredentials { .. }) ==> action
            == NegotiationAction::PromptCredentials,
        state matches NegotiationState::AwaitingAuthedProbe { auth_header: ah, .. } ==> (action
            matches NegotiationAction::SendHeadProbe { auth_header: h } && opt_str_view(h)
            == Some(ah@)),
        state matches NegotiationState::AwaitingFallback { auth_header: ah, .. } ==> (action
            matches NegotiationAction::SendFullRangeProbe { auth_header: h } && opt_str_view(h)
            == opt_str_view(*ah)),
        state matches NegotiationState::AwaitingRangeProbe { auth_header: ah, .. } ==> (action
            matches NegotiationAction::SendRangeCheckProbe { auth_header: h } && opt_str_view(h)
            == opt_str_view(*ah)),
        (state matches NegotiationState::Complete { .. }) ==> action == NegotiationAction::Finish,
        (state matches NegotiationState::Failed { .. }) ==> action == NegotiationAction::Finish,
{
    match state {
        NegotiationState::Start { .. } => NegotiationAction::SendHeadProbe { auth_header: None },
        NegotiationState::AwaitingCredentials { .. } => NegotiationAction::PromptCredentials,
        NegotiationState::AwaitingAuthedProbe { auth_header, .. } => {
            NegotiationAction::SendHeadProbe { auth_header: Some(auth_header.clone()) }
        },
        NegotiationState::AwaitingFallback { auth_header, .. } => {
            NegotiationAction::SendFullRangeProbe { auth_header: clone_opt_header(auth_header) }
        },
        NegotiationState::AwaitingRangeProbe { auth_header, .. } => {
            NegotiationAction::SendRangeCheckProbe { auth_header: clone_opt_header(auth_header) }
        },
        NegotiationState::Complete { .. } => NegotiationAction::Finish,
        NegotiationState::Failed { .. } => NegotiationAction::Finish,
    }
}

/// Open a negotiation against one URL.
pub fn negotiation_start(url: String) -> (state: NegotiationState)
    ensures
        state == (NegotiationState::Start { url }),
{
    NegotiationState::Start { url }
}

/// A finished negotiation, successful or failed, never moves again, whatever
/// else is fed to it.
pub proof fn lemma_negotiation_terminal(state: NegotiationState, event: NegotiationEvent)
    requires
        (state matches NegotiationState::Complete { .. }) || (state
            matches NegotiationState::Failed { .. }),
    ensures
        spec_negotiate_step(state, event) == state,
{
}

/// A server that sent no content length on the first probe but a valid one on
/// the full-range fallback lets negotiation succeed with exactly the fallback
/// value: whatever the final ranged probe answers, the negotiated result
/// reports that content length.
pub proof fn lemma_fallback_supplies_content_length(
    state: NegotiationState,
    r: ProbeResponse,
    r2: ProbeResponse,
    cl: Bytes,
)
    requires
        state matches NegotiationState::AwaitingFallback { .. },
        r.content_length == Some(cl),
    ensures
        spec_negotiate_step(state, NegotiationEvent::Response(r))
            matches NegotiationState::AwaitingRangeProbe { content_length, .. } && content_length
            == cl,
        spec_negotiate_step(
            spec_negotiate_step(state, NegotiationEvent::Response(r)),
            NegotiationEvent::Response(r2),
        ) matches NegotiationState::Complete { info } && info.file.content_length == cl,
{
}

/// A server that sent no content length on the first probe and none on the
/// fallback either makes negotiation fail with the documented two-attempt
/// error; the failure is final, so no third attempt is ever made.
pub proof fn lemma_content_length_unavailable(
    state: NegotiationState,
    r: ProbeResponse,
    later: NegotiationEvent,
)
    requires
        state matches NegotiationState::AwaitingFallback { .. },
        r.content_length is None,
    ensures
        spec_negotiate_step(state, NegotiationEvent::Response(r)) == (NegotiationState::Failed {
            error: RemoteServerError::TooMuchAttempting(2),
        }),
        spec_negotiate_step(spec_negotiate_step(state, NegotiationEvent::Response(r)), later)
            == spec_negotiate_step(state, NegotiationEvent::Response(r)),
{
}

/// An authentication challenge of any scheme but the basic one ends the
/// negotiation at once with the unsupported-scheme error.
pub proof fn lemma_unsupported_auth_scheme(state: NegotiationState, r: ProbeResponse)
    requires
        state matches NegotiationState::Start { .. },
        r.auth_type matches Some(a) && a matches AuthorizationType::Unsupported(_),
    ensures
        spec_negotiate_step(state, NegotiationEvent::Response(r))
            matches NegotiationState::Failed {
            error: RemoteServerError::UnknownAuthorizationType(_),
        },
{
}

} // verus!
