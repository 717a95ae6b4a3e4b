use vstd::prelude::*;

verus! {

/// Why an RTC operation was refused by a deployment without calling.
#[derive(Debug, Clone, Copy, PartialEq, Eq)]
pub enum CallRtcError {
    /// The calls feature is switched off in this deployment.
    Disabled,
}

/// Errors of the call webhook endpoint.
#[derive(Debug, Clone, Copy, PartialEq, Eq)]
pub enum CallError {
    /// The webhook could not be authenticated.
    Auth,
}

/// The text every refused RTC operation reports.
pub open spec fn disabled_message() -> Seq<char> {
    "Calls feature is disabled in this deployment"@
}

impl CallRtcError {
    /// Human-readable message of the error.
    pub fn message(&self) -> (text: String)
        ensures
            text@ == disabled_message(),
    {
        let s = "Calls feature is disabled in this deployment";
        proof {
            reveal_strlit("Calls feature is disabled in this deployment");
        }
        s.to_string()
    }
}

/// Stub RTC client for deployments where real-time calling is disabled.
#[derive(Debug, Default, Clone, Copy)]
pub struct DisabledCallRtcClient;

impl DisabledCallRtcClient {
    /// Create a new disabled RTC client.
    pub fn new() -> (client: Self)
        ensures
            client == DisabledCallRtcClient,
    {
        DisabledCallRtcClient
    }

    /// Rooms cannot be created: the calls feature is disabled.
    pub fn create_room(&self, room_name: &str) -> (r: Result<(), CallRtcError>)
        ensures
            r == Err::<(), CallRtcError>(CallRtcError::Disabled),
    {
        Err(CallRtcError::Disabled)
    }

    /// Deleting a room is a no-op that succeeds.
    pub fn delete_room(&self, room_name: &str) -> (r: Result<(), CallRtcError>)
        ensures
            r == Ok::<(), CallRtcError>(()),
    {
        Ok(())
    }

    /// No participant token can be issued.
    pub fn generate_token(&self, room_name: &str, participant_identity: &str) -> (r: Result<
        String,
        CallRtcError,
    >)
        ensures
            r == Err::<String, CallRtcError>(CallRtcError::Disabled),
    {
        Err(CallRtcError::Disabled)
    }

    /// No VoIP push payload is ever built.
    pub fn build_voip_push_payloads<P>(&self) -> (payloads: Vec<P>)
        ensures
            payloads@.len() == 0,
    {
        Vec::new()
    }

    /// Removing a participant is a no-op that succeeds.
    pub fn remove_participant(&self, room_name: &str, participant_identity: &str) -> (r: Result<
        (),
        CallRtcError,
    >)
        ensures
            r == Ok::<(), CallRtcError>(()),
    {
        Ok(())
    }

    /// Recording egress cannot be started.
    pub fn start_room_composite_egress(&self, room_name: &str) -> (r: Result<String, CallRtcError>)
        ensures
            r == Err::<String, CallRtcError>(CallRtcError::Disabled),
    {
        Err(CallRtcError::Disabled)
    }

    /// Stopping an egress is a no-op that succeeds.
    pub fn stop_egress(&self, egress_id: &str) -> (r: Result<(), CallRtcError>)
        ensures
            r == Ok::<(), CallRtcError>(()),
    {
        Ok(())
    }

    /// Every webhook is rejected as unauthenticated.
    pub fn receive_webhook<E>(&self, body: &str, auth_token: &str) -> (r: Result<E, CallError>)
        ensures
            r == Err::<E, CallError>(CallError::Auth),
    {
        Err(CallError::Auth)
    }

    /// No access token can be verified.
    pub fn verify_access_token<T>(&self, token: &str) -> (r: Result<T, CallRtcError>)
        ensures
            r == Err::<T, CallRtcError>(CallRtcError::Disabled),
    {
        Err(CallRtcError::Disabled)
    }

    /// Dispatching a transcription agent is a no-op that succeeds.
    pub fn dispatch_transcription_agent(&self, room_name: &str) -> (r: Result<(), CallRtcError>)
        ensures
            r == Ok::<(), CallRtcError>(()),
    {
        Ok(())
    }
}

} // verus!
