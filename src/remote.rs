pub mod cloudflared;
pub mod event;
pub mod handle;
pub mod state;

use vstd::prelude::*;

use crate::remote::handle::LaunchError;
use crate::servers::credentials::Credential;

verus! {

/// Failures of a connect or disconnect request.
#[derive(Debug, Clone, Copy, PartialEq, Eq, Structural)]
pub enum RemoteError {
    /// No service has the requested id.
    NotFound,
    /// The credential's shape does not belong to the service's protocol.
    UnsupportedCombination,
    /// No free local port could be had.
    ResourceExhausted,
    /// A tunnel or client process could not be started.
    ProcessSpawnFailed,
}

impl RemoteError {
    pub fn from_launch(e: LaunchError) -> (r: Self)
        ensures
            e == LaunchError::UnsupportedCombination ==> r == RemoteError::UnsupportedCombination,
    {
        match e {
            LaunchError::UnsupportedCombination => RemoteError::UnsupportedCombination,
        }
    }
}

/// How a connect request proceeds once the service was looked up.
#[derive(Debug)]
pub enum ConnectDecision {
    /// Connect with this credential.
    Connect(Credential),
    /// No usable credential: ask the user for one; nothing changes.
    PromptCredentials,
}

/// Decides a connect request: an unknown service is an error; a service
/// without a usable (non-empty) credential prompts for one; otherwise the
/// connection goes ahead with the credential.
pub fn connect_decision(service_found: bool, credential: Option<Credential>) -> (r: Result<
    ConnectDecision,
    RemoteError,
>)
    ensures
        !service_found <==> r == Err::<ConnectDecision, RemoteError>(RemoteError::NotFound),
        service_found ==> match credential {
            Some(c) => if c.spec_is_empty() {
                r is Ok && r->Ok_0 is PromptCredentials
            } else {
                r is Ok && r->Ok_0 == ConnectDecision::Connect(c)
            },
            None => r is Ok && r->Ok_0 is PromptCredentials,
        },
{
    if !service_found {
        return Err(RemoteError::NotFound);
    }
    match credential {
        Some(c) => if c.is_empty() {
            Ok(ConnectDecision::PromptCredentials)
        } else {
            Ok(ConnectDecision::Connect(c))
        },
        None => Ok(ConnectDecision::PromptCredentials),
    }
}

} // verus!
