use vstd::prelude::*;

verus! {

/// Notifications about connections, for observers.
#[derive(Debug, Clone)]
pub enum RemotesEvent {
    Connected(u128),
    Disconnected(u128),
    PromptCredentials(u128),
    ConnectedServices(Vec<u128>),
}

/// What a supervised process reported.
#[derive(Debug, Clone, Copy, PartialEq, Eq, Structural)]
pub enum ProcessEvent {
    Stdout,
    Stderr,
    Error,
    Terminated,
    Other,
}

impl ProcessEvent {
    /// The process failed or ended: its connection is torn down.
    pub open spec fn spec_is_fatal(self) -> bool {
        self is Error || self is Terminated
    }

    pub fn is_fatal(&self) -> (r: bool)
        ensures
            r == self.spec_is_fatal(),
    {
        matches!(self, ProcessEvent::Error | ProcessEvent::Terminated)
    }
}

} // verus!
