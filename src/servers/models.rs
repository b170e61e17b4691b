use vstd::prelude::*;

use crate::text::str_eq;

verus! {

/// Remote access protocol of a service.
#[derive(Debug, Clone, Copy, PartialEq, Eq, Structural)]
pub enum Protocol {
    Rdp,
    Ssh,
}

/// Lower-case name of a protocol.
pub open spec fn protocol_name(p: Protocol) -> Seq<char> {
    match p {
        Protocol::Rdp => seq!['r', 'd', 'p'],
        Protocol::Ssh => seq!['s', 's', 'h'],
    }
}

impl Protocol {
    pub fn as_str(&self) -> (r: &'static str)
        ensures
            r@ == protocol_name(*self),
    {
        match self {
            Protocol::Rdp => {
                proof { reveal_strlit("rdp"); }
                "rdp"
            },
            Protocol::Ssh => {
                proof { reveal_strlit("ssh"); }
                "ssh"
            },
        }
    }
}

/// A service of a registered server: where it listens and by which protocol.
/// The identifier is the 128-bit value of the service's UUID.
#[derive(Debug, Clone)]
pub struct Service {
    pub id: u128,
    pub protocol: Protocol,
    pub port: i32,
    pub host: String,
    pub status: Option<String>,
}

impl Service {
    /// The service's status reads `active`.
    pub open spec fn spec_is_active(&self) -> bool {
        match self.status {
            Some(s) => s@ == "active"@,
            None => false,
        }
    }

    pub fn is_active(&self) -> (r: bool)
        ensures
            r == self.spec_is_active(),
    {
        match &self.status {
            Some(s) => str_eq(s.as_str(), "active"),
            None => false,
        }
    }
}

} // verus!
