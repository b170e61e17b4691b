use vstd::prelude::*;
use vstd::string::*;

use crate::servers::models::Service;
use crate::text::{decimal, push_decimal, push_signed_decimal, signed_decimal};

verus! {

/// Address at which a client reaches the tunnel bound to local `port`.
pub open spec fn local_url(port: u16) -> Seq<char> {
    "localhost:"@ + decimal(port as nat)
}

/// Remote endpoint that a tunnel forwards to.
pub open spec fn tunnel_target(host: Seq<char>, port: int) -> Seq<char> {
    "tcp://"@ + host + ":"@ + signed_decimal(port)
}

/// Arguments of the tunnel program forwarding local `bind_port` to `host:port`.
pub open spec fn tunnel_args_spec(host: Seq<char>, port: int, bind_port: u16) -> Seq<Seq<char>> {
    seq![
        "tunnel"@,
        "--url"@,
        tunnel_target(host, port),
        "--local-port"@,
        decimal(bind_port as nat),
    ]
}

/// The character views of a list of strings.
pub open spec fn views(v: Seq<String>) -> Seq<Seq<char>> {
    v.map_values(|s: String| s@)
}

/// One running tunnel: the local port it listens on and its process.
#[derive(Debug, Clone, Copy, PartialEq, Eq, Structural)]
pub struct Access {
    pub port: u16,
    pub pid: u32,
}

impl Access {
    /// Records a tunnel process `pid` that listens on `bind_port`.
    pub fn new(bind_port: u16, pid: u32) -> (r: Self)
        ensures
            r.port == bind_port,
            r.pid == pid,
    {
        Access { port: bind_port, pid }
    }

    /// The local address a client should connect to.
    pub fn url(&self) -> (r: String)
        ensures
            r@ == local_url(self.port),
    {
        let mut s = String::from_str("localhost:");
        push_decimal(&mut s, self.port as u64);
        s
    }

    /// Ends the record; the result is the process to terminate.
    pub fn stop(self) -> (pid: u32)
        ensures
            pid == self.pid,
    {
        self.pid
    }
}

/// Arguments for the tunnel process that forwards local `bind_port` to the service.
pub fn tunnel_args(service: &Service, bind_port: u16) -> (r: Vec<String>)
    ensures
        views(r@) == tunnel_args_spec(service.host@, service.port as int, bind_port),
{
    let mut target = String::from_str("tcp://");
    target.append(service.host.as_str());
    target.append(":");
    push_signed_decimal(&mut target, service.port as i64);
    let mut local = String::new();
    push_decimal(&mut local, bind_port as u64);
    let r = vec![
        String::from_str("tunnel"),
        String::from_str("--url"),
        target,
        String::from_str("--local-port"),
        local,
    ];
    assert(views(r@) =~= tunnel_args_spec(service.host@, service.port as int, bind_port));
    r
}

} // verus!
