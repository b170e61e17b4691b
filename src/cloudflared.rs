use vstd::prelude::*;
use vstd::string::*;

use crate::named_map::NamedMap;
use crate::text::{decimal, push_decimal};

verus! {

/// Name under which an access tunnel to `hostname` on local `port` is kept.
pub open spec fn access_tunnel_id(hostname: Seq<char>, port: u16) -> Seq<char> {
    hostname + "-"@ + decimal(port as nat)
}

/// Arguments of `cloudflared` for a TCP access tunnel from local `port` to `hostname`.
pub open spec fn access_args_spec(hostname: Seq<char>, port: u16) -> Seq<Seq<char>> {
    seq![
        "access"@,
        "tcp"@,
        "--hostname"@,
        hostname,
        "--url"@,
        "localhost:"@ + decimal(port as nat),
    ]
}

/// A started access tunnel.
#[derive(Debug)]
pub struct ActiveTunnel {
    pub id: String,
    pub hostname: String,
    pub local_port: u16,
    pub pid: u32,
}

/// The running access tunnels: process id by tunnel name.
pub struct TunnelState {
    pub processes: NamedMap<u32>,
}

/// Why a tunnel could not be stopped.
#[derive(Debug, Clone, Copy, PartialEq, Eq, Structural)]
pub enum TunnelError {
    /// No running tunnel has that name.
    NotFound,
}

pub fn access_tunnel_name(hostname: &str, port: u16) -> (r: String)
    ensures
        r@ == access_tunnel_id(hostname@, port),
{
    let mut s = String::from_str(hostname);
    s.append("-");
    push_decimal(&mut s, port as u64);
    s
}

/// Arguments of `cloudflared` for a TCP access tunnel from local `port` to `hostname`.
pub fn access_args(hostname: &str, port: u16) -> (r: Vec<String>)
    ensures
        r@.map_values(|s: String| s@) == access_args_spec(hostname@, port),
{
    let mut url = String::from_str("localhost:");
    push_decimal(&mut url, port as u64);
    let r = vec![
        String::from_str("access"),
        String::from_str("tcp"),
        String::from_str("--hostname"),
        String::from_str(hostname),
        String::from_str("--url"),
        url,
    ];
    assert(r@.map_values(|s: String| s@) =~= access_args_spec(hostname@, port));
    r
}

impl TunnelState {
    pub open spec fn wf(&self) -> bool {
        self.processes.wf()
    }

    pub open spec fn view(&self) -> Map<Seq<char>, u32> {
        self.processes@
    }

    pub fn new() -> (r: Self)
        ensures
            r.wf(),
            r@ == Map::<Seq<char>, u32>::empty(),
    {
        TunnelState { processes: NamedMap::new() }
    }

    /// Records the started tunnel process `pid` to `hostname` on local `port`.
    pub fn start(&mut self, hostname: String, local_port: u16, pid: u32) -> (r: ActiveTunnel)
        requires
            old(self).wf(),
        ensures
            final(self).wf(),
            r.id@ == access_tunnel_id(hostname@, local_port),
            r.hostname == hostname,
            r.local_port == local_port,
            r.pid == pid,
            final(self)@ == old(self)@.insert(access_tunnel_id(hostname@, local_port), pid),
    {
        let id = access_tunnel_name(hostname.as_str(), local_port);
        let key = access_tunnel_name(hostname.as_str(), local_port);
        self.processes.insert(key, pid);
        ActiveTunnel { id, hostname, local_port, pid }
    }

    /// Forgets the tunnel named `id`; the result is the process to terminate.
    pub fn stop(&mut self, id: &str) -> (r: Result<u32, TunnelError>)
        requires
            old(self).wf(),
        ensures
            final(self).wf(),
            final(self)@ == old(self)@.remove(id@),
            old(self)@.contains_key(id@) ==> r == Ok::<u32, TunnelError>(old(self)@[id@]),
            !old(self)@.contains_key(id@) ==> r == Err::<u32, TunnelError>(TunnelError::NotFound),
    {
        match self.processes.remove(id) {
            Some(pid) => Ok(pid),
            None => Err(TunnelError::NotFound),
        }
    }
}

/// The text without its leading `v`s.
pub open spec fn trim_leading_v(s: Seq<char>) -> Seq<char>
    decreases s.len(),
{
    if s.len() > 0 && s[0] == 'v' {
        trim_leading_v(s.subrange(1, s.len() as int))
    } else {
        s
    }
}

/// Why no release version could be read.
#[derive(Debug, Clone, Copy, PartialEq, Eq, Structural)]
pub enum VersionError {
    /// The release description has no tag name.
    NoTagName,
}

/// The version of a release from its tag name (`2024.1.0` or `v2024.1.0`).
pub fn release_version(tag_name: Option<&str>) -> (r: Result<String, VersionError>)
    ensures
        tag_name is None ==> r == Err::<String, VersionError>(VersionError::NoTagName),
        tag_name matches Some(t) ==> r is Ok && r->Ok_0@ == trim_leading_v(t@),
{
    match tag_name {
        None => Err(VersionError::NoTagName),
        Some(t) => {
            let n = t.unicode_len();
            let mut i: usize = 0;
            assert(t@.subrange(0, n as int) =~= t@);
            while i < n && t.get_char(i) == 'v'
                invariant
                    n == t@.len(),
                    i <= n,
                    trim_leading_v(t@) == trim_leading_v(t@.subrange(i as int, n as int)),
                decreases n - i,
            {
                proof {
                    let rest = t@.subrange(i as int, n as int);
                    assert(rest.subrange(1, rest.len() as int) =~= t@.subrange(i + 1, n as int));
                }
                i = i + 1;
            }
            Ok(String::from_str(t.substring_char(i, n)))
        },
    }
}

} // verus!
