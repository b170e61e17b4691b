use std::collections::HashMap;
use vstd::prelude::*;

use crate::remote::cloudflared::Access;
use crate::remote::event::ProcessEvent;
use crate::remote::handle::{RemoteHandle, SecretKind};

verus! {

broadcast use vstd::std_specs::hash::group_hash_axioms;

/// The port assignments that a saved list of `(service, port)` pairs
/// restores: a later pair for the same service overrides an earlier one.
pub open spec fn ports_from(saved: Seq<(u128, u16)>) -> Map<u128, u16>
    decreases saved.len(),
{
    if saved.len() == 0 {
        Map::empty()
    } else {
        ports_from(saved.drop_last()).insert(saved.last().0, saved.last().1)
    }
}

/// A running client and the secret file written for it, if any.
#[derive(Debug, Clone, Copy, PartialEq, Eq, Structural)]
pub struct ActiveClient {
    pub handle: RemoteHandle,
    pub secret: Option<SecretKind>,
}

/// What a teardown hands back to be stopped: the client first (whose secret
/// file is then deleted), then the tunnel.
#[derive(Debug, Clone, Copy, PartialEq, Eq, Structural)]
pub struct Teardown {
    pub client: Option<ActiveClient>,
    pub tunnel: Option<Access>,
}

/// What installing a client replaced: the earlier client, to be stopped, and
/// its secret file where the new client did not write one of the same kind
/// (which overwrote it), to be deleted.
#[derive(Debug, Clone, Copy, PartialEq, Eq, Structural)]
pub struct Replaced {
    pub previous: Option<ActiveClient>,
    pub stale_secret: Option<SecretKind>,
}

/// The secret file of the replaced client that nothing overwrote.
pub open spec fn stale_secret(previous: Option<ActiveClient>, next: ActiveClient) -> Option<SecretKind> {
    match previous {
        Some(p) => if p.secret != next.secret {
            p.secret
        } else {
            None
        },
        None => None,
    }
}

fn same_secret(a: Option<SecretKind>, b: Option<SecretKind>) -> (r: bool)
    ensures
        r == (a == b),
{
    match (a, b) {
        (Some(SecretKind::SshKey), Some(SecretKind::SshKey)) => true,
        (Some(SecretKind::RdpProfile), Some(SecretKind::RdpProfile)) => true,
        (None, None) => true,
        _ => false,
    }
}

impl Teardown {
    /// Nothing was running for the service: no process is to be stopped.
    pub open spec fn spec_is_empty(self) -> bool {
        self.client is None && self.tunnel is None
    }

    pub fn is_empty(&self) -> (r: bool)
        ensures
            r == self.spec_is_empty(),
    {
        self.client.is_none() && self.tunnel.is_none()
    }
}

/// What to do for a service's tunnel before a client can be launched.
#[derive(Debug, Clone, Copy, PartialEq, Eq, Structural)]
pub enum TunnelStep {
    /// A tunnel runs already: reuse it.
    Ready(Access),
    /// No tunnel runs; open one on this assigned port.
    Open(u16),
    /// No tunnel runs and no port is assigned yet: find a free one first.
    AllocatePort,
}

/// The orchestrator's state as plain maps keyed by service id.
pub struct RemotesModel {
    pub ports: Map<u128, u16>,
    pub tunnels: Map<u128, Access>,
    pub clients: Map<u128, ActiveClient>,
}

impl RemotesModel {
    /// A client runs only where its tunnel runs, and every tunnel listens on
    /// the port assigned to its service.
    pub open spec fn wf(self) -> bool {
        &&& forall|id: u128| #[trigger] self.clients.contains_key(id) ==> self.tunnels.contains_key(id)
        &&& forall|id: u128| #[trigger]
            self.tunnels.contains_key(id) ==> self.ports.contains_key(id)
                && self.tunnels[id].port == self.ports[id]
    }

    pub open spec fn tunnel_step(self, id: u128) -> TunnelStep {
        if self.tunnels.contains_key(id) {
            TunnelStep::Ready(self.tunnels[id])
        } else if self.ports.contains_key(id) {
            TunnelStep::Open(self.ports[id])
        } else {
            TunnelStep::AllocatePort
        }
    }

    /// The port of `id`: the one assigned, or else `fresh`.
    pub open spec fn port_for(self, id: u128, fresh: u16) -> u16 {
        if self.ports.contains_key(id) {
            self.ports[id]
        } else {
            fresh
        }
    }

    /// Records `fresh` as the port of `id` unless one is assigned already.
    pub open spec fn assign_port(self, id: u128, fresh: u16) -> RemotesModel {
        RemotesModel { ports: self.ports.insert(id, self.port_for(id, fresh)), ..self }
    }

    /// Records the tunnel process `pid` of `id` on its assigned port.
    pub open spec fn install_tunnel(self, id: u128, pid: u32) -> RemotesModel {
        RemotesModel {
            tunnels: self.tunnels.insert(id, Access { port: self.ports[id], pid }),
            ..self
        }
    }

    /// Records the client `h` of `id`, in place of any earlier one.
    pub open spec fn install_client(self, id: u128, h: ActiveClient) -> RemotesModel {
        RemotesModel { clients: self.clients.insert(id, h), ..self }
    }

    /// A whole connect of `id`: reuse the running tunnel, or open one (on the
    /// assigned port, else on `fresh`) as process `tunnel_pid`; then install
    /// the client `h`.
    pub open spec fn connect(self, id: u128, fresh: u16, tunnel_pid: u32, h: ActiveClient) -> RemotesModel {
        if self.tunnels.contains_key(id) {
            self.install_client(id, h)
        } else {
            self.assign_port(id, fresh).install_tunnel(id, tunnel_pid).install_client(id, h)
        }
    }

    /// What a disconnect of `id` stops.
    pub open spec fn teardown(self, id: u128) -> Teardown {
        Teardown {
            client: if self.clients.contains_key(id) {
                Some(self.clients[id])
            } else {
                None
            },
            tunnel: if self.tunnels.contains_key(id) {
                Some(self.tunnels[id])
            } else {
                None
            },
        }
    }

    /// The state after a disconnect of `id`: no client, no tunnel, port kept.
    pub open spec fn disconnect(self, id: u128) -> RemotesModel {
        RemotesModel {
            ports: self.ports,
            tunnels: self.tunnels.remove(id),
            clients: self.clients.remove(id),
        }
    }

    /// `pid` is the running client or tunnel of `id`.
    pub open spec fn owns(self, id: u128, pid: u32) -> bool {
        (self.clients.contains_key(id) && self.clients[id].handle.spec_pid() == pid) || (
        self.tunnels.contains_key(id) && self.tunnels[id].pid == pid)
    }

    /// Whether an event of process `pid` of `id` tears the connection down.
    pub open spec fn cascades(self, id: u128, pid: u32, event: ProcessEvent) -> bool {
        event.spec_is_fatal() && self.owns(id, pid)
    }

    /// The state after an event of process `pid` of `id`.
    pub open spec fn on_event(self, id: u128, pid: u32, event: ProcessEvent) -> RemotesModel {
        if self.cascades(id, pid, event) {
            self.disconnect(id)
        } else {
            self
        }
    }

    /// The state after the application restarts: running processes are gone,
    /// the saved port assignments remain.
    pub open spec fn restart(self) -> RemotesModel {
        RemotesModel { ports: self.ports, tunnels: Map::empty(), clients: Map::empty() }
    }
}

/// The orchestrator: port assignments, running tunnels and running clients,
/// each keyed by service id.
pub struct RemotesState {
    service_ports: HashMap<u128, u16>,
    service_access: HashMap<u128, Access>,
    service_handle: HashMap<u128, ActiveClient>,
}

impl RemotesState {
    pub closed spec fn model(&self) -> RemotesModel {
        RemotesModel {
            ports: self.service_ports@,
            tunnels: self.service_access@,
            clients: self.service_handle@,
        }
    }

    pub open spec fn wf(&self) -> bool {
        self.model().wf()
    }

    /// Starts with the saved port assignments and nothing running.
    pub fn new(saved_ports: &Vec<(u128, u16)>) -> (r: Self)
        ensures
            r.wf(),
            r.model() == (RemotesModel {
                ports: ports_from(saved_ports@),
                tunnels: Map::empty(),
                clients: Map::empty(),
            }),
    {
        let mut ports: HashMap<u128, u16> = HashMap::new();
        let mut i: usize = 0;
        while i < saved_ports.len()
            invariant
                i <= saved_ports@.len(),
                ports@ == ports_from(saved_ports@.subrange(0, i as int)),
            decreases saved_ports@.len() - i,
        {
            let (id, port) = saved_ports[i];
            proof {
                let s = saved_ports@.subrange(0, i + 1);
                assert(s.drop_last() =~= saved_ports@.subrange(0, i as int));
            }
            ports.insert(id, port);
            i = i + 1;
        }
        assert(saved_ports@.subrange(0, i as int) =~= saved_ports@);
        let r = RemotesState {
            service_ports: ports,
            service_access: HashMap::new(),
            service_handle: HashMap::new(),
        };
        assert(r.model().tunnels =~= Map::empty());
        assert(r.model().clients =~= Map::empty());
        r
    }

    /// The port assignments, for saving.
    pub fn service_ports(&self) -> (r: &HashMap<u128, u16>)
        ensures
            r@ == self.model().ports,
    {
        &self.service_ports
    }

    /// Whether a tunnel runs for `id`.
    pub fn has_tunnel(&self, id: u128) -> (r: bool)
        ensures
            r == self.model().tunnels.contains_key(id),
    {
        self.service_access.contains_key(&id)
    }

    /// What to do for the tunnel of `id`: reuse the running one, open one on
    /// the assigned port, or first find a port.
    pub fn service_access(&self, id: u128) -> (r: TunnelStep)
        ensures
            r == self.model().tunnel_step(id),
    {
        match self.service_access.get(&id) {
            Some(a) => TunnelStep::Ready(*a),
            None => match self.service_ports.get(&id) {
                Some(p) => TunnelStep::Open(*p),
                None => TunnelStep::AllocatePort,
            },
        }
    }

    /// Assigns `fresh` to `id` unless a port is assigned already; returns the
    /// port of `id`. An assignment, once made, is never changed.
    pub fn assign_port(&mut self, id: u128, fresh: u16) -> (r: u16)
        requires
            old(self).wf(),
        ensures
            final(self).wf(),
            r == old(self).model().port_for(id, fresh),
            final(self).model() == old(self).model().assign_port(id, fresh),
    {
        let ghost m = self.model();
        let port = match self.service_ports.get(&id) {
            Some(p) => *p,
            None => fresh,
        };
        self.service_ports.insert(id, port);
        assert(self.model().ports == m.assign_port(id, fresh).ports);
        port
    }

    /// Records the tunnel process `pid` just started for `id` on its
    /// assigned port.
    pub fn install_tunnel(&mut self, id: u128, pid: u32) -> (r: Access)
        requires
            old(self).wf(),
            old(self).model().ports.contains_key(id),
            !old(self).model().tunnels.contains_key(id),
        ensures
            final(self).wf(),
            r == (Access { port: old(self).model().ports[id], pid }),
            final(self).model() == old(self).model().install_tunnel(id, pid),
    {
        let port = match self.service_ports.get(&id) {
            Some(p) => *p,
            None => 0,
        };
        let access = Access::new(port, pid);
        self.service_access.insert(id, access);
        assert forall|k: u128| #[trigger] self.model().tunnels.contains_key(k) implies self.model().ports.contains_key(k)
            && self.model().tunnels[k].port == self.model().ports[k] by {
            if k != id {
                assert(old(self).model().tunnels.contains_key(k));
            }
        }
        assert(self.model().clients == old(self).model().clients);
        assert forall|k: u128| #[trigger] self.model().clients.contains_key(k) implies self.model().tunnels.contains_key(k) by {
            assert(old(self).model().clients.contains_key(k));
        }
        access
    }

    /// Installs the client of `id`, whose tunnel runs, in place of any
    /// earlier client; the earlier one is returned to be stopped, with its
    /// secret file where that is to be deleted.
    pub fn connect_service(&mut self, id: u128, client: ActiveClient) -> (r: Replaced)
        requires
            old(self).wf(),
            old(self).model().tunnels.contains_key(id),
        ensures
            final(self).wf(),
            r.previous == old(self).model().teardown(id).client,
            r.stale_secret == stale_secret(r.previous, client),
            final(self).model() == old(self).model().install_client(id, client),
    {
        let previous = self.service_handle.insert(id, client);
        let stale_secret = match previous {
            Some(p) => if same_secret(p.secret, client.secret) {
                None
            } else {
                p.secret
            },
            None => None,
        };
        Replaced { previous, stale_secret }
    }

    /// Removes the client and then the tunnel of `id`, whichever run, and
    /// returns them to be stopped. Nothing running is no error.
    pub fn disconnect_service(&mut self, id: u128) -> (r: Teardown)
        requires
            old(self).wf(),
        ensures
            final(self).wf(),
            r == old(self).model().teardown(id),
            final(self).model() == old(self).model().disconnect(id),
    {
        let client = self.service_handle.remove(&id);
        let tunnel = self.service_access.remove(&id);
        Teardown { client, tunnel }
    }

    /// Reacts to an event of the supervised process `pid` of `id`. An error
    /// or termination of the running client or tunnel disconnects `id` and
    /// returns what to stop; the caller then reports the disconnection. Any
    /// other event, or one of a process that no longer runs, changes nothing.
    pub fn on_process_event(&mut self, id: u128, pid: u32, event: ProcessEvent) -> (r: Option<
        Teardown,
    >)
        requires
            old(self).wf(),
        ensures
            final(self).wf(),
            final(self).model() == old(self).model().on_event(id, pid, event),
            r == (if old(self).model().cascades(id, pid, event) {
                Some(old(self).model().teardown(id))
            } else {
                None
            }),
    {
        if !event.is_fatal() {
            return None;
        }
        let client_owns = match self.service_handle.get(&id) {
            Some(c) => c.handle.pid() == pid,
            None => false,
        };
        let tunnel_owns = match self.service_access.get(&id) {
            Some(a) => a.pid == pid,
            None => false,
        };
        if client_owns || tunnel_owns {
            Some(self.disconnect_service(id))
        } else {
            None
        }
    }
}

/// A whole connect keeps the state well formed, and leaves a tunnel and the
/// new client running for the service.
pub proof fn lemma_connect_wf(m: RemotesModel, id: u128, fresh: u16, tunnel_pid: u32, h: ActiveClient)
    requires
        m.wf(),
    ensures
        m.connect(id, fresh, tunnel_pid, h).wf(),
        m.connect(id, fresh, tunnel_pid, h).tunnels.contains_key(id),
        m.connect(id, fresh, tunnel_pid, h).clients.contains_key(id),
        m.connect(id, fresh, tunnel_pid, h).clients[id] == h,
        m.connect(id, fresh, tunnel_pid, h).ports.contains_key(id),
        m.connect(id, fresh, tunnel_pid, h).tunnels[id].port == m.connect(
            id,
            fresh,
            tunnel_pid,
            h,
        ).ports[id],
{
    let r = m.connect(id, fresh, tunnel_pid, h);
    assert forall|k: u128| #[trigger] r.clients.contains_key(k) implies r.tunnels.contains_key(k) by {
        if k != id {
            assert(m.clients.contains_key(k));
        }
    }
    assert forall|k: u128| #[trigger] r.tunnels.contains_key(k) implies r.ports.contains_key(k)
        && r.tunnels[k].port == r.ports[k] by {
        if k != id {
            assert(m.tunnels.contains_key(k));
        }
    }
}

/// A disconnect keeps the state well formed.
pub proof fn lemma_disconnect_wf(m: RemotesModel, id: u128)
    requires
        m.wf(),
    ensures
        m.disconnect(id).wf(),
{
    let r = m.disconnect(id);
    assert forall|k: u128| #[trigger] r.clients.contains_key(k) implies r.tunnels.contains_key(k) by {
        assert(m.clients.contains_key(k));
    }
    assert forall|k: u128| #[trigger] r.tunnels.contains_key(k) implies r.ports.contains_key(k)
        && r.tunnels[k].port == r.ports[k] by {
        assert(m.tunnels.contains_key(k));
    }
}

/// Disconnecting a service that was never connected stops nothing and
/// changes nothing.
pub proof fn lemma_disconnect_never_connected(m: RemotesModel, id: u128)
    requires
        m.wf(),
        !m.tunnels.contains_key(id),
    ensures
        m.teardown(id).spec_is_empty(),
        m.disconnect(id) == m,
{
    assert(m.tunnels.remove(id) =~= m.tunnels);
    assert(m.clients.remove(id) =~= m.clients);
}

/// Two connects of one service leave one tunnel, the one the first connect
/// opened, and one client, the second; the second connect hands back the
/// first client to be stopped.
pub proof fn lemma_connect_twice(
    m: RemotesModel,
    id: u128,
    fresh1: u16,
    tunnel_pid1: u32,
    h1: ActiveClient,
    fresh2: u16,
    tunnel_pid2: u32,
    h2: ActiveClient,
)
    requires
        m.wf(),
    ensures
        ({
            let m1 = m.connect(id, fresh1, tunnel_pid1, h1);
            let m2 = m1.connect(id, fresh2, tunnel_pid2, h2);
            &&& m1.tunnels.contains_key(id)
            &&& m2.tunnels == m1.tunnels
            &&& m1.teardown(id).client == Some(h1)
            &&& m2.clients.contains_key(id)
            &&& m2.clients[id] == h2
            &&& m2.wf()
        }),
{
    let m1 = m.connect(id, fresh1, tunnel_pid1, h1);
    lemma_connect_wf(m, id, fresh1, tunnel_pid1, h1);
    lemma_connect_wf(m1, id, fresh2, tunnel_pid2, h2);
}

/// A second disconnect in a row stops nothing and changes nothing.
pub proof fn lemma_disconnect_twice(m: RemotesModel, id: u128)
    requires
        m.wf(),
    ensures
        m.disconnect(id).teardown(id).spec_is_empty(),
        m.disconnect(id).disconnect(id) == m.disconnect(id),
{
    lemma_disconnect_wf(m, id);
    lemma_disconnect_never_connected(m.disconnect(id), id);
}

/// Connect, disconnect and connect again use the same local port, also when
/// the application restarted in between.
pub proof fn lemma_port_stable(
    m: RemotesModel,
    id: u128,
    fresh1: u16,
    tunnel_pid1: u32,
    h1: ActiveClient,
    fresh2: u16,
    tunnel_pid2: u32,
    h2: ActiveClient,
)
    requires
        m.wf(),
    ensures
        ({
            let m1 = m.connect(id, fresh1, tunnel_pid1, h1);
            let again = m1.disconnect(id).connect(id, fresh2, tunnel_pid2, h2);
            let restarted = m1.disconnect(id).restart().connect(id, fresh2, tunnel_pid2, h2);
            &&& again.tunnels[id].port == m1.tunnels[id].port
            &&& restarted.tunnels[id].port == m1.tunnels[id].port
        }),
{
    lemma_connect_wf(m, id, fresh1, tunnel_pid1, h1);
}

/// When the client of a connected service ends, the service is left with no
/// tunnel and no client, and the ending is reported once: no later event of
/// any process of that service tears anything down again.
pub proof fn lemma_cascade_once(
    m: RemotesModel,
    id: u128,
    fresh: u16,
    tunnel_pid: u32,
    h: ActiveClient,
    later_pid: u32,
    later_event: ProcessEvent,
)
    requires
        m.wf(),
    ensures
        ({
            let m1 = m.connect(id, fresh, tunnel_pid, h);
            let m2 = m1.on_event(id, h.handle.spec_pid(), ProcessEvent::Terminated);
            &&& m1.cascades(id, h.handle.spec_pid(), ProcessEvent::Terminated)
            &&& !m2.tunnels.contains_key(id)
            &&& !m2.clients.contains_key(id)
            &&& !m2.cascades(id, later_pid, later_event)
            &&& m2.on_event(id, later_pid, later_event) == m2
        }),
{
    lemma_connect_wf(m, id, fresh, tunnel_pid, h);
}

} // verus!
