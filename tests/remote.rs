use argo_tunnel::remote::cloudflared::{tunnel_args, Access};
use argo_tunnel::remote::event::ProcessEvent;
use argo_tunnel::remote::handle::{ClientKind, LaunchArg, LaunchError, Platform, RemoteHandle, SecretKind};
use argo_tunnel::remote::state::{ActiveClient, Replaced, RemotesState, Teardown, TunnelStep};
use argo_tunnel::remote::{connect_decision, ConnectDecision, RemoteError};
use argo_tunnel::servers::credentials::Credential;
use argo_tunnel::servers::models::{Protocol, Service};

const S1: u128 = 0x1111_2222_3333_4444_5555_6666_7777_8888;
const S2: u128 = 42;

fn ssh_service(id: u128) -> Service {
    Service {
        id,
        protocol: Protocol::Ssh,
        port: 22,
        host: "10.0.0.5".to_string(),
        status: Some("active".to_string()),
    }
}

fn key_credential() -> Credential {
    Credential::SshKey { login: "ops".to_string(), key: "<pem>".to_string() }
}

fn texts(args: &[LaunchArg]) -> Vec<String> {
    args.iter()
        .map(|a| match a {
            LaunchArg::Text(s) => s.clone(),
            LaunchArg::SecretPath => "<secret>".to_string(),
        })
        .collect()
}

/// Runs one whole connect as the application does; returns the replaced client.
fn connect(state: &mut RemotesState, id: u128, fresh: u16, tunnel_pid: u32, client: RemoteHandle) -> Option<RemoteHandle> {
    match state.service_access(id) {
        TunnelStep::Ready(_) => {}
        TunnelStep::Open(_) => {
            state.install_tunnel(id, tunnel_pid);
        }
        TunnelStep::AllocatePort => {
            state.assign_port(id, fresh);
            state.install_tunnel(id, tunnel_pid);
        }
    }
    state.connect_service(id, ActiveClient { handle: client, secret: None }).previous.map(|c| c.handle)
}

fn active(handle: RemoteHandle) -> ActiveClient {
    ActiveClient { handle, secret: None }
}

#[test]
fn disconnect_never_connected_is_noop() {
    let mut state = RemotesState::new(&vec![]);
    let t = state.disconnect_service(S1);
    assert!(t.is_empty());
    assert_eq!(t, Teardown { client: None, tunnel: None });
    assert_eq!(state.service_access(S1), TunnelStep::AllocatePort);
}

#[test]
fn connect_twice_keeps_one_tunnel_and_replaces_client() {
    let mut state = RemotesState::new(&vec![]);
    let first = RemoteHandle::Ssh(100);
    let second = RemoteHandle::Ssh(101);
    assert_eq!(connect(&mut state, S1, 5000, 10, first), None);
    assert_eq!(connect(&mut state, S1, 6000, 11, second), Some(first));
    assert_eq!(state.service_access(S1), TunnelStep::Ready(Access { port: 5000, pid: 10 }));
    let t = state.disconnect_service(S1);
    assert_eq!(t.client, Some(active(second)));
    assert_eq!(t.tunnel, Some(Access { port: 5000, pid: 10 }));
}

#[test]
fn disconnect_twice_second_does_nothing() {
    let mut state = RemotesState::new(&vec![]);
    connect(&mut state, S1, 5000, 10, RemoteHandle::Ssh(100));
    let first = state.disconnect_service(S1);
    assert!(!first.is_empty());
    let second = state.disconnect_service(S1);
    assert!(second.is_empty());
}

#[test]
fn port_is_stable_across_reconnect_and_restart() {
    let mut state = RemotesState::new(&vec![]);
    connect(&mut state, S1, 5000, 10, RemoteHandle::Ssh(100));
    state.disconnect_service(S1);
    assert_eq!(state.service_access(S1), TunnelStep::Open(5000));
    connect(&mut state, S1, 7000, 12, RemoteHandle::Ssh(102));
    assert_eq!(state.service_access(S1), TunnelStep::Ready(Access { port: 5000, pid: 12 }));

    let saved: Vec<(u128, u16)> = state.service_ports().iter().map(|(k, v)| (*k, *v)).collect();
    let mut restarted = RemotesState::new(&saved);
    assert_eq!(restarted.service_access(S1), TunnelStep::Open(5000));
    assert_eq!(restarted.assign_port(S1, 9000), 5000);
}

#[test]
fn saved_ports_later_pair_wins() {
    let state = RemotesState::new(&vec![(S1, 1000), (S2, 2000), (S1, 3000)]);
    assert_eq!(state.service_ports().get(&S1), Some(&3000));
    assert_eq!(state.service_ports().get(&S2), Some(&2000));
}

#[test]
fn client_termination_cascades_once() {
    let mut state = RemotesState::new(&vec![]);
    let client = RemoteHandle::Ssh(100);
    connect(&mut state, S1, 5000, 10, client);
    assert_eq!(state.on_process_event(S1, 100, ProcessEvent::Stdout), None);
    let t = state.on_process_event(S1, 100, ProcessEvent::Terminated);
    assert_eq!(t, Some(Teardown { client: Some(active(client)), tunnel: Some(Access { port: 5000, pid: 10 }) }));
    assert!(!state.has_tunnel(S1));
    // the tunnel that the teardown stopped ends too: nothing more happens
    assert_eq!(state.on_process_event(S1, 10, ProcessEvent::Terminated), None);
    assert_eq!(state.on_process_event(S1, 100, ProcessEvent::Error), None);
}

#[test]
fn replaced_client_ending_does_not_cascade() {
    let mut state = RemotesState::new(&vec![]);
    connect(&mut state, S1, 5000, 10, RemoteHandle::Ssh(100));
    connect(&mut state, S1, 5000, 10, RemoteHandle::Ssh(101));
    assert_eq!(state.on_process_event(S1, 100, ProcessEvent::Terminated), None);
    assert!(state.has_tunnel(S1));
}

#[test]
fn tunnel_spawn_error_cascades() {
    let mut state = RemotesState::new(&vec![]);
    connect(&mut state, S1, 5000, 10, RemoteHandle::Ssh(100));
    let t = state.on_process_event(S1, 10, ProcessEvent::Error).unwrap();
    assert_eq!(t.tunnel, Some(Access { port: 5000, pid: 10 }));
    assert!(!state.has_tunnel(S1));
}

#[test]
fn services_are_independent() {
    let mut state = RemotesState::new(&vec![]);
    connect(&mut state, S1, 5000, 10, RemoteHandle::Ssh(100));
    connect(&mut state, S2, 5001, 20, RemoteHandle::RdpXfreerdp(200));
    state.disconnect_service(S1);
    assert!(state.has_tunnel(S2));
    assert_eq!(state.service_access(S2), TunnelStep::Ready(Access { port: 5001, pid: 20 }));
}

#[test]
fn dispatch_ssh_key_and_password_succeed() {
    let url = "localhost:5000";
    let plan = RemoteHandle::launch_plan(Protocol::Ssh, url, &key_credential(), Platform::Linux).unwrap();
    assert_eq!(plan.program, "ssh");
    assert_eq!(texts(&plan.args), vec!["-i", "<secret>", "ops@localhost:5000"]);
    let secret = plan.secret.unwrap();
    assert_eq!(secret.kind, SecretKind::SshKey);
    assert_eq!(secret.contents, "<pem>");
    assert_eq!(plan.kind, ClientKind::Ssh);

    let cred = Credential::SshUserPassword { login: "ops".to_string(), password: "pw".to_string() };
    let plan = RemoteHandle::launch_plan(Protocol::Ssh, url, &cred, Platform::Windows).unwrap();
    assert_eq!(plan.program, "sshpass");
    assert_eq!(texts(&plan.args), vec!["-p", "pw", "ssh", "ops@localhost:5000"]);
    assert!(plan.secret.is_none());
}

#[test]
fn dispatch_rdp_with_ssh_key_is_refused() {
    let r = RemoteHandle::launch_plan(Protocol::Rdp, "localhost:5000", &key_credential(), Platform::Windows);
    assert_eq!(r.err(), Some(LaunchError::UnsupportedCombination));
    let cred = Credential::RdpUserPassword { login: "a".to_string(), password: "b".to_string(), domain: "c".to_string() };
    let r = RemoteHandle::launch_plan(Protocol::Ssh, "localhost:5000", &cred, Platform::Linux);
    assert_eq!(r.err(), Some(LaunchError::UnsupportedCombination));
    assert_eq!(RemoteError::from_launch(LaunchError::UnsupportedCombination), RemoteError::UnsupportedCombination);
}

#[test]
fn dispatch_rdp_per_platform() {
    let cred = Credential::RdpUserPassword { login: "adm".to_string(), password: "pw".to_string(), domain: "corp".to_string() };
    let url = "localhost:3390";
    let win = RemoteHandle::launch_plan(Protocol::Rdp, url, &cred, Platform::Windows).unwrap();
    assert_eq!(win.program, "mstsc");
    assert_eq!(texts(&win.args), vec!["<secret>"]);
    assert_eq!(win.kind, ClientKind::RdpMstsc);
    let profile = win.secret.unwrap();
    assert_eq!(profile.kind, SecretKind::RdpProfile);
    assert!(profile.contents.starts_with("full address:s:localhost:3390\nusername:s:adm\npassword:s:pw\ndomain:s:corp\nscreen mode id:i:2\n"));
    assert!(profile.contents.ends_with("remoteapplicationcmdline:s:"));
    assert_eq!(profile.contents.lines().count(), 22);

    let linux = RemoteHandle::launch_plan(Protocol::Rdp, url, &cred, Platform::Linux).unwrap();
    assert_eq!(linux.program, "xfreerdp");
    assert_eq!(linux.kind, ClientKind::RdpXfreerdp);

    let mac = RemoteHandle::launch_plan(Protocol::Rdp, url, &cred, Platform::MacOs).unwrap();
    assert_eq!(mac.program, "open");
    assert_eq!(texts(&mac.args), vec!["-a", "Windows App", "localhost:3390"]);
    assert_eq!(mac.kind, ClientKind::RdpMacApp);
}

#[test]
fn scenario_ssh_key_connect_and_disconnect() {
    let service = ssh_service(S1);
    let mut state = RemotesState::new(&vec![]);
    let decision = connect_decision(true, Some(key_credential())).unwrap();
    let credential = match decision {
        ConnectDecision::Connect(c) => c,
        ConnectDecision::PromptCredentials => panic!("credential expected"),
    };
    assert_eq!(state.service_access(S1), TunnelStep::AllocatePort);
    let port = state.assign_port(S1, 49152);
    assert_eq!(port, 49152);
    assert_eq!(tunnel_args(&service, port), vec!["tunnel", "--url", "tcp://10.0.0.5:22", "--local-port", "49152"]);
    let access = state.install_tunnel(S1, 900);
    let url = access.url();
    assert_eq!(url, "localhost:49152");
    let plan = RemoteHandle::launch_plan(service.protocol, &url, &credential, Platform::Linux).unwrap();
    assert_eq!(plan.program, "ssh");
    assert_eq!(texts(&plan.args), vec!["-i", "<secret>", "ops@localhost:49152"]);
    let handle = RemoteHandle::new(plan.kind, 901);
    let secret = plan.secret.map(|f| f.kind);
    assert_eq!(secret, Some(SecretKind::SshKey));
    let replaced = state.connect_service(S1, ActiveClient { handle, secret });
    assert_eq!(replaced, Replaced { previous: None, stale_secret: None });

    let t = state.disconnect_service(S1);
    assert_eq!(t.client.map(|c| c.secret), Some(Some(SecretKind::SshKey)));
    assert_eq!(t.client.map(|c| c.handle.stop()), Some(901));
    assert_eq!(t.tunnel.map(|a| a.stop()), Some(900));
    assert_eq!(state.service_access(S1), TunnelStep::Open(49152));
}

#[test]
fn connect_decision_cases() {
    assert_eq!(connect_decision(false, Some(key_credential())).err(), Some(RemoteError::NotFound));
    assert!(matches!(connect_decision(true, None), Ok(ConnectDecision::PromptCredentials)));
    let empty = Credential::empty_ssh_user_password();
    assert!(matches!(connect_decision(true, Some(empty)), Ok(ConnectDecision::PromptCredentials)));
    assert!(matches!(connect_decision(true, Some(key_credential())), Ok(ConnectDecision::Connect(_))));
}

#[test]
fn tunnel_args_negative_and_large_ports() {
    let mut service = ssh_service(S1);
    service.port = -7;
    service.host = "h".to_string();
    assert_eq!(tunnel_args(&service, 0), vec!["tunnel", "--url", "tcp://h:-7", "--local-port", "0"]);
    service.port = i32::MIN;
    assert_eq!(tunnel_args(&service, 65535)[2], "tcp://h:-2147483648");
    assert_eq!(tunnel_args(&service, 65535)[4], "65535");
}

#[test]
fn handle_kinds_and_pids() {
    for (kind, pid) in [(ClientKind::Ssh, 1u32), (ClientKind::RdpMstsc, 2), (ClientKind::RdpMacApp, 3), (ClientKind::RdpXfreerdp, 4)] {
        let h = RemoteHandle::new(kind, pid);
        assert_eq!(h.pid(), pid);
        assert_eq!(h.stop(), pid);
    }
    assert_eq!(Access::new(8080, 5).url(), "localhost:8080");
    assert!(ProcessEvent::Terminated.is_fatal());
    assert!(ProcessEvent::Error.is_fatal());
    assert!(!ProcessEvent::Stderr.is_fatal());
}

#[test]
fn replacing_client_reports_stale_secret() {
    let mut state = RemotesState::new(&vec![]);
    connect(&mut state, S1, 5000, 10, RemoteHandle::Ssh(100));
    let key = ActiveClient { handle: RemoteHandle::Ssh(101), secret: Some(SecretKind::SshKey) };
    let r = state.connect_service(S1, key);
    assert_eq!(r.stale_secret, None);
    let again = ActiveClient { handle: RemoteHandle::Ssh(102), secret: Some(SecretKind::SshKey) };
    let r = state.connect_service(S1, again);
    assert_eq!(r, Replaced { previous: Some(key), stale_secret: None });
    let password = ActiveClient { handle: RemoteHandle::Ssh(103), secret: None };
    let r = state.connect_service(S1, password);
    assert_eq!(r, Replaced { previous: Some(again), stale_secret: Some(SecretKind::SshKey) });
}
