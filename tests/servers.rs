use argo_tunnel::servers::credentials::{Credential, CredentialError};
use argo_tunnel::servers::models::{Protocol, Service};
use argo_tunnel::servers::state::{SecretStoreAction, ServersState, ServiceCredential};
use argo_tunnel::util::PlatformInfo;
use argo_tunnel::remote::handle::Platform;

fn login(c: &Credential) -> &str {
    match c {
        Credential::RdpUserPassword { login, .. }
        | Credential::SshUserPassword { login, .. }
        | Credential::SshKey { login, .. } => login,
    }
}

#[test]
fn protocol_names() {
    assert_eq!(Protocol::Rdp.as_str(), "rdp");
    assert_eq!(Protocol::Ssh.as_str(), "ssh");
}

#[test]
fn empty_credentials() {
    assert!(Credential::empty_rdp().is_empty());
    assert!(Credential::empty_ssh_user_password().is_empty());
    assert!(matches!(Credential::empty_for(Protocol::Rdp), Credential::RdpUserPassword { .. }));
    assert!(matches!(Credential::empty_for(Protocol::Ssh), Credential::SshUserPassword { .. }));
    let c = Credential::SshKey { login: "ops".to_string(), key: "k".to_string() };
    assert!(!c.is_empty());
    let c = Credential::SshKey { login: String::new(), key: "k".to_string() };
    assert!(c.is_empty());
}

#[test]
fn update_rdp_replaces() {
    let mut c = Credential::empty_ssh_user_password();
    assert!(c.update_rdp("u".to_string(), "p".to_string(), "d".to_string()).is_ok());
    match c {
        Credential::RdpUserPassword { login, password, domain } => {
            assert_eq!((login.as_str(), password.as_str(), domain.as_str()), ("u", "p", "d"));
        }
        _ => panic!("rdp credential expected"),
    }
}

#[test]
fn update_ssh_key_or_password() {
    let mut c = Credential::empty_rdp();
    assert!(c.update_ssh("ops".to_string(), String::new(), "KEY".to_string()).is_ok());
    assert!(matches!(&c, Credential::SshKey { key, .. } if key == "KEY"));
    assert!(c.update_ssh("root".to_string(), "pw".to_string(), String::new()).is_ok());
    assert!(matches!(&c, Credential::SshUserPassword { password, .. } if password == "pw"));
    assert_eq!(login(&c), "root");
}

#[test]
fn update_ssh_both_is_refused_and_keeps_credential() {
    let mut c = Credential::SshKey { login: "ops".to_string(), key: "k".to_string() };
    let r = c.update_ssh("x".to_string(), "pw".to_string(), "key".to_string());
    assert_eq!(r, Err(CredentialError::KeyAndPassword));
    assert_eq!(login(&c), "ops");
}

#[test]
fn service_active_status() {
    let mut s = Service { id: 1, protocol: Protocol::Rdp, port: 3389, host: "h".to_string(), status: Some("active".to_string()) };
    assert!(s.is_active());
    s.status = Some("inactive".to_string());
    assert!(!s.is_active());
    s.status = None;
    assert!(!s.is_active());
}

#[test]
fn platform_info_from_os() {
    let p = PlatformInfo::from_os("linux".to_string());
    assert!(p.is_linux && !p.is_macos && !p.is_windows);
    assert_eq!(p.platform(), Some(Platform::Linux));
    assert_eq!(PlatformInfo::from_os("macos".to_string()).platform(), Some(Platform::MacOs));
    assert_eq!(PlatformInfo::from_os("windows".to_string()).platform(), Some(Platform::Windows));
    assert_eq!(PlatformInfo::from_os("freebsd".to_string()).platform(), None);
}

fn rdp_service(id: u128) -> Service {
    Service { id, protocol: Protocol::Rdp, port: 3389, host: "win".to_string(), status: None }
}

#[test]
fn service_credential_from_store() {
    let s = rdp_service(7);
    let stored = Credential::RdpUserPassword { login: "a".to_string(), password: "b".to_string(), domain: "c".to_string() };
    let c = ServiceCredential::new(&s, true, Some(stored));
    assert!(c.remember);
    assert_eq!(login(&c.credential), "a");
    let c = ServiceCredential::new(&s, true, None);
    assert!(c.remember && c.credential.is_empty());
    assert!(matches!(c.credential, Credential::RdpUserPassword { .. }));
    let ssh = Service { protocol: Protocol::Ssh, ..rdp_service(8) };
    let c = ServiceCredential::new(&ssh, false, None);
    assert!(!c.remember);
    assert!(matches!(c.credential, Credential::SshUserPassword { .. }));
}

#[test]
fn credential_cache_load_and_update() {
    let mut st = ServersState::new();
    assert!(st.cached_credential(7).is_none());
    assert_eq!(st.is_remembered(7), Err(CredentialError::NoCredentials));
    let blank = ServiceCredential::new(&rdp_service(7), false, None);
    assert!(st.load_service_credential(blank).is_none());
    assert!(st.cached_credential(7).is_none());
    assert_eq!(st.is_remembered(7), Ok(false));

    let (cred, action) = st
        .update_rdp_service_credentials(7, "adm".to_string(), "pw".to_string(), "corp".to_string(), true)
        .unwrap();
    assert_eq!(login(&cred), "adm");
    assert!(matches!(action, SecretStoreAction::Save(Credential::RdpUserPassword { .. })));
    assert_eq!(st.is_remembered(7), Ok(true));
    assert_eq!(st.cached_credential(7).map(|c| login(&c).to_string()), Some("adm".to_string()));

    let (_, action) = st
        .update_rdp_service_credentials(7, "adm".to_string(), "pw2".to_string(), "corp".to_string(), false)
        .unwrap();
    assert!(matches!(action, SecretStoreAction::Delete));
    assert_eq!(st.is_remembered(7), Ok(false));
    assert!(st
        .update_rdp_service_credentials(9, "a".to_string(), "b".to_string(), "c".to_string(), false)
        .is_err());
}

#[test]
fn credential_cache_ssh_update_rules() {
    let mut st = ServersState::new();
    let ssh = Service { protocol: Protocol::Ssh, ..rdp_service(8) };
    st.load_service_credential(ServiceCredential::new(&ssh, false, None));
    let r = st.update_ssh_service_credentials(8, "ops".to_string(), "pw".to_string(), "key".to_string(), true);
    assert_eq!(r.err(), Some(CredentialError::KeyAndPassword));
    assert!(st.cached_credential(8).is_none());
    let (cred, _) = st
        .update_ssh_service_credentials(8, "ops".to_string(), String::new(), "key".to_string(), true)
        .unwrap();
    assert!(matches!(cred, Credential::SshKey { .. }));
    let r = st.update_ssh_service_credentials(99, "ops".to_string(), String::new(), String::new(), true);
    assert_eq!(r.err(), Some(CredentialError::NoCredentials));
}

use argo_tunnel::servers::registry::{
    add_server, add_service, delete_server, delete_service, get_service, update_server, update_service, Company,
    ExpandedCompanies, Server,
};

fn svc(id: u128, host: &str) -> Service {
    Service { id, protocol: Protocol::Ssh, port: 22, host: host.to_string(), status: None }
}

#[test]
fn registry_lookup_first_match() {
    let data = vec![
        Company {
            id: 1,
            name: "A".to_string(),
            servers: vec![
                Server { id: 10, name: "s1".to_string(), description: None, services: vec![svc(100, "a"), svc(101, "b")] },
                Server { id: 11, name: "s2".to_string(), description: None, services: vec![] },
            ],
        },
        Company {
            id: 2,
            name: "B".to_string(),
            servers: vec![Server { id: 12, name: "s3".to_string(), description: None, services: vec![svc(102, "c"), svc(101, "dup")] }],
        },
    ];
    assert_eq!(get_service(&data, 102).map(|s| s.host), Some("c".to_string()));
    assert_eq!(get_service(&data, 101).map(|s| s.host), Some("b".to_string()));
    assert!(get_service(&data, 999).is_none());
    assert!(get_service(&vec![], 100).is_none());
}

#[test]
fn expanded_companies_toggle_and_list() {
    let data = vec![
        Company { id: 1, name: "A".to_string(), servers: vec![] },
        Company { id: 2, name: "B".to_string(), servers: vec![] },
        Company { id: 3, name: "C".to_string(), servers: vec![] },
    ];
    let mut e = ExpandedCompanies::new(&vec![3, 9, 1]);
    assert_eq!(e.list_expanded_companies(&data), vec![1, 3]);
    assert!(e.toggle_company_expansion(1));
    assert!(e.toggle_company_expansion(2));
    assert_eq!(e.list_expanded_companies(&data), vec![2, 3]);
}

fn server(id: u128, services: Vec<Service>) -> Server {
    Server { id, name: format!("s{id}"), description: None, services }
}

#[test]
fn add_server_to_local_company() {
    let mut data = vec![Company { id: 1, name: "Acme".to_string(), servers: vec![] }];
    add_server(&mut data, server(10, vec![]), 2);
    assert_eq!(data.len(), 2);
    assert_eq!(data[1].name, "Local Servers");
    assert_eq!(data[1].id, 2);
    assert_eq!(data[1].servers.len(), 1);
    add_server(&mut data, server(11, vec![]), 3);
    assert_eq!(data.len(), 2);
    let ids: Vec<u128> = data[1].servers.iter().map(|s| s.id).collect();
    assert_eq!(ids, vec![10, 11]);
}

#[test]
fn delete_service_everywhere() {
    let mut data = vec![Company {
        id: 1,
        name: "A".to_string(),
        servers: vec![server(10, vec![svc(100, "a"), svc(101, "b")]), server(11, vec![svc(100, "c")])],
    }];
    delete_service(&mut data, 100);
    assert_eq!(data[0].servers[0].services.len(), 1);
    assert_eq!(data[0].servers[0].services[0].id, 101);
    assert!(data[0].servers[1].services.is_empty());
    assert!(get_service(&data, 100).is_none());
}

#[test]
fn delete_server_drops_empty_companies() {
    let mut data = vec![
        Company { id: 1, name: "A".to_string(), servers: vec![server(10, vec![])] },
        Company { id: 2, name: "B".to_string(), servers: vec![server(11, vec![]), server(12, vec![])] },
    ];
    delete_server(&mut data, 11);
    assert_eq!(data.len(), 2);
    assert_eq!(data[1].servers.len(), 1);
    delete_server(&mut data, 10);
    assert_eq!(data.len(), 1);
    assert_eq!(data[0].id, 2);
}

fn two_companies() -> Vec<Company> {
    vec![
        Company { id: 1, name: "A".to_string(), servers: vec![server(10, vec![svc(100, "a")])] },
        Company { id: 2, name: "B".to_string(), servers: vec![server(11, vec![]), server(10, vec![])] },
    ]
}

#[test]
fn add_service_to_first_matching_server() {
    let mut data = two_companies();
    add_service(&mut data, 10, svc(200, "new"));
    assert_eq!(data[0].servers[0].services.len(), 2);
    assert!(data[1].servers[1].services.is_empty());
    add_service(&mut data, 99, svc(201, "lost"));
    assert!(get_service(&data, 201).is_none());
}

#[test]
fn update_server_and_service() {
    let mut data = two_companies();
    update_server(&mut data, 11, "renamed".to_string(), Some("d".to_string()));
    assert_eq!(data[1].servers[0].name, "renamed");
    assert_eq!(data[1].servers[0].description.as_deref(), Some("d"));
    update_service(&mut data, 100, Protocol::Rdp, "h2".to_string(), 3389);
    let s = get_service(&data, 100).unwrap();
    assert_eq!((s.protocol, s.host.as_str(), s.port), (Protocol::Rdp, "h2", 3389));
    update_service(&mut data, 555, Protocol::Rdp, "x".to_string(), 1);
    assert!(get_service(&data, 555).is_none());
}
