use vstd::prelude::*;
use vstd::string::*;

use crate::remote::cloudflared::views;
use crate::servers::credentials::Credential;
use crate::servers::models::Protocol;
use crate::text::concat_str;

verus! {

/// Fixed display and redirection options that close every RDP profile.
pub const RDP_PROFILE_OPTIONS: &'static str = "\nscreen mode id:i:2\nuse multimon:i:1\naudiomode:i:0\nredirectclipboard:i:1\nredirectprinters:i:1\nredirectsmartcards:i:1\nredirectcomports:i:1\nredirectusbdevices:i:1\ndisableconnectionsharing:i:1\nauthentication level:i:2\nprompt for credentials:i:0\nnegotiate security layer:i:1\nremoteapplicationmode:i:0\nalternate shell:s:\nshell working directory:s:\nremoteapplicationprogram:s:\nremoteapplicationname:s:\nremoteapplicationcmdline:s:";

/// Text of the RDP connection profile for a login at `url`.
pub open spec fn rdp_profile(
    url: Seq<char>,
    login: Seq<char>,
    password: Seq<char>,
    domain: Seq<char>,
) -> Seq<char> {
    "full address:s:"@ + url + "\nusername:s:"@ + login + "\npassword:s:"@ + password
        + "\ndomain:s:"@ + domain + RDP_PROFILE_OPTIONS@
}

/// `login@url`, the SSH destination.
pub open spec fn ssh_destination(login: Seq<char>, url: Seq<char>) -> Seq<char> {
    login + "@"@ + url
}

/// The operating system the client programs run on.
#[derive(Debug, Clone, Copy, PartialEq, Eq, Structural)]
pub enum Platform {
    Windows,
    Linux,
    MacOs,
}

/// Which client program a handle stands for.
#[derive(Debug, Clone, Copy, PartialEq, Eq, Structural)]
pub enum ClientKind {
    Ssh,
    RdpMstsc,
    RdpMacApp,
    RdpXfreerdp,
}

/// A running client process, by kind and process id.
#[derive(Debug, Clone, Copy, PartialEq, Eq, Structural)]
pub enum RemoteHandle {
    Ssh(u32),
    RdpMstsc(u32),
    RdpMacApp(u32),
    RdpXfreerdp(u32),
}

/// A secret file that must exist, owner-readable only, before the client starts.
#[derive(Debug, Clone, Copy, PartialEq, Eq, Structural)]
pub enum SecretKind {
    /// A private key for SSH.
    SshKey,
    /// An RDP connection profile.
    RdpProfile,
}

/// A secret file to write: its kind and contents.
pub struct SecretFile {
    pub kind: SecretKind,
    pub contents: String,
}

/// One argument of a client command line.
pub enum LaunchArg {
    Text(String),
    /// The path at which the secret file was written.
    SecretPath,
}

/// A command-line argument as characters, or the secret file's path.
pub enum ArgView {
    Text(Seq<char>),
    SecretPath,
}

impl LaunchArg {
    pub open spec fn view(&self) -> ArgView {
        match self {
            LaunchArg::Text(s) => ArgView::Text(s@),
            LaunchArg::SecretPath => ArgView::SecretPath,
        }
    }
}

/// How to start a client: the secret file to write first, the program, its
/// arguments, and the kind of handle the started process becomes.
pub struct LaunchPlan {
    pub secret: Option<SecretFile>,
    pub program: String,
    pub args: Vec<LaunchArg>,
    pub kind: ClientKind,
}

/// A launch plan as plain values.
pub struct LaunchPlanView {
    pub secret: Option<(SecretKind, Seq<char>)>,
    pub program: Seq<char>,
    pub args: Seq<ArgView>,
    pub kind: ClientKind,
}

impl LaunchPlan {
    pub open spec fn view(&self) -> LaunchPlanView {
        LaunchPlanView {
            secret: match self.secret {
                Some(f) => Some((f.kind, f.contents@)),
                None => None,
            },
            program: self.program@,
            args: self.args@.map_values(|a: LaunchArg| a.view()),
            kind: self.kind,
        }
    }
}

/// Why no client could be launched.
#[derive(Debug, Clone, Copy, PartialEq, Eq, Structural)]
pub enum LaunchError {
    /// The credential's shape does not belong to the protocol.
    UnsupportedCombination,
}

/// The launch plan for a protocol and credential, or `None` where the pair is
/// not supported: RDP takes a user/password/domain login; SSH takes a key or a
/// user/password login.
pub open spec fn launch_plan_spec(
    protocol: Protocol,
    url: Seq<char>,
    credential: Credential,
    platform: Platform,
) -> Option<LaunchPlanView> {
    match (protocol, credential) {
        (Protocol::Rdp, Credential::RdpUserPassword { login, password, domain }) => Some(
            LaunchPlanView {
                secret: Some(
                    (SecretKind::RdpProfile, rdp_profile(url, login@, password@, domain@)),
                ),
                program: match platform {
                    Platform::Windows => "mstsc"@,
                    Platform::Linux => "xfreerdp"@,
                    Platform::MacOs => "open"@,
                },
                args: match platform {
                    Platform::MacOs => seq![
                        ArgView::Text("-a"@),
                        ArgView::Text("Windows App"@),
                        ArgView::Text(url),
                    ],
                    _ => seq![ArgView::SecretPath],
                },
                kind: match platform {
                    Platform::Windows => ClientKind::RdpMstsc,
                    Platform::Linux => ClientKind::RdpXfreerdp,
                    Platform::MacOs => ClientKind::RdpMacApp,
                },
            },
        ),
        (Protocol::Ssh, Credential::SshKey { login, key }) => Some(
            LaunchPlanView {
                secret: Some((SecretKind::SshKey, key@)),
                program: "ssh"@,
                args: seq![
                    ArgView::Text("-i"@),
                    ArgView::SecretPath,
                    ArgView::Text(ssh_destination(login@, url)),
                ],
                kind: ClientKind::Ssh,
            },
        ),
        (Protocol::Ssh, Credential::SshUserPassword { login, password }) => Some(
            LaunchPlanView {
                secret: None,
                program: "sshpass"@,
                args: seq![
                    ArgView::Text("-p"@),
                    ArgView::Text(password@),
                    ArgView::Text("ssh"@),
                    ArgView::Text(ssh_destination(login@, url)),
                ],
                kind: ClientKind::Ssh,
            },
        ),
        _ => None,
    }
}

/// Text of the RDP connection profile for a login at `url`.
pub fn rdp_file(login: &str, password: &str, domain: &str, url: &str) -> (r: String)
    ensures
        r@ == rdp_profile(url@, login@, password@, domain@),
{
    let mut s = String::from_str("full address:s:");
    s.append(url);
    s.append("\nusername:s:");
    s.append(login);
    s.append("\npassword:s:");
    s.append(password);
    s.append("\ndomain:s:");
    s.append(domain);
    s.append(RDP_PROFILE_OPTIONS);
    s
}

fn text_arg(s: &str) -> (r: LaunchArg)
    ensures
        r.view() == ArgView::Text(s@),
{
    LaunchArg::Text(String::from_str(s))
}

impl RemoteHandle {
    pub open spec fn spec_pid(self) -> u32 {
        match self {
            RemoteHandle::Ssh(p) => p,
            RemoteHandle::RdpMstsc(p) => p,
            RemoteHandle::RdpMacApp(p) => p,
            RemoteHandle::RdpXfreerdp(p) => p,
        }
    }

    pub open spec fn spec_kind(self) -> ClientKind {
        match self {
            RemoteHandle::Ssh(_) => ClientKind::Ssh,
            RemoteHandle::RdpMstsc(_) => ClientKind::RdpMstsc,
            RemoteHandle::RdpMacApp(_) => ClientKind::RdpMacApp,
            RemoteHandle::RdpXfreerdp(_) => ClientKind::RdpXfreerdp,
        }
    }

    /// Records a started client process of the given kind.
    pub fn new(kind: ClientKind, pid: u32) -> (r: Self)
        ensures
            r.spec_kind() == kind,
            r.spec_pid() == pid,
    {
        match kind {
            ClientKind::Ssh => RemoteHandle::Ssh(pid),
            ClientKind::RdpMstsc => RemoteHandle::RdpMstsc(pid),
            ClientKind::RdpMacApp => RemoteHandle::RdpMacApp(pid),
            ClientKind::RdpXfreerdp => RemoteHandle::RdpXfreerdp(pid),
        }
    }

    pub fn pid(&self) -> (r: u32)
        ensures
            r == self.spec_pid(),
    {
        match self {
            RemoteHandle::Ssh(p)
            | RemoteHandle::RdpMstsc(p)
            | RemoteHandle::RdpMacApp(p)
            | RemoteHandle::RdpXfreerdp(p) => *p,
        }
    }

    /// Ends the record; the result is the process to terminate.
    pub fn stop(self) -> (pid: u32)
        ensures
            pid == self.spec_pid(),
    {
        self.pid()
    }

    /// Decides how to start the client for `protocol` with `credential`
    /// against the tunnel address `url`. Pairs that do not belong together are
    /// refused, and nothing is to be started then.
    pub fn launch_plan(
        protocol: Protocol,
        url: &str,
        credential: &Credential,
        platform: Platform,
    ) -> (r: Result<LaunchPlan, LaunchError>)
        ensures
            match launch_plan_spec(protocol, url@, *credential, platform) {
                Some(v) => r is Ok && r->Ok_0.view() == v,
                None => r is Err && r->Err_0 == LaunchError::UnsupportedCombination,
            },
    {
        match (protocol, credential) {
            (Protocol::Rdp, Credential::RdpUserPassword { login, password, domain }) => {
                let contents = rdp_file(login.as_str(), password.as_str(), domain.as_str(), url);
                let secret = Some(SecretFile { kind: SecretKind::RdpProfile, contents });
                let plan = match platform {
                    Platform::Windows => LaunchPlan {
                        secret,
                        program: String::from_str("mstsc"),
                        args: vec![LaunchArg::SecretPath],
                        kind: ClientKind::RdpMstsc,
                    },
                    Platform::Linux => LaunchPlan {
                        secret,
                        program: String::from_str("xfreerdp"),
                        args: vec![LaunchArg::SecretPath],
                        kind: ClientKind::RdpXfreerdp,
                    },
                    Platform::MacOs => LaunchPlan {
                        secret,
                        program: String::from_str("open"),
                        args: vec![text_arg("-a"), text_arg("Windows App"), text_arg(url)],
                        kind: ClientKind::RdpMacApp,
                    },
                };
                assert(plan.view().args =~= launch_plan_spec(
                    protocol,
                    url@,
                    *credential,
                    platform,
                ).unwrap().args);
                Ok(plan)
            },
            (Protocol::Ssh, Credential::SshKey { login, key }) => {
                let dest = concat_str(login.as_str(), "@");
                let dest = concat_str(dest.as_str(), url);
                let plan = LaunchPlan {
                    secret: Some(
                        SecretFile { kind: SecretKind::SshKey, contents: String::from_str(key.as_str()) },
                    ),
                    program: String::from_str("ssh"),
                    args: vec![text_arg("-i"), LaunchArg::SecretPath, LaunchArg::Text(dest)],
                    kind: ClientKind::Ssh,
                };
                assert(plan.view().args =~= launch_plan_spec(
                    protocol,
                    url@,
                    *credential,
                    platform,
                ).unwrap().args);
                Ok(plan)
            },
            (Protocol::Ssh, Credential::SshUserPassword { login, password }) => {
                let dest = concat_str(login.as_str(), "@");
                let dest = concat_str(dest.as_str(), url);
                let plan = LaunchPlan {
                    secret: None,
                    program: String::from_str("sshpass"),
                    args: vec![
                        text_arg("-p"),
                        text_arg(password.as_str()),
                        text_arg("ssh"),
                        LaunchArg::Text(dest),
                    ],
                    kind: ClientKind::Ssh,
                };
                assert(plan.view().args =~= launch_plan_spec(
                    protocol,
                    url@,
                    *credential,
                    platform,
                ).unwrap().args);
                Ok(plan)
            },
            _ => Err(LaunchError::UnsupportedCombination),
        }
    }
}

/// SSH launches with a key or with a user and password, on any platform and
/// tunnel address; RDP refuses an SSH key, and then nothing is launched.
pub proof fn lemma_dispatch(url: Seq<char>, login: String, secret: String, platform: Platform)
    ensures
        launch_plan_spec(Protocol::Ssh, url, Credential::SshKey { login, key: secret }, platform) is Some,
        launch_plan_spec(
            Protocol::Ssh,
            url,
            Credential::SshUserPassword { login, password: secret },
            platform,
        ) is Some,
        launch_plan_spec(Protocol::Rdp, url, Credential::SshKey { login, key: secret }, platform) is None,
{
}

} // verus!
