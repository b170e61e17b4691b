use vstd::prelude::*;

use crate::servers::models::Protocol;

verus! {

/// Credentials used to log in to a service, one shape per protocol.
#[derive(Debug, Clone)]
pub enum Credential {
    RdpUserPassword { login: String, password: String, domain: String },
    SshUserPassword { login: String, password: String },
    SshKey { login: String, key: String },
}

/// Why a credential update was refused.
#[derive(Debug, Clone, Copy, PartialEq, Eq, Structural)]
pub enum CredentialError {
    /// Both a key and a password were supplied for SSH.
    KeyAndPassword,
    /// No credential of the service is loaded.
    NoCredentials,
}

impl Credential {
    /// The login name, whatever the shape.
    pub open spec fn login_view(&self) -> Seq<char> {
        match self {
            Credential::RdpUserPassword { login, .. } => login@,
            Credential::SshUserPassword { login, .. } => login@,
            Credential::SshKey { login, .. } => login@,
        }
    }

    /// A credential with an empty login stands for "not yet provided".
    pub open spec fn spec_is_empty(&self) -> bool {
        self.login_view().len() == 0
    }

    pub fn is_empty(&self) -> (r: bool)
        ensures
            r == self.spec_is_empty(),
    {
        match self {
            Credential::RdpUserPassword { login, .. }
            | Credential::SshUserPassword { login, .. }
            | Credential::SshKey { login, .. } => login.as_str().is_empty(),
        }
    }

    /// Every field is empty, in the shape the protocol starts with.
    pub open spec fn is_blank_for(&self, protocol: Protocol) -> bool {
        match self {
            Credential::RdpUserPassword { login, password, domain } => protocol == Protocol::Rdp
                && login@.len() == 0 && password@.len() == 0 && domain@.len() == 0,
            Credential::SshUserPassword { login, password } => protocol == Protocol::Ssh
                && login@.len() == 0 && password@.len() == 0,
            Credential::SshKey { .. } => false,
        }
    }

    /// A field-for-field copy.
    pub fn copy(&self) -> (r: Self)
        ensures
            r == *self,
    {
        match self {
            Credential::RdpUserPassword { login, password, domain } => Credential::RdpUserPassword {
                login: login.clone(),
                password: password.clone(),
                domain: domain.clone(),
            },
            Credential::SshUserPassword { login, password } => Credential::SshUserPassword {
                login: login.clone(),
                password: password.clone(),
            },
            Credential::SshKey { login, key } => Credential::SshKey {
                login: login.clone(),
                key: key.clone(),
            },
        }
    }

    /// An RDP credential with every field empty.
    pub fn empty_rdp() -> (r: Self)
        ensures
            r matches Credential::RdpUserPassword { login, password, domain }
                && login@.len() == 0 && password@.len() == 0 && domain@.len() == 0,
            r.spec_is_empty(),
    {
        Credential::RdpUserPassword {
            login: String::new(),
            password: String::new(),
            domain: String::new(),
        }
    }

    /// An SSH user/password credential with every field empty.
    pub fn empty_ssh_user_password() -> (r: Self)
        ensures
            r matches Credential::SshUserPassword { login, password }
                && login@.len() == 0 && password@.len() == 0,
            r.spec_is_empty(),
    {
        Credential::SshUserPassword { login: String::new(), password: String::new() }
    }

    /// The empty credential of the shape a protocol starts with: RDP
    /// user/password/domain, or SSH user/password.
    pub fn empty_for(protocol: Protocol) -> (r: Self)
        ensures
            r.spec_is_empty(),
            r.is_blank_for(protocol),
            protocol == Protocol::Rdp ==> r is RdpUserPassword,
            protocol == Protocol::Ssh ==> r is SshUserPassword,
    {
        match protocol {
            Protocol::Rdp => Credential::empty_rdp(),
            Protocol::Ssh => Credential::empty_ssh_user_password(),
        }
    }

    /// Replaces the credential by an RDP login.
    pub fn update_rdp(&mut self, login: String, password: String, domain: String) -> (r: Result<
        (),
        CredentialError,
    >)
        ensures
            r is Ok,
            *final(self) == (Credential::RdpUserPassword { login, password, domain }),
    {
        *self = Credential::RdpUserPassword { login, password, domain };
        Ok(())
    }

    /// Replaces the credential by an SSH login: by key when a key is given,
    /// else by password. Giving both is refused and leaves the credential as it was.
    pub fn update_ssh(&mut self, login: String, password: String, key: String) -> (r: Result<
        (),
        CredentialError,
    >)
        ensures
            key@.len() != 0 && password@.len() != 0 <==> r is Err,
            r is Err ==> r == Err::<(), CredentialError>(CredentialError::KeyAndPassword),
            r is Err ==> *final(self) == *old(self),
            r is Ok && key@.len() != 0 ==> *final(self) == (Credential::SshKey { login, key }),
            r is Ok && key@.len() == 0 ==> *final(self) == (Credential::SshUserPassword {
                login,
                password,
            }),
    {
        if !key.as_str().is_empty() && !password.as_str().is_empty() {
            return Err(CredentialError::KeyAndPassword);
        }
        if !key.as_str().is_empty() {
            *self = Credential::SshKey { login, key };
        } else {
            *self = Credential::SshUserPassword { login, password };
        }
        Ok(())
    }
}

} // verus!
