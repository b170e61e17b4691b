use std::collections::HashMap;
use vstd::prelude::*;

use crate::servers::credentials::{Credential, CredentialError};
use crate::servers::models::Service;

verus! {

broadcast use vstd::std_specs::hash::group_hash_axioms;

/// The credential of one service and whether the secret store keeps it.
pub struct ServiceCredential {
    pub id: u128,
    pub credential: Credential,
    pub remember: bool,
}

/// What the secret store must do after a credential changed.
#[derive(Debug)]
pub enum SecretStoreAction {
    /// Store this credential for the service.
    Save(Credential),
    /// Delete the service's stored credential, if any.
    Delete,
}

impl ServiceCredential {
    /// The credential of `service` as the secret store holds it: `entry_exists`
    /// tells whether the store has an entry, `stored` what it parsed to. Where
    /// there is none, or it does not parse, the credential is blank.
    pub fn new(service: &Service, entry_exists: bool, stored: Option<Credential>) -> (r: Self)
        ensures
            r.id == service.id,
            r.remember == entry_exists,
            entry_exists && stored is Some ==> r.credential == stored->Some_0,
            !(entry_exists && stored is Some) ==> r.credential.is_blank_for(service.protocol),
    {
        let credential = match stored {
            Some(c) => if entry_exists {
                c
            } else {
                Credential::empty_for(service.protocol)
            },
            None => Credential::empty_for(service.protocol),
        };
        ServiceCredential { id: service.id, credential, remember: entry_exists }
    }
}

/// The shown value of a credential: itself, unless it is empty.
pub open spec fn usable(c: Credential) -> Option<Credential> {
    if c.spec_is_empty() {
        None
    } else {
        Some(c)
    }
}

/// The credentials loaded so far, by service id.
pub struct ServersState {
    credentials: HashMap<u128, ServiceCredential>,
}

impl ServersState {
    pub closed spec fn credentials(&self) -> Map<u128, ServiceCredential> {
        self.credentials@
    }

    pub fn new() -> (r: Self)
        ensures
            r.credentials() == Map::<u128, ServiceCredential>::empty(),
    {
        ServersState { credentials: HashMap::new() }
    }

    /// The loaded, non-empty credential of `id`; `None` where the secret
    /// store is still to be asked.
    pub fn cached_credential(&self, id: u128) -> (r: Option<Credential>)
        ensures
            self.credentials().contains_key(id) && !self.credentials()[id].credential.spec_is_empty()
                ==> r == Some(self.credentials()[id].credential),
            !(self.credentials().contains_key(id) && !self.credentials()[id].credential.spec_is_empty())
                ==> r is None,
    {
        match self.credentials.get(&id) {
            Some(c) => if c.credential.is_empty() {
                None
            } else {
                Some(c.credential.copy())
            },
            None => None,
        }
    }

    /// Keeps a credential loaded from the secret store, and returns it unless
    /// it is empty.
    pub fn load_service_credential(&mut self, cred: ServiceCredential) -> (r: Option<Credential>)
        ensures
            r == usable(cred.credential),
            final(self).credentials() == old(self).credentials().insert(cred.id, cred),
    {
        let shown = if cred.credential.is_empty() {
            None
        } else {
            Some(cred.credential.copy())
        };
        self.credentials.insert(cred.id, cred);
        shown
    }

    /// Whether the loaded credential of `id` is kept by the secret store.
    pub fn is_remembered(&self, id: u128) -> (r: Result<bool, CredentialError>)
        ensures
            self.credentials().contains_key(id) ==> r == Ok::<bool, CredentialError>(
                self.credentials()[id].remember,
            ),
            !self.credentials().contains_key(id) ==> r == Err::<bool, CredentialError>(
                CredentialError::NoCredentials,
            ),
    {
        match self.credentials.get(&id) {
            Some(c) => Ok(c.remember),
            None => Err(CredentialError::NoCredentials),
        }
    }

    /// Sets the remember flag of a changed credential, keeps it under `id`,
    /// and says what the secret store must do.
    fn settle(&mut self, id: u128, cred: ServiceCredential, remember: bool) -> (r: (
        Credential,
        SecretStoreAction,
    ))
        ensures
            r.0 == cred.credential,
            remember ==> r.1 == SecretStoreAction::Save(cred.credential),
            !remember ==> r.1 is Delete,
            final(self).credentials() == old(self).credentials().insert(
                id,
                ServiceCredential { id: cred.id, credential: cred.credential, remember },
            ),
    {
        let mut cred = cred;
        cred.remember = remember;
        let shown = cred.credential.copy();
        let action = if remember {
            SecretStoreAction::Save(cred.credential.copy())
        } else {
            SecretStoreAction::Delete
        };
        self.credentials.insert(id, cred);
        (shown, action)
    }

    /// Replaces the loaded credential of `id` by an RDP login, remembered or
    /// not as asked. A credential must be loaded first.
    pub fn update_rdp_service_credentials(
        &mut self,
        id: u128,
        login: String,
        password: String,
        domain: String,
        remember: bool,
    ) -> (r: Result<(Credential, SecretStoreAction), CredentialError>)
        ensures
            !old(self).credentials().contains_key(id) ==> r == Err::<
                (Credential, SecretStoreAction),
                CredentialError,
            >(CredentialError::NoCredentials) && final(self).credentials() == old(
                self,
            ).credentials(),
            old(self).credentials().contains_key(id) ==> r is Ok && r->Ok_0.0 == (
            Credential::RdpUserPassword { login, password, domain }) && (remember ==> r->Ok_0.1
                == SecretStoreAction::Save(r->Ok_0.0)) && (!remember ==> r->Ok_0.1 is Delete)
                && final(self).credentials() == old(self).credentials().insert(
                id,
                ServiceCredential {
                    id: old(self).credentials()[id].id,
                    credential: r->Ok_0.0,
                    remember,
                },
            ),
    {
        match self.credentials.remove(&id) {
            Some(cred) => {
                let mut cred = cred;
                let _ = cred.credential.update_rdp(login, password, domain);
                let r = self.settle(id, cred, remember);
                assert(self.credentials() =~= old(self).credentials().insert(
                    id,
                    ServiceCredential {
                        id: old(self).credentials()[id].id,
                        credential: r.0,
                        remember,
                    },
                ));
                Ok(r)
            },
            None => {
                assert(self.credentials() =~= old(self).credentials());
                Err(CredentialError::NoCredentials)
            },
        }
    }

    /// Replaces the loaded credential of `id` by an SSH login (by key where a
    /// key is given, else by password), remembered or not as asked. Giving
    /// both a key and a password is refused, and nothing changes then.
    pub fn update_ssh_service_credentials(
        &mut self,
        id: u128,
        login: String,
        password: String,
        key: String,
        remember: bool,
    ) -> (r: Result<(Credential, SecretStoreAction), CredentialError>)
        ensures
            !old(self).credentials().contains_key(id) ==> r == Err::<
                (Credential, SecretStoreAction),
                CredentialError,
            >(CredentialError::NoCredentials),
            old(self).credentials().contains_key(id) && key@.len() != 0 && password@.len() != 0
                ==> r == Err::<(Credential, SecretStoreAction), CredentialError>(
                CredentialError::KeyAndPassword,
            ),
            r is Err ==> final(self).credentials() == old(self).credentials(),
            old(self).credentials().contains_key(id) && !(key@.len() != 0 && password@.len() != 0)
                ==> r is Ok && (key@.len() != 0 ==> r->Ok_0.0 == (Credential::SshKey { login, key }))
                && (key@.len() == 0 ==> r->Ok_0.0 == (Credential::SshUserPassword { login, password }))
                && (remember ==> r->Ok_0.1 == SecretStoreAction::Save(r->Ok_0.0)) && (!remember
                ==> r->Ok_0.1 is Delete) && final(self).credentials() == old(
                self,
            ).credentials().insert(
                id,
                ServiceCredential {
                    id: old(self).credentials()[id].id,
                    credential: r->Ok_0.0,
                    remember,
                },
            ),
    {
        match self.credentials.remove(&id) {
            Some(cred) => {
                let mut cred = cred;
                match cred.credential.update_ssh(login, password, key) {
                    Ok(()) => {
                        let r = self.settle(id, cred, remember);
                        assert(self.credentials() =~= old(self).credentials().insert(
                            id,
                            ServiceCredential {
                                id: old(self).credentials()[id].id,
                                credential: r.0,
                                remember,
                            },
                        ));
                        Ok(r)
                    },
                    Err(e) => {
                        self.credentials.insert(id, cred);
                        assert(self.credentials() =~= old(self).credentials());
                        Err(e)
                    },
                }
            },
            None => {
                assert(self.credentials() =~= old(self).credentials());
                Err(CredentialError::NoCredentials)
            },
        }
    }
}

} // verus!
