//! The listener's core: what is shared by all sessions, who is admitted,
//! and what the owner of the process may do with the keys directly.
//!
//! Binding and removing the listening path, reading the peer's identity and
//! the clock are the caller's; this module decides on what they report.

use vstd::prelude::*;
use crate::auth::{store_key_of, verifier_of, SessionAuthenticator};
use crate::error::Error;
use crate::message::{Payload, Request};
use crate::policy::ConfirmPolicy;
use crate::record::{KeyId, KeyMetadata, KeyRecord, KeyRecordView};
use crate::session::{AgentSession, SessionModel};
use crate::store::{loaded, views, KeyStore};

verus! {

/// What a service is started with.
pub struct ServiceConfig {
    /// The path of the listening socket.
    pub path: String,
    /// The salt under which the passphrase is stretched.
    pub salt: Vec<u8>,
    /// The iteration count of the stretching.
    pub rounds: u32,
    /// How many sessions may be open at once.
    pub max_sessions: usize,
    /// How many rejected passphrases a session survives.
    pub max_failures: u32,
    /// Seconds after which a session that is still unauthenticated is closed.
    pub idle_limit: u64,
    /// Who approves the use of a private key.
    pub policy: ConfirmPolicy,
}

/// The mathematical value of a service, apart from its store, its
/// authenticator and its policy.
pub struct ServiceModel {
    pub path: Seq<char>,
    /// Whether connections are still accepted.
    pub listening: bool,
    /// The number of sessions that were admitted and not released.
    pub active: nat,
    pub max_sessions: nat,
    pub max_failures: u32,
    pub idle_limit: u64,
}

/// The answer to a connection.
#[derive(Debug)]
pub enum Admission {
    /// The connection is admitted; this is its session.
    Accepted(AgentSession),
    /// The peer is not the user that owns the service.
    ForeignPeer,
    /// As many sessions are open as the service allows.
    Full,
    /// The service has been closed.
    NotListening,
}

/// The listening service: the key store, the authenticator and the policy
/// that its sessions share, and the count of open sessions.
pub struct Socket {
    path: String,
    auth: SessionAuthenticator,
    store: KeyStore,
    policy: ConfirmPolicy,
    max_sessions: usize,
    active: usize,
    max_failures: u32,
    idle_limit: u64,
    listening: bool,
}

impl View for Socket {
    type V = ServiceModel;

    closed spec fn view(&self) -> ServiceModel {
        ServiceModel {
            path: self.path@,
            listening: self.listening,
            active: self.active as nat,
            max_sessions: self.max_sessions as nat,
            max_failures: self.max_failures,
            idle_limit: self.idle_limit,
        }
    }
}

impl Socket {
    /// The key store.
    pub closed spec fn store(self) -> KeyStore {
        self.store
    }

    /// The authenticator.
    pub closed spec fn authenticator(self) -> SessionAuthenticator {
        self.auth
    }

    /// The confirmation policy.
    pub closed spec fn policy(self) -> ConfirmPolicy {
        self.policy
    }

    /// The service's invariant: its store is well formed and no more
    /// sessions are open than it allows.
    pub open spec fn wf(self) -> bool {
        &&& self.store().wf()
        &&& self@.active <= self@.max_sessions
    }

    /// `after` has this service's authenticator and policy.
    pub open spec fn same_guards(self, after: Socket) -> bool {
        &&& after.authenticator() == self.authenticator()
        &&& after.policy() == self.policy()
    }

    /// Starts a service with an empty store: enrolls the passphrase, keeps
    /// its verifier and seals the store under the key that it unlocks. The
    /// passphrase itself is not kept.
    pub fn init(pass: &str, config: ServiceConfig) -> (service: Socket)
        ensures
            service.wf(),
            service@ == (ServiceModel {
                path: config.path@,
                listening: true,
                active: 0,
                max_sessions: config.max_sessions as nat,
                max_failures: config.max_failures,
                idle_limit: config.idle_limit,
            }),
            service.policy() == config.policy,
            service.authenticator().salt() == config.salt@,
            service.authenticator().rounds() == config.rounds,
            service.authenticator().enrolled_with(pass@),
            service.store().key() == store_key_of(pass@, config.salt@, config.rounds),
            service.store()@ == Map::<Seq<char>, KeyRecordView>::empty(),
    {
        let (auth, key) = SessionAuthenticator::enroll(pass, config.salt, config.rounds);
        Socket {
            path: config.path,
            auth,
            store: KeyStore::new(key),
            policy: config.policy,
            max_sessions: config.max_sessions,
            active: 0,
            max_failures: config.max_failures,
            idle_limit: config.idle_limit,
            listening: true,
        }
    }

    /// Starts a service over a store that exists already: checks the
    /// passphrase against the persisted verifier, unlocks the store key
    /// with it, and loads the persisted records as `KeyStore::load` does.
    ///
    /// Fails with `AuthenticationFailed` exactly when the passphrase does
    /// not have the persisted verifier, and otherwise with the error of the
    /// first record that cannot be loaded. On success the store is the
    /// persisted records and nothing else.
    pub fn resume(pass: &str, config: ServiceConfig, stored: Vec<u8>, records: &Vec<KeyRecord>) -> (r: Result<
        Socket,
        Error,
    >)
        ensures
            match r {
                Ok(service) => {
                    &&& service.wf()
                    &&& service@ == (ServiceModel {
                        path: config.path@,
                        listening: true,
                        active: 0,
                        max_sessions: config.max_sessions as nat,
                        max_failures: config.max_failures,
                        idle_limit: config.idle_limit,
                    })
                    &&& service.policy() == config.policy
                    &&& service.authenticator().salt() == config.salt@
                    &&& service.authenticator().rounds() == config.rounds
                    &&& service.authenticator().stored_verifier() == stored@
                    &&& service.authenticator().accepts(pass@)
                    &&& service.store().key() == store_key_of(pass@, config.salt@, config.rounds)
                    &&& loaded(views(records@)) == Ok::<Map<Seq<char>, KeyRecordView>, Error>(
                        service.store()@,
                    )
                },
                Err(e) => if verifier_of(pass@, config.salt@, config.rounds) != stored@ {
                    e == Error::AuthenticationFailed
                } else {
                    loaded(views(records@)) == Err::<Map<Seq<char>, KeyRecordView>, Error>(e)
                },
            },
    {
        let auth = SessionAuthenticator::from_parts(config.salt, config.rounds, stored);
        let key = match auth.unlock(pass) {
            Some(key) => key,
            None => {
                return Err(Error::AuthenticationFailed);
            },
        };
        match KeyStore::load(key, records) {
            Ok(store) => Ok(
                Socket {
                    path: config.path,
                    auth,
                    store,
                    policy: config.policy,
                    max_sessions: config.max_sessions,
                    active: 0,
                    max_failures: config.max_failures,
                    idle_limit: config.idle_limit,
                    listening: true,
                },
            ),
            Err(e) => Err(e),
        }
    }

    /// Answers a connection from the user `peer_uid`, the service running
    /// as `own_uid`, at the time `now`.
    ///
    /// A closed service admits nobody; a peer that is another user is
    /// turned away; so is any peer while as many sessions are open as the
    /// service allows. Otherwise the connection gets a fresh session, and
    /// the count of open sessions goes up by one.
    pub fn accept(&mut self, peer_uid: u32, own_uid: u32, now: u64) -> (r: Admission)
        requires
            old(self).wf(),
        ensures
            final(self).wf(),
            old(self).same_guards(*final(self)),
            final(self).store() == old(self).store(),
            match r {
                Admission::NotListening => !old(self)@.listening && final(self)@ == old(self)@,
                Admission::ForeignPeer => {
                    &&& old(self)@.listening
                    &&& peer_uid != own_uid
                    &&& final(self)@ == old(self)@
                },
                Admission::Full => {
                    &&& old(self)@.listening
                    &&& peer_uid == own_uid
                    &&& old(self)@.active >= old(self)@.max_sessions
                    &&& final(self)@ == old(self)@
                },
                Admission::Accepted(session) => {
                    &&& old(self)@.listening
                    &&& peer_uid == own_uid
                    &&& old(self)@.active < old(self)@.max_sessions
                    &&& final(self)@ == (ServiceModel { active: old(self)@.active + 1, ..old(self)@ })
                    &&& session@ == SessionModel::fresh(
                        now,
                        old(self)@.max_failures,
                        old(self)@.idle_limit,
                    )
                },
            },
    {
        if !self.listening {
            Admission::NotListening
        } else if peer_uid != own_uid {
            Admission::ForeignPeer
        } else if self.active >= self.max_sessions {
            Admission::Full
        } else {
            self.active = self.active + 1;
            Admission::Accepted(AgentSession::new(now, self.max_failures, self.idle_limit))
        }
    }

    /// Notes that a session has ended: one session fewer is open.
    pub fn release(&mut self)
        requires
            old(self).wf(),
        ensures
            final(self).wf(),
            old(self).same_guards(*final(self)),
            final(self).store() == old(self).store(),
            final(self)@ == (ServiceModel {
                active: if old(self)@.active > 0 {
                    (old(self)@.active - 1) as nat
                } else {
                    0
                },
                ..old(self)@
            }),
    {
        if self.active > 0 {
            self.active = self.active - 1;
        }
    }

    /// Stops listening. The first call returns the listening path, which
    /// the caller removes; later calls return nothing.
    pub fn close(&mut self) -> (path: Option<String>)
        ensures
            old(self).same_guards(*final(self)),
            final(self).store() == old(self).store(),
            final(self)@ == (ServiceModel { listening: false, ..old(self)@ }),
            match path {
                Some(p) => old(self)@.listening && p@ == old(self)@.path,
                None => !old(self)@.listening,
            },
    {
        if self.listening {
            self.listening = false;
            Some(self.path.clone())
        } else {
            None
        }
    }

    /// Whether the policy wants a person asked before a key is used.
    pub fn needs_prompt(&self) -> (ask: bool)
        ensures
            ask == (self.policy() is PromptApprove),
    {
        self.policy.needs_prompt()
    }

    /// Whether `proposed_pass` is the service's passphrase.
    pub fn auth_req(&self, proposed_pass: &str) -> (ok: bool)
        ensures
            ok == self.authenticator().accepts(proposed_pass@),
    {
        self.auth.verify(proposed_pass)
    }

    /// The persisted form of the verifier: salt, iteration count, verifier.
    pub fn verifier_record(&self) -> (r: (Vec<u8>, u32, Vec<u8>))
        ensures
            r.0@ == self.authenticator().salt(),
            r.1 == self.authenticator().rounds(),
            r.2@ == self.authenticator().stored_verifier(),
    {
        (self.auth.salt_bytes(), self.auth.rounds_value(), self.auth.verifier_bytes())
    }

    /// Generates and stores a key for `nick`, as `KeyStore::generate` does,
    /// and says whether a record was stored: one is, unless the nickname is
    /// taken or the port is 0.
    pub fn gen_key(&mut self, nick: &str, user: &str, host: &str, port: u16, now: u64) -> (ok: bool)
        requires
            old(self).wf(),
        ensures
            final(self).wf(),
            final(self)@ == old(self)@,
            old(self).same_guards(*final(self)),
            ok == (old(self).store().barred(nick@, port) is None),
            exists|r: Result<KeyId, Error>|
                ok == (r is Ok) && #[trigger] old(self).store().generate_post(
                    final(self).store(),
                    nick@,
                    user@,
                    host@,
                    port,
                    now,
                    r,
                ),
    {
        let r = self.store.generate(nick, user, host, port, now);
        proof {
            assert(old(self).store().generate_post(self.store(), nick@, user@, host@, port, now, r));
        }
        r.is_ok()
    }

    /// Returns the record stored under `nick`, as `KeyStore::get` does.
    pub fn show_key(&self, nick: &str) -> (r: Result<KeyRecord, Error>)
        requires
            self.wf(),
        ensures
            self.store().get_post(nick@, r),
    {
        self.store.get(nick)
    }

    /// Returns the private material stored under `nick` in the clear, as
    /// `KeyStore::export` does.
    pub fn export_key(&self, nick: &str) -> (r: Result<Vec<u8>, Error>)
        requires
            self.wf(),
        ensures
            self.store().export_post(nick@, r),
    {
        self.store.export(nick)
    }

    /// Removes the record stored under `nick` and says whether there was
    /// one.
    pub fn delete_key(&mut self, nick: &str) -> (removed: bool)
        requires
            old(self).wf(),
        ensures
            final(self).wf(),
            final(self)@ == old(self)@,
            old(self).same_guards(*final(self)),
            old(self).store().delete_post(final(self).store(), nick@, Ok(removed)),
    {
        match self.store.delete(nick) {
            Ok(removed) => removed,
            Err(_) => false,
        }
    }

    /// Lists the metadata of all stored records, as `KeyStore::list` does.
    pub fn show_all_keys(&self) -> (out: Vec<KeyMetadata>)
        requires
            self.wf(),
        ensures
            self.store().list_post(out@),
    {
        self.store.list()
    }

    /// Brings back a record read from the durable store, as
    /// `KeyStore::restore` does.
    pub fn restore_key(&mut self, record: KeyRecord) -> (r: Result<(), Error>)
        requires
            old(self).wf(),
        ensures
            final(self).wf(),
            final(self)@ == old(self)@,
            old(self).same_guards(*final(self)),
            old(self).store().restore_post(final(self).store(), record@, r),
    {
        self.store.restore(record)
    }

    /// Returns the record stored under `nick` as it is kept, as
    /// `KeyStore::stored` does: the copy to keep aside while the durable
    /// store is asked to delete the record.
    pub fn stored_key(&self, nick: &str) -> (r: Option<KeyRecord>)
        requires
            self.wf(),
        ensures
            match r {
                Some(record) => self.store()@.contains_key(nick@) && record@ == self.store()@[nick@],
                None => !self.store()@.contains_key(nick@),
            },
    {
        self.store.stored(nick)
    }

    /// Settles a removal once the durable store has been asked to delete
    /// the record, as `KeyStore::settle_removal` does: the removal stands
    /// when the durable store deleted the record; otherwise `kept` is put
    /// back and the call fails with `StoreIoError`.
    pub fn settle_removal(&mut self, kept: KeyRecord, removed: bool) -> (r: Result<bool, Error>)
        requires
            old(self).wf(),
        ensures
            final(self).wf(),
            final(self)@ == old(self)@,
            old(self).same_guards(*final(self)),
            old(self).store().settle_removal_post(final(self).store(), kept@, removed, r),
    {
        self.store.settle_removal(kept, removed)
    }

    /// Settles a record once the durable store has been asked to write it,
    /// as `KeyStore::settle` does.
    pub fn settle_key(&mut self, nick: &str, written: bool) -> (r: Result<(), Error>)
        requires
            old(self).wf(),
        ensures
            final(self).wf(),
            final(self)@ == old(self)@,
            old(self).same_guards(*final(self)),
            final(self).store().key() == old(self).store().key(),
            if written {
                r == Ok::<(), Error>(()) && old(self).store().unchanged(final(self).store())
            } else {
                &&& r == Err::<(), Error>(Error::StoreIoError)
                &&& final(self).store()@ == old(self).store()@.remove(nick@)
            },
    {
        self.store.settle(nick, written)
    }

    /// Serves one request of a session that does not change the store, as
    /// `AgentSession::handle_read` does. It takes the service by shared
    /// borrow, so such requests are served beside one another.
    pub fn serve_read(
        &self,
        session: &mut AgentSession,
        request: &Request,
        answer: Option<bool>,
        now: u64,
    ) -> (r: Option<Result<Payload, Error>>)
        requires
            self.wf(),
        ensures
            match r {
                Some(reply) => !request.mutates() && old(session)@.handle_post(
                    final(session)@,
                    &self.authenticator(),
                    self.store(),
                    self.store(),
                    self.policy(),
                    *request,
                    answer,
                    now,
                    reply,
                ),
                None => request.mutates() && final(session)@ == old(session)@,
            },
    {
        session.handle_read(&self.auth, &self.store, &self.policy, request, answer, now)
    }

    /// Serves one request of a session against the shared store, as
    /// `AgentSession::handle` does.
    pub fn serve(
        &mut self,
        session: &mut AgentSession,
        request: &Request,
        answer: Option<bool>,
        now: u64,
    ) -> (r: Result<Payload, Error>)
        requires
            old(self).wf(),
        ensures
            final(self).wf(),
            final(self)@ == old(self)@,
            old(self).same_guards(*final(self)),
            old(session)@.handle_post(
                final(session)@,
                &old(self).authenticator(),
                old(self).store(),
                final(self).store(),
                old(self).policy(),
                *request,
                answer,
                now,
                r,
            ),
    {
        session.handle(&self.auth, &mut self.store, &self.policy, request, answer, now)
    }
}

} // verus!
