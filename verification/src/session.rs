//! One accepted connection.
//!
//! A session starts unauthenticated, becomes authenticated by one accepted
//! passphrase, and ends closed. Key operations are served only while it is
//! authenticated. Every change of state and every decision on the use of a
//! private key is appended to the session's audit trail, which holds names
//! and states and never key material.

use vstd::prelude::*;
use crate::auth::SessionAuthenticator;
use crate::error::Error;
use crate::message::{Payload, Request};
use crate::policy::ConfirmPolicy;
use crate::record::{KeyId, KeyMetadata, KeyRecord};
use crate::store::KeyStore;

verus! {

/// Where a session is in its life.
#[derive(Clone, Copy, Debug, PartialEq, Eq, Structural)]
pub enum SessionState {
    /// No passphrase has been accepted yet.
    Unauthenticated,
    /// A passphrase was accepted.
    Authenticated,
    /// The session is over. No request is served.
    Closed,
}

/// An entry of the audit trail.
#[derive(Clone, Debug, PartialEq, Eq)]
pub enum AuditEvent {
    /// The session went from one state to another.
    Transition { from: SessionState, to: SessionState },
    /// The use of the private key `nickname` was approved or denied.
    Confirmation { nickname: String, approved: bool },
}

/// The mathematical value of an `AuditEvent`.
pub enum AuditEventView {
    Transition { from: SessionState, to: SessionState },
    Confirmation { nickname: Seq<char>, approved: bool },
}

impl View for AuditEvent {
    type V = AuditEventView;

    open spec fn view(&self) -> AuditEventView {
        match *self {
            AuditEvent::Transition { from, to } => AuditEventView::Transition { from, to },
            AuditEvent::Confirmation { nickname, approved } => AuditEventView::Confirmation {
                nickname: nickname@,
                approved,
            },
        }
    }
}

/// The mathematical value of a session.
pub struct SessionModel {
    pub state: SessionState,
    /// Rejected passphrases so far.
    pub failures: u32,
    /// How many rejected passphrases the session survives.
    pub max_failures: u32,
    /// Seconds since the epoch at which the connection was accepted.
    pub created_at: u64,
    /// Seconds after which a session that is still unauthenticated is closed.
    pub idle_limit: u64,
    /// The audit entries that have not been taken yet, oldest first.
    pub audit: Seq<AuditEventView>,
}

impl SessionModel {
    /// A session as it is when its connection has just been accepted.
    pub open spec fn fresh(created_at: u64, max_failures: u32, idle_limit: u64) -> SessionModel {
        SessionModel {
            state: SessionState::Unauthenticated,
            failures: 0,
            max_failures,
            created_at,
            idle_limit,
            audit: Seq::empty(),
        }
    }

    /// The session with one more audit entry.
    pub open spec fn logged(self, event: AuditEventView) -> SessionModel {
        SessionModel { audit: self.audit.push(event), ..self }
    }

    /// The session after it moved to the state `to`, the move audited.
    pub open spec fn moved_to(self, to: SessionState) -> SessionModel {
        SessionModel { state: to, ..self }.logged(AuditEventView::Transition { from: self.state, to })
    }

    /// The session with one more rejected passphrase counted.
    pub open spec fn counted(self) -> SessionModel {
        SessionModel {
            failures: if self.failures < u32::MAX {
                (self.failures + 1) as u32
            } else {
                self.failures
            },
            ..self
        }
    }

    /// The session after an `authenticate` request whose candidate was
    /// accepted or not. Only an unauthenticated session changes: it becomes
    /// authenticated on acceptance; on rejection the failure is counted, and
    /// the session is closed if it had already used up its allowance.
    pub open spec fn after_authenticate(self, accepted: bool) -> SessionModel {
        if self.state != SessionState::Unauthenticated {
            self
        } else if accepted {
            self.moved_to(SessionState::Authenticated)
        } else if self.failures >= self.max_failures {
            self.counted().moved_to(SessionState::Closed)
        } else {
            self.counted()
        }
    }

    /// The session after `n` `authenticate` requests in a row whose
    /// candidates were rejected.
    pub open spec fn after_rejections(self, n: nat) -> SessionModel
        decreases n,
    {
        if n == 0 {
            self
        } else {
            self.after_authenticate(false).after_rejections((n - 1) as nat)
        }
    }

    /// The answer to an `authenticate` request whose candidate was accepted
    /// or not.
    pub open spec fn authenticate_reply(self, accepted: bool) -> Result<bool, Error> {
        match self.state {
            SessionState::Unauthenticated => Ok(accepted),
            SessionState::Authenticated => Err(Error::AuthenticationFailed),
            SessionState::Closed => Err(Error::SessionClosed),
        }
    }

    /// Why a key operation is refused in the session's state, if it is.
    pub open spec fn refusal(self) -> Option<Error> {
        match self.state {
            SessionState::Unauthenticated => Some(Error::AuthenticationFailed),
            SessionState::Authenticated => None,
            SessionState::Closed => Some(Error::SessionClosed),
        }
    }

    /// The session after it was closed.
    pub open spec fn after_close(self) -> SessionModel {
        if self.state == SessionState::Closed {
            self
        } else {
            self.moved_to(SessionState::Closed)
        }
    }

    /// Whether the session has stayed unauthenticated for its idle limit.
    pub open spec fn idle_at(self, now: u64) -> bool {
        &&& self.state == SessionState::Unauthenticated
        &&& now >= self.created_at
        &&& now - self.created_at >= self.idle_limit
    }

    /// The session after the clock was read as `now`.
    pub open spec fn after_tick(self, now: u64) -> SessionModel {
        if self.idle_at(now) {
            self.moved_to(SessionState::Closed)
        } else {
            self
        }
    }

    /// The session after a decision on the use of the key `nickname`.
    pub open spec fn after_confirm(self, nickname: Seq<char>, approved: bool) -> SessionModel {
        self.logged(AuditEventView::Confirmation { nickname, approved })
    }

    /// What `confirm` promises: `after` is the session that it leaves and
    /// `r` its result, when it was called on this session.
    pub open spec fn confirm_post(
        self,
        after: SessionModel,
        store: &KeyStore,
        policy: ConfirmPolicy,
        nickname: Seq<char>,
        answer: Option<bool>,
        r: Result<bool, Error>,
    ) -> bool {
        match self.refusal() {
            Some(e) => r == Err::<bool, Error>(e) && after == self,
            None => if store@.contains_key(nickname) {
                &&& r == Ok::<bool, Error>(policy.allows(nickname, answer))
                &&& after == self.after_confirm(nickname, policy.allows(nickname, answer))
            } else {
                r == Err::<bool, Error>(Error::NotFound) && after == self
            },
        }
    }

    /// What `handle` promises: `after` is the session that it leaves,
    /// `store_after` the store, and `r` its result, when it was called on
    /// this session and the store `store`.
    ///
    /// The clock is read first, so a session that has idled out is closed
    /// before the request is looked at. Then each kind of request does what
    /// the session's operation of that name does, its result wrapped in the
    /// payload of that kind.
    pub open spec fn handle_post(
        self,
        after: SessionModel,
        auth: &SessionAuthenticator,
        store: KeyStore,
        store_after: KeyStore,
        policy: ConfirmPolicy,
        request: Request,
        answer: Option<bool>,
        now: u64,
        r: Result<Payload, Error>,
    ) -> bool {
        let ticked = self.after_tick(now);
        match request {
            Request::Authenticate { candidate } => {
                let accepted = auth.accepts(candidate@);
                &&& store.unchanged(store_after)
                &&& after == ticked.after_authenticate(accepted)
                &&& match r {
                    Ok(Payload::Authenticated(b)) => ticked.authenticate_reply(accepted) == Ok::<bool, Error>(b),
                    Err(e) => ticked.authenticate_reply(accepted) == Err::<bool, Error>(e),
                    _ => false,
                }
            },
            Request::Generate { nickname, user, host, port } => {
                &&& after == ticked
                &&& match r {
                    Ok(Payload::Generated(id)) => ticked.refusal() is None && store.generate_post(
                        store_after,
                        nickname@,
                        user@,
                        host@,
                        port,
                        now,
                        Ok(id),
                    ),
                    Err(e) => if ticked.refusal() is Some {
                        ticked.refusal() == Some(e) && store.unchanged(store_after)
                    } else {
                        store.generate_post(store_after, nickname@, user@, host@, port, now, Err(e))
                    },
                    _ => false,
                }
            },
            Request::Get { nickname } => {
                &&& after == ticked
                &&& store.unchanged(store_after)
                &&& match r {
                    Ok(Payload::Record(record)) => ticked.refusal() is None && store.get_post(
                        nickname@,
                        Ok(record),
                    ),
                    Err(e) => if ticked.refusal() is Some {
                        ticked.refusal() == Some(e)
                    } else {
                        store.get_post(nickname@, Err(e))
                    },
                    _ => false,
                }
            },
            Request::Delete { nickname } => {
                &&& after == ticked
                &&& match r {
                    Ok(Payload::Deleted(removed)) => ticked.refusal() is None && store.delete_post(
                        store_after,
                        nickname@,
                        Ok(removed),
                    ),
                    Err(e) => ticked.refusal() == Some(e) && store.unchanged(store_after),
                    _ => false,
                }
            },
            Request::List => {
                &&& after == ticked
                &&& store.unchanged(store_after)
                &&& match r {
                    Ok(Payload::Listing(out)) => ticked.refusal() is None && store.list_post(out@),
                    Err(e) => ticked.refusal() == Some(e),
                    _ => false,
                }
            },
            Request::Confirm { nickname } => {
                &&& store.unchanged(store_after)
                &&& match r {
                    Ok(Payload::Confirmed(approved)) => ticked.confirm_post(
                        after,
                        &store,
                        policy,
                        nickname@,
                        answer,
                        Ok(approved),
                    ),
                    Err(e) => ticked.confirm_post(after, &store, policy, nickname@, answer, Err(e)),
                    _ => false,
                }
            },
        }
    }
}

/// One accepted connection.
#[derive(Debug)]
pub struct AgentSession {
    state: SessionState,
    failures: u32,
    max_failures: u32,
    created_at: u64,
    idle_limit: u64,
    audit: Vec<AuditEvent>,
}

impl View for AgentSession {
    type V = SessionModel;

    closed spec fn view(&self) -> SessionModel {
        SessionModel {
            state: self.state,
            failures: self.failures,
            max_failures: self.max_failures,
            created_at: self.created_at,
            idle_limit: self.idle_limit,
            audit: Seq::new(self.audit@.len(), |i: int| self.audit@[i]@),
        }
    }
}

impl AgentSession {
    /// Starts the session of a connection accepted at `created_at`.
    pub fn new(created_at: u64, max_failures: u32, idle_limit: u64) -> (session: AgentSession)
        ensures
            session@ == SessionModel::fresh(created_at, max_failures, idle_limit),
    {
        let session = AgentSession {
            state: SessionState::Unauthenticated,
            failures: 0,
            max_failures,
            created_at,
            idle_limit,
            audit: Vec::new(),
        };
        assert(session@.audit =~= Seq::empty());
        session
    }

    /// The session's state.
    pub fn state(&self) -> (state: SessionState)
        ensures
            state == self@.state,
    {
        self.state
    }

    /// The number of rejected passphrases so far.
    pub fn failure_count(&self) -> (n: u32)
        ensures
            n == self@.failures,
    {
        self.failures
    }

    /// Appends one entry to the audit trail.
    fn record(&mut self, event: AuditEvent)
        ensures
            final(self)@ == old(self)@.logged(event@),
    {
        self.audit.push(event);
        assert(self@.audit =~= old(self)@.audit.push(event@));
    }

    /// Moves to the state `to` and audits the move.
    fn move_to(&mut self, to: SessionState)
        ensures
            final(self)@ == old(self)@.moved_to(to),
    {
        let from = self.state;
        self.state = to;
        self.record(AuditEvent::Transition { from, to });
    }

    /// Takes the audit entries recorded since the last call, oldest first,
    /// for the audit sink.
    pub fn take_audit(&mut self) -> (events: Vec<AuditEvent>)
        ensures
            events@.len() == old(self)@.audit.len(),
            forall|i: int| 0 <= i < events@.len() ==> (#[trigger] events@[i])@ == old(self)@.audit[i],
            final(self)@ == (SessionModel { audit: Seq::empty(), ..old(self)@ }),
    {
        let mut events: Vec<AuditEvent> = Vec::new();
        std::mem::swap(&mut self.audit, &mut events);
        assert(self@.audit =~= Seq::empty());
        events
    }

    /// Serves an `authenticate` request.
    ///
    /// An unauthenticated session checks the candidate against the
    /// authenticator and answers whether it was accepted; an accepted
    /// candidate authenticates the session, a rejected one is counted, and
    /// one rejection more than the session's allowance closes it. An
    /// authenticated session refuses with `AuthenticationFailed` and a
    /// closed one with `SessionClosed`, neither looking at the candidate.
    pub fn authenticate(&mut self, auth: &SessionAuthenticator, candidate: &str) -> (r: Result<bool, Error>)
        ensures
            final(self)@ == old(self)@.after_authenticate(auth.accepts(candidate@)),
            r == old(self)@.authenticate_reply(auth.accepts(candidate@)),
    {
        match self.state {
            SessionState::Authenticated => Err(Error::AuthenticationFailed),
            SessionState::Closed => Err(Error::SessionClosed),
            SessionState::Unauthenticated => {
                if auth.verify(candidate) {
                    self.move_to(SessionState::Authenticated);
                    Ok(true)
                } else {
                    let spent = self.failures >= self.max_failures;
                    if self.failures < u32::MAX {
                        self.failures = self.failures + 1;
                    }
                    if spent {
                        self.move_to(SessionState::Closed);
                    }
                    Ok(false)
                }
            },
        }
    }

    /// Closes the session. Closing a closed session changes nothing.
    pub fn close(&mut self)
        ensures
            final(self)@ == old(self)@.after_close(),
    {
        if self.state != SessionState::Closed {
            self.move_to(SessionState::Closed);
        }
    }

    /// Tells the session the time. A session that is still unauthenticated
    /// when its idle limit has passed is closed; the result says whether
    /// this call closed it.
    pub fn tick(&mut self, now: u64) -> (expired: bool)
        ensures
            expired == old(self)@.idle_at(now),
            final(self)@ == old(self)@.after_tick(now),
    {
        if self.state == SessionState::Unauthenticated && now >= self.created_at && now
            - self.created_at >= self.idle_limit {
            self.move_to(SessionState::Closed);
            true
        } else {
            false
        }
    }

    /// Why a key operation is refused in the session's state, if it is.
    fn refuse(&self) -> (why: Option<Error>)
        ensures
            why == self@.refusal(),
    {
        match self.state {
            SessionState::Unauthenticated => Some(Error::AuthenticationFailed),
            SessionState::Authenticated => None,
            SessionState::Closed => Some(Error::SessionClosed),
        }
    }

    /// Serves a `generate` request: `KeyStore::generate` for an
    /// authenticated session, which stores a new key unless the nickname is
    /// taken or the port is 0. Any other session is refused, the store
    /// untouched.
    pub fn generate(
        &self,
        store: &mut KeyStore,
        nickname: &str,
        user: &str,
        host: &str,
        port: u16,
        now: u64,
    ) -> (r: Result<KeyId, Error>)
        requires
            old(store).wf(),
        ensures
            match self@.refusal() {
                Some(e) => r == Err::<KeyId, Error>(e) && old(store).unchanged(*final(store)),
                None => old(store).generate_post(*final(store), nickname@, user@, host@, port, now, r),
            },
    {
        match self.refuse() {
            Some(e) => Err(e),
            None => store.generate(nickname, user, host, port, now),
        }
    }

    /// Serves a `get` request: `KeyStore::get` for an authenticated
    /// session. Any other session is refused.
    pub fn get(&self, store: &KeyStore, nickname: &str) -> (r: Result<KeyRecord, Error>)
        requires
            store.wf(),
        ensures
            match self@.refusal() {
                Some(e) => r == Err::<KeyRecord, Error>(e),
                None => store.get_post(nickname@, r),
            },
    {
        match self.refuse() {
            Some(e) => Err(e),
            None => store.get(nickname),
        }
    }

    /// Serves a `delete` request: `KeyStore::delete` for an authenticated
    /// session. Any other session is refused, the store untouched.
    pub fn delete(&self, store: &mut KeyStore, nickname: &str) -> (r: Result<bool, Error>)
        requires
            old(store).wf(),
        ensures
            match self@.refusal() {
                Some(e) => r == Err::<bool, Error>(e) && old(store).unchanged(*final(store)),
                None => old(store).delete_post(*final(store), nickname@, r),
            },
    {
        match self.refuse() {
            Some(e) => Err(e),
            None => store.delete(nickname),
        }
    }

    /// Serves a `list` request: `KeyStore::list` for an authenticated
    /// session. Any other session is refused.
    pub fn list(&self, store: &KeyStore) -> (r: Result<Vec<KeyMetadata>, Error>)
        requires
            store.wf(),
        ensures
            match r {
                Ok(out) => self@.refusal() is None && store.list_post(out@),
                Err(e) => self@.refusal() == Some(e),
            },
    {
        match self.refuse() {
            Some(e) => Err(e),
            None => Ok(store.list()),
        }
    }

    /// Serves a request to use the private key `nickname`.
    ///
    /// A session that is not authenticated is refused, and a nickname that
    /// is not stored gives `NotFound`; neither is audited. Otherwise the
    /// policy decides on this one use, given the answer of the person who
    /// was asked, if anyone was; the decision is audited and returned.
    pub fn confirm(
        &mut self,
        store: &KeyStore,
        policy: &ConfirmPolicy,
        nickname: &str,
        answer: Option<bool>,
    ) -> (r: Result<bool, Error>)
        requires
            store.wf(),
        ensures
            old(self)@.confirm_post(final(self)@, store, *policy, nickname@, answer, r),
    {
        match self.refuse() {
            Some(e) => Err(e),
            None => {
                if !store.contains(nickname) {
                    return Err(Error::NotFound);
                }
                let approved = policy.decide(nickname, answer);
                self.record(AuditEvent::Confirmation { nickname: nickname.to_owned(), approved });
                Ok(approved)
            },
        }
    }

    /// Serves one request that does not change the store, at the time
    /// `now`, as `handle` does. A request that can change the store is not
    /// served: the result is `None` and nothing has happened.
    pub fn handle_read(
        &mut self,
        auth: &SessionAuthenticator,
        store: &KeyStore,
        policy: &ConfirmPolicy,
        request: &Request,
        answer: Option<bool>,
        now: u64,
    ) -> (r: Option<Result<Payload, Error>>)
        requires
            store.wf(),
        ensures
            match r {
                Some(reply) => !request.mutates() && old(self)@.handle_post(
                    final(self)@,
                    auth,
                    *store,
                    *store,
                    *policy,
                    *request,
                    answer,
                    now,
                    reply,
                ),
                None => request.mutates() && final(self)@ == old(self)@,
            },
    {
        if request.is_mutation() {
            return None;
        }
        self.tick(now);
        match request {
            Request::Authenticate { candidate } => match self.authenticate(auth, candidate.as_str()) {
                Ok(accepted) => Some(Ok(Payload::Authenticated(accepted))),
                Err(e) => Some(Err(e)),
            },
            Request::Get { nickname } => match self.get(store, nickname.as_str()) {
                Ok(record) => Some(Ok(Payload::Record(record))),
                Err(e) => Some(Err(e)),
            },
            Request::List => match self.list(store) {
                Ok(out) => Some(Ok(Payload::Listing(out))),
                Err(e) => Some(Err(e)),
            },
            Request::Confirm { nickname } => match self.confirm(
                store,
                policy,
                nickname.as_str(),
                answer,
            ) {
                Ok(approved) => Some(Ok(Payload::Confirmed(approved))),
                Err(e) => Some(Err(e)),
            },
            _ => None,
        }
    }

    /// Serves one request at the time `now`: the whole step of the session
    /// from a request to its answer. `answer` is what the person who was
    /// asked said of this use of a private key, if anyone was asked.
    pub fn handle(
        &mut self,
        auth: &SessionAuthenticator,
        store: &mut KeyStore,
        policy: &ConfirmPolicy,
        request: &Request,
        answer: Option<bool>,
        now: u64,
    ) -> (r: Result<Payload, Error>)
        requires
            old(store).wf(),
        ensures
            old(self)@.handle_post(
                final(self)@,
                auth,
                *old(store),
                *final(store),
                *policy,
                *request,
                answer,
                now,
                r,
            ),
    {
        match request {
            Request::Generate { nickname, user, host, port } => {
                self.tick(now);
                match self.generate(store, nickname.as_str(), user.as_str(), host.as_str(), *port, now) {
                    Ok(id) => Ok(Payload::Generated(id)),
                    Err(e) => Err(e),
                }
            },
            Request::Delete { nickname } => {
                self.tick(now);
                match self.delete(store, nickname.as_str()) {
                    Ok(removed) => Ok(Payload::Deleted(removed)),
                    Err(e) => Err(e),
                }
            },
            // Every other request is one that `handle_read` serves.
            _ => match self.handle_read(auth, store, policy, request, answer, now) {
                Some(reply) => reply,
                None => Err(Error::SessionClosed),
            },
        }
    }
}

} // verus!
