//! What holds across the operations of the store, the authenticator and
//! the session, proved from their contracts.

use vstd::prelude::*;
use crate::auth::{verifier_of, SessionAuthenticator};
use crate::envelope::{lemma_seal_round_trip, opened, sealed, MAX_PLAINTEXT_LEN, TAG_LEN};
use crate::error::Error;
use crate::record::{KeyId, KeyMetadataView, KeyRecord, KeyRecordView};
use crate::session::{SessionModel, SessionState};
use crate::store::KeyStore;

verus! {

/// `generate` on a nickname that is not stored, with a port from 1 to
/// 65535, succeeds, and `get` on the same nickname then succeeds too. The
/// record it returns carries the nickname, user, host, port and time that
/// were given to `generate`. Its key material is the private key in sealed
/// form: it opens under the store key, and it is not the private key's
/// bytes.
pub proof fn lemma_generate_then_get(
    before: KeyStore,
    after: KeyStore,
    nickname: Seq<char>,
    user: Seq<char>,
    host: Seq<char>,
    port: u16,
    now: u64,
    generated: Result<KeyId, Error>,
    got: Result<KeyRecord, Error>,
)
    requires
        !before@.contains_key(nickname),
        port >= 1,
        before.generate_post(after, nickname, user, host, port, now, generated),
        after.get_post(nickname, got),
    ensures
        generated is Ok,
        got is Ok,
        got->Ok_0@.metadata() == (KeyMetadataView { nickname, user, host, port, created_at: now }),
        exists|material: Seq<u8>|
            #![trigger sealed(after.key(), material)]
            {
                &&& got->Ok_0@.key_material == sealed(after.key(), material)
                &&& opened(after.key(), got->Ok_0@.key_material) == Some(material)
                &&& got->Ok_0@.key_material != material
            },
{
    let material = choose|material: Seq<u8>|
        material.len() <= MAX_PLAINTEXT_LEN && after@ == before@.insert(
            nickname,
            #[trigger] before.generated(nickname, user, host, port, now, material),
        );
    lemma_seal_round_trip(before.key(), material);
    let stored = before.generated(nickname, user, host, port, now, material);
    assert(after@[nickname] == stored);
    assert(sealed(after.key(), material).len() == material.len() + TAG_LEN);
}

/// `generate` on a nickname that is already stored fails with
/// `DuplicateNickname`, and the store, the existing record included, is as
/// it was.
pub proof fn lemma_generate_refuses_duplicate(
    before: KeyStore,
    after: KeyStore,
    nickname: Seq<char>,
    user: Seq<char>,
    host: Seq<char>,
    port: u16,
    now: u64,
    r: Result<KeyId, Error>,
)
    requires
        before.generate_post(after, nickname, user, host, port, now, r),
        before@.contains_key(nickname),
    ensures
        r == Err::<KeyId, Error>(Error::DuplicateNickname),
        after@ == before@,
        after@[nickname] == before@[nickname],
{
}

/// `generate` with a port of 0 on a nickname that is not stored fails with
/// `StoreIoError` and leaves the store as it was.
pub proof fn lemma_generate_refuses_port_zero(
    before: KeyStore,
    after: KeyStore,
    nickname: Seq<char>,
    user: Seq<char>,
    host: Seq<char>,
    now: u64,
    r: Result<KeyId, Error>,
)
    requires
        before.generate_post(after, nickname, user, host, 0, now, r),
        !before@.contains_key(nickname),
    ensures
        r == Err::<KeyId, Error>(Error::StoreIoError),
        after@ == before@,
{
}

/// `delete` on a nickname that is not stored returns `false`, is no error,
/// and leaves the store as it was.
pub proof fn lemma_delete_absent(before: KeyStore, after: KeyStore, nickname: Seq<char>, r: Result<bool, Error>)
    requires
        before.delete_post(after, nickname, r),
        !before@.contains_key(nickname),
    ensures
        r == Ok::<bool, Error>(false),
        after@ == before@,
{
    assert(before@.remove(nickname) =~= before@);
}

/// `delete` is idempotent: a second `delete` of the same nickname finds
/// nothing and changes nothing.
pub proof fn lemma_delete_twice(
    before: KeyStore,
    between: KeyStore,
    after: KeyStore,
    nickname: Seq<char>,
    first: Result<bool, Error>,
    second: Result<bool, Error>,
)
    requires
        before.delete_post(between, nickname, first),
        between.delete_post(after, nickname, second),
    ensures
        second == Ok::<bool, Error>(false),
        after@ == between@,
{
    assert(between@.remove(nickname) =~= between@);
}

/// A `delete` whose durable half failed leaves the store as it was: when
/// the record that `delete` took out is handed to `settle_removal` with the
/// word that the durable store did not delete it, the call fails with
/// `StoreIoError` and the store is again what it was before the `delete`.
pub proof fn lemma_failed_delete_leaves_store(
    before: KeyStore,
    between: KeyStore,
    after: KeyStore,
    nickname: Seq<char>,
    kept: KeyRecordView,
    deleted: Result<bool, Error>,
    settled: Result<bool, Error>,
)
    requires
        before.wf(),
        before@.contains_key(nickname),
        kept == before@[nickname],
        before.delete_post(between, nickname, deleted),
        between.settle_removal_post(after, kept, false, settled),
    ensures
        deleted == Ok::<bool, Error>(true),
        settled == Err::<bool, Error>(Error::StoreIoError),
        after@ == before@,
{
    before.lemma_records_valid(nickname);
    assert(before@.remove(nickname).insert(nickname, kept) =~= before@);
}

/// A `delete` whose durable half succeeded stands: `settle_removal`
/// answers `true` and the record stays out.
pub proof fn lemma_settled_delete_stands(
    before: KeyStore,
    between: KeyStore,
    after: KeyStore,
    nickname: Seq<char>,
    kept: KeyRecordView,
    deleted: Result<bool, Error>,
    settled: Result<bool, Error>,
)
    requires
        before.delete_post(between, nickname, deleted),
        between.settle_removal_post(after, kept, true, settled),
    ensures
        settled == Ok::<bool, Error>(true),
        after@ == before@.remove(nickname),
        !after@.contains_key(nickname),
{
}

/// Two `generate` calls for one new nickname, in whichever order the store
/// admits them, the store taking one writer at a time: the call that comes
/// first stores its key, and the other fails with `DuplicateNickname` and
/// changes nothing. So the nickname has exactly one record, all of it the
/// first call's, and every other record is as it was.
pub proof fn lemma_generate_twice(
    before: KeyStore,
    between: KeyStore,
    after: KeyStore,
    nickname: Seq<char>,
    user_a: Seq<char>,
    host_a: Seq<char>,
    port_a: u16,
    now_a: u64,
    user_b: Seq<char>,
    host_b: Seq<char>,
    port_b: u16,
    now_b: u64,
    first: Result<KeyId, Error>,
    second: Result<KeyId, Error>,
)
    requires
        !before@.contains_key(nickname),
        port_a >= 1,
        before.generate_post(between, nickname, user_a, host_a, port_a, now_a, first),
        between.generate_post(after, nickname, user_b, host_b, port_b, now_b, second),
    ensures
        first is Ok,
        second == Err::<KeyId, Error>(Error::DuplicateNickname),
        after@ == between@,
        after@.contains_key(nickname),
        after@[nickname].metadata() == (KeyMetadataView {
            nickname,
            user: user_a,
            host: host_a,
            port: port_a,
            created_at: now_a,
        }),
        after@.dom() == before@.dom().insert(nickname),
        forall|other: Seq<char>|
            other != nickname && before@.contains_key(other) ==> after@[other] == before@[other],
{
    let material = choose|material: Seq<u8>|
        material.len() <= MAX_PLAINTEXT_LEN && between@ == before@.insert(
            nickname,
            #[trigger] before.generated(nickname, user_a, host_a, port_a, now_a, material),
        );
    assert(between@.contains_key(nickname));
    assert(after@.dom() =~= before@.dom().insert(nickname));
}

/// The passphrase that an authenticator was enrolled with is accepted. Any
/// other candidate is rejected, unless the key derivation gives it the
/// verifier of the enrolled passphrase.
pub proof fn lemma_verify_enrolled(auth: SessionAuthenticator, passphrase: Seq<char>, candidate: Seq<char>)
    requires
        auth.enrolled_with(passphrase),
    ensures
        auth.accepts(passphrase),
        verifier_of(candidate, auth.salt(), auth.rounds()) != verifier_of(
            passphrase,
            auth.salt(),
            auth.rounds(),
        ) ==> !auth.accepts(candidate),
{
}

/// A session that is closed stays closed, whatever is presented to it, and
/// refuses every `authenticate` with `SessionClosed`.
pub proof fn lemma_closed_is_final(session: SessionModel, accepted: bool)
    requires
        session.state == SessionState::Closed,
    ensures
        session.after_authenticate(accepted) == session,
        session.authenticate_reply(accepted) == Err::<bool, Error>(Error::SessionClosed),
        session.refusal() == Some(Error::SessionClosed),
        session.after_close() == session,
{
}

/// A session that is unauthenticated or closed is closed after `n`
/// rejections, when `n` is more than what is left of its allowance.
proof fn lemma_rejections_close_from(session: SessionModel, n: nat)
    requires
        session.state == SessionState::Unauthenticated || session.state == SessionState::Closed,
        session.failures <= session.max_failures,
        session.state == SessionState::Unauthenticated ==> n > session.max_failures - session.failures,
    ensures
        session.after_rejections(n).state == SessionState::Closed,
    decreases n,
{
    if n > 0 {
        let next = session.after_authenticate(false);
        if session.state == SessionState::Unauthenticated && session.failures < session.max_failures {
            lemma_rejections_close_from(next, (n - 1) as nat);
        } else {
            assert(next.state == SessionState::Closed);
            lemma_rejections_stay_closed(next, (n - 1) as nat);
        }
    }
}

/// Rejections do not reopen a closed session.
proof fn lemma_rejections_stay_closed(session: SessionModel, n: nat)
    requires
        session.state == SessionState::Closed,
    ensures
        session.after_rejections(n) == session,
    decreases n,
{
    if n > 0 {
        lemma_rejections_stay_closed(session, (n - 1) as nat);
    }
}

/// More rejected passphrases than a fresh session's allowance close it, and
/// the right passphrase presented afterwards is refused with
/// `SessionClosed` and does not reopen it.
pub proof fn lemma_rejections_close(created_at: u64, max_failures: u32, idle_limit: u64, n: nat)
    requires
        n > max_failures,
    ensures
        ({
            let session = SessionModel::fresh(created_at, max_failures, idle_limit).after_rejections(n);
            &&& session.state == SessionState::Closed
            &&& session.after_authenticate(true) == session
            &&& session.authenticate_reply(true) == Err::<bool, Error>(Error::SessionClosed)
        }),
{
    lemma_rejections_close_from(SessionModel::fresh(created_at, max_failures, idle_limit), n);
}

} // verus!
