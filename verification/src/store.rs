//! The key store: a mapping from nickname to key record whose private
//! material is sealed under the store key.
//!
//! There is one store key for all records. The passphrase unlocks it; no
//! key of its own is derived for a record.
//!
//! The records are kept in a vector in ascending order of nickname, so that
//! a nickname occurs at most once and listings come out in one fixed order.
//! Every operation that changes the store takes it by `&mut`, which admits
//! one writer at a time; an operation that fails leaves the store as it was.

use vstd::prelude::*;
use crate::bytes::wipe;
use crate::envelope::{opened, seal, sealed, unseal, MAX_PLAINTEXT_LEN};
use crate::error::Error;
use crate::keygen::fresh_private_key;
use crate::name::{lemma_name_lt_transitive, lemma_name_trichotomy, name_lt, place, Place};
use crate::record::{KeyId, KeyMetadata, KeyRecord, KeyRecordView};

verus! {

/// The records are in strictly ascending order of nickname.
pub open spec fn ascending(s: Seq<KeyRecordView>) -> bool {
    forall|i: int, j: int| 0 <= i < j < s.len() ==> name_lt(#[trigger] s[i].nickname, #[trigger] s[j].nickname)
}

/// Some record of `s` has the nickname `nick`.
pub open spec fn holds(s: Seq<KeyRecordView>, nick: Seq<char>) -> bool {
    exists|i: int| 0 <= i < s.len() && #[trigger] s[i].nickname == nick
}

/// The records of `s` as a mapping from their nicknames.
pub open spec fn by_nickname(s: Seq<KeyRecordView>) -> Map<Seq<char>, KeyRecordView> {
    Map::new(
        |nick: Seq<char>| holds(s, nick),
        |nick: Seq<char>| s[choose|i: int| 0 <= i < s.len() && #[trigger] s[i].nickname == nick],
    )
}

/// In an ascending sequence each record is the one found under its nickname.
pub proof fn lemma_lookup(s: Seq<KeyRecordView>, i: int)
    requires
        ascending(s),
        0 <= i < s.len(),
    ensures
        by_nickname(s).contains_key(s[i].nickname),
        by_nickname(s)[s[i].nickname] == s[i],
{
    let nick = s[i].nickname;
    let j = choose|j: int| 0 <= j < s.len() && #[trigger] s[j].nickname == nick;
    lemma_name_trichotomy(nick, nick);
    if j != i {
        if j < i {
            assert(name_lt(s[j].nickname, s[i].nickname));
        } else {
            assert(name_lt(s[i].nickname, s[j].nickname));
        }
    }
}

/// Inserting a record at the place that keeps the order adds it to the
/// mapping and changes nothing else.
pub proof fn lemma_insert(s: Seq<KeyRecordView>, k: int, r: KeyRecordView)
    requires
        ascending(s),
        0 <= k <= s.len(),
        forall|i: int| 0 <= i < k ==> name_lt(#[trigger] s[i].nickname, r.nickname),
        forall|i: int| k <= i < s.len() ==> name_lt(r.nickname, #[trigger] s[i].nickname),
    ensures
        ascending(s.insert(k, r)),
        !holds(s, r.nickname),
        by_nickname(s.insert(k, r)) == by_nickname(s).insert(r.nickname, r),
{
    let t = s.insert(k, r);
    assert forall|i: int, j: int| 0 <= i < j < t.len() implies name_lt(
        #[trigger] t[i].nickname,
        #[trigger] t[j].nickname,
    ) by {
        if i < k && j > k {
            assert(name_lt(s[i].nickname, s[j - 1].nickname));
        } else if i < k && j < k {
            assert(name_lt(s[i].nickname, s[j].nickname));
        } else if i > k {
            assert(name_lt(s[i - 1].nickname, s[j - 1].nickname));
        }
    }
    assert(!holds(s, r.nickname)) by {
        if holds(s, r.nickname) {
            let i = choose|i: int| 0 <= i < s.len() && #[trigger] s[i].nickname == r.nickname;
            lemma_name_trichotomy(r.nickname, r.nickname);
        }
    }
    let m = by_nickname(s).insert(r.nickname, r);
    assert forall|nick: Seq<char>| by_nickname(t).contains_key(nick) <==> m.contains_key(nick) by {
        if holds(t, nick) {
            let i = choose|i: int| 0 <= i < t.len() && #[trigger] t[i].nickname == nick;
            if i < k {
                assert(s[i].nickname == nick);
            } else if i > k {
                assert(s[i - 1].nickname == nick);
            }
        }
        if holds(s, nick) {
            let i = choose|i: int| 0 <= i < s.len() && #[trigger] s[i].nickname == nick;
            if i < k {
                assert(t[i].nickname == nick);
            } else {
                assert(t[i + 1].nickname == nick);
            }
        }
        if nick == r.nickname {
            assert(t[k].nickname == nick);
        }
    }
    assert forall|nick: Seq<char>| by_nickname(t).contains_key(nick) implies by_nickname(t)[nick]
        == m[nick] by {
        let i = choose|i: int| 0 <= i < t.len() && #[trigger] t[i].nickname == nick;
        lemma_lookup(t, i);
        if i < k {
            lemma_lookup(s, i);
        } else if i > k {
            lemma_lookup(s, i - 1);
        }
    }
    assert(by_nickname(t) =~= m);
}

/// Removing a record takes its nickname out of the mapping and changes
/// nothing else.
pub proof fn lemma_remove(s: Seq<KeyRecordView>, k: int)
    requires
        ascending(s),
        0 <= k < s.len(),
    ensures
        ascending(s.remove(k)),
        by_nickname(s.remove(k)) == by_nickname(s).remove(s[k].nickname),
{
    let t = s.remove(k);
    let gone = s[k].nickname;
    assert forall|i: int, j: int| 0 <= i < j < t.len() implies name_lt(
        #[trigger] t[i].nickname,
        #[trigger] t[j].nickname,
    ) by {
        let si = if i < k { i } else { i + 1 };
        let sj = if j < k { j } else { j + 1 };
        assert(name_lt(s[si].nickname, s[sj].nickname));
    }
    let m = by_nickname(s).remove(gone);
    lemma_name_trichotomy(gone, gone);
    assert forall|nick: Seq<char>| by_nickname(t).contains_key(nick) <==> m.contains_key(nick) by {
        if holds(t, nick) {
            let i = choose|i: int| 0 <= i < t.len() && #[trigger] t[i].nickname == nick;
            let si = if i < k { i } else { i + 1 };
            assert(s[si].nickname == nick);
            if si < k {
                assert(name_lt(s[si].nickname, s[k].nickname));
            } else {
                assert(name_lt(s[k].nickname, s[si].nickname));
            }
        }
        if holds(s, nick) && nick != gone {
            let i = choose|i: int| 0 <= i < s.len() && #[trigger] s[i].nickname == nick;
            if i < k {
                assert(t[i].nickname == nick);
            } else {
                assert(t[i - 1].nickname == nick);
            }
        }
    }
    assert forall|nick: Seq<char>| by_nickname(t).contains_key(nick) implies by_nickname(t)[nick]
        == m[nick] by {
        let i = choose|i: int| 0 <= i < t.len() && #[trigger] t[i].nickname == nick;
        lemma_lookup(t, i);
        if i < k {
            lemma_lookup(s, i);
        } else {
            lemma_lookup(s, i + 1);
        }
    }
    assert(by_nickname(t) =~= m);
}

/// An ascending sequence has as many records as its mapping has nicknames.
pub proof fn lemma_count(s: Seq<KeyRecordView>)
    requires
        ascending(s),
    ensures
        by_nickname(s).dom().finite(),
        by_nickname(s).dom().len() == s.len(),
    decreases s.len(),
{
    if s.len() == 0 {
        assert(by_nickname(s).dom() =~= Set::<Seq<char>>::empty());
    } else {
        let front = s.drop_last();
        let last = s.last();
        assert forall|i: int, j: int| 0 <= i < j < front.len() implies name_lt(
            #[trigger] front[i].nickname,
            #[trigger] front[j].nickname,
        ) by {
            assert(name_lt(s[i].nickname, s[j].nickname));
        }
        lemma_count(front);
        assert forall|i: int| 0 <= i < front.len() implies name_lt(
            #[trigger] front[i].nickname,
            last.nickname,
        ) by {
            assert(name_lt(s[i].nickname, s[s.len() - 1].nickname));
        }
        lemma_insert(front, front.len() as int, last);
        assert(front.insert(front.len() as int, last) =~= s);
        assert(by_nickname(s).dom() =~= by_nickname(front).dom().insert(last.nickname));
    }
}

/// The values of a vector of records.
pub open spec fn views(records: Seq<KeyRecord>) -> Seq<KeyRecordView> {
    Seq::new(records.len(), |i: int| records[i]@)
}

/// What a sequence of persisted records loads to: the mapping that holds
/// each of them under its nickname, or the error of the first record that
/// cannot be added to those before it, `DuplicateNickname` for a nickname
/// that came before and otherwise `StoreIoError` for a port of 0.
pub open spec fn loaded(records: Seq<KeyRecordView>) -> Result<Map<Seq<char>, KeyRecordView>, Error>
    decreases records.len(),
{
    if records.len() == 0 {
        Ok(Map::empty())
    } else {
        match loaded(records.drop_last()) {
            Err(e) => Err(e),
            Ok(before) => {
                let record = records.last();
                if before.contains_key(record.nickname) {
                    Err(Error::DuplicateNickname)
                } else if record.port < 1 {
                    Err(Error::StoreIoError)
                } else {
                    Ok(before.insert(record.nickname, record))
                }
            },
        }
    }
}

/// Once a record cannot be added, the records after it do not matter.
proof fn lemma_loaded_error_stays(records: Seq<KeyRecordView>, k: int)
    requires
        0 <= k <= records.len(),
        loaded(records.take(k)) is Err,
    ensures
        loaded(records) == loaded(records.take(k)),
    decreases records.len(),
{
    if k == records.len() {
        assert(records.take(k) =~= records);
    } else {
        assert(records.drop_last().take(k) =~= records.take(k));
        lemma_loaded_error_stays(records.drop_last(), k);
    }
}

/// Records that load are exactly what they load to: each is valid and is
/// found under its nickname, no two share a nickname, and the mapping holds
/// no nickname but theirs.
pub proof fn lemma_loaded_is_the_records(records: Seq<KeyRecordView>)
    requires
        loaded(records) is Ok,
    ensures
        forall|i: int|
            0 <= i < records.len() ==> {
                &&& (#[trigger] records[i]).valid()
                &&& loaded(records)->Ok_0.contains_key(records[i].nickname)
                &&& loaded(records)->Ok_0[records[i].nickname] == records[i]
            },
        forall|i: int, j: int|
            0 <= i < j < records.len() ==> (#[trigger] records[i]).nickname != (#[trigger] records[j]).nickname,
        forall|nick: Seq<char>| #[trigger]
            loaded(records)->Ok_0.contains_key(nick) ==> holds(records, nick),
    decreases records.len(),
{
    if records.len() > 0 {
        let front = records.drop_last();
        let last = records.last();
        lemma_loaded_is_the_records(front);
        let before = loaded(front)->Ok_0;
        let all = loaded(records)->Ok_0;
        assert(all == before.insert(last.nickname, last));
        assert forall|i: int| 0 <= i < records.len() implies {
            &&& (#[trigger] records[i]).valid()
            &&& all.contains_key(records[i].nickname)
            &&& all[records[i].nickname] == records[i]
        } by {
            if i < front.len() {
                assert(front[i] == records[i]);
            }
        }
        assert forall|i: int, j: int| 0 <= i < j < records.len() implies (#[trigger] records[i]).nickname
            != (#[trigger] records[j]).nickname by {
            assert(front[i] == records[i]);
            if j < front.len() {
                assert(front[j] == records[j]);
            }
        }
        assert forall|nick: Seq<char>| #[trigger] all.contains_key(nick) implies holds(records, nick) by {
            if nick == last.nickname {
                assert(records[records.len() - 1].nickname == nick);
            } else {
                assert(before.contains_key(nick));
                let i = choose|i: int| 0 <= i < front.len() && #[trigger] front[i].nickname == nick;
                assert(records[i].nickname == nick);
            }
        }
    }
}

/// An encrypted key store.
pub struct KeyStore {
    key: Vec<u8>,
    records: Vec<KeyRecord>,
}

impl KeyStore {
    /// The stored records in the order in which they are kept.
    pub closed spec fn entries(self) -> Seq<KeyRecordView> {
        Seq::new(self.records@.len(), |i: int| self.records@[i]@)
    }

    /// The key under which the private material is sealed.
    pub closed spec fn key(self) -> Seq<u8> {
        self.key@
    }

    /// The store's invariant: nicknames ascend, so each occurs once, and
    /// every record is valid.
    pub open spec fn wf(self) -> bool {
        &&& ascending(self.entries())
        &&& forall|i: int| 0 <= i < self.entries().len() ==> (#[trigger] self.entries()[i]).valid()
    }

    /// Creates an empty store whose records will be sealed under `key`.
    pub fn new(key: Vec<u8>) -> (store: KeyStore)
        ensures
            store.wf(),
            store@ == Map::<Seq<char>, KeyRecordView>::empty(),
            store.key() == key@,
    {
        let store = KeyStore { key, records: Vec::new() };
        assert(store@ =~= Map::<Seq<char>, KeyRecordView>::empty());
        store
    }

    /// Every record of a well-formed store is valid and is kept under its
    /// own nickname.
    pub proof fn lemma_records_valid(self, nickname: Seq<char>)
        requires
            self.wf(),
            self@.contains_key(nickname),
        ensures
            self@[nickname].valid(),
            self@[nickname].nickname == nickname,
    {
        let i = choose|i: int|
            0 <= i < self.entries().len() && #[trigger] self.entries()[i].nickname == nickname;
        lemma_lookup(self.entries(), i);
    }

    /// Builds the store that a store file holds: an empty store under `key`
    /// to which the persisted records are added in the order given.
    ///
    /// Succeeds exactly when every record can be added to those before it,
    /// and the store is then the records, each under its nickname, and
    /// nothing else. Fails with the error of the first record that cannot
    /// be added.
    pub fn load(key: Vec<u8>, records: &Vec<KeyRecord>) -> (r: Result<KeyStore, Error>)
        ensures
            match r {
                Ok(store) => {
                    &&& store.wf()
                    &&& store.key() == key@
                    &&& loaded(views(records@)) == Ok::<Map<Seq<char>, KeyRecordView>, Error>(store@)
                },
                Err(e) => loaded(views(records@)) == Err::<Map<Seq<char>, KeyRecordView>, Error>(e),
            },
    {
        let mut store = KeyStore::new(key);
        let n: usize = records.len();
        let mut i: usize = 0;
        assert(views(records@).take(0) =~= Seq::<KeyRecordView>::empty());
        while i < n
            invariant
                n == records@.len(),
                i <= n,
                store.wf(),
                store.key() == key@,
                loaded(views(records@).take(i as int)) == Ok::<Map<Seq<char>, KeyRecordView>, Error>(
                    store@,
                ),
            decreases n - i,
        {
            let ghost all = views(records@);
            assert(all.take(i + 1).drop_last() =~= all.take(i as int));
            assert(all.take(i + 1).last() == records@[i as int]@);
            match store.restore(records[i].duplicate()) {
                Ok(()) => {},
                Err(e) => {
                    proof {
                        lemma_loaded_error_stays(all, i + 1);
                    }
                    return Err(e);
                },
            }
            i = i + 1;
        }
        assert(views(records@).take(n as int) =~= views(records@));
        Ok(store)
    }

    /// Finds where `nickname` is, or where it would go: the index of the
    /// first record whose nickname does not sort before it, and whether that
    /// record has the nickname.
    fn locate(&self, nickname: &str) -> (at: (usize, bool))
        requires
            self.wf(),
        ensures
            at.0 <= self.entries().len(),
            forall|i: int| 0 <= i < at.0 ==> name_lt(#[trigger] self.entries()[i].nickname, nickname@),
            at.1 ==> at.0 < self.entries().len() && self.entries()[at.0 as int].nickname == nickname@,
            !at.1 ==> forall|i: int|
                at.0 <= i < self.entries().len() ==> name_lt(nickname@, #[trigger] self.entries()[i].nickname),
            at.1 == self@.contains_key(nickname@),
    {
        let mut lo: usize = 0;
        let mut hi: usize = self.records.len();
        while lo < hi
            invariant
                self.wf(),
                lo <= hi <= self.entries().len(),
                self.entries().len() == self.records@.len(),
                forall|i: int| 0 <= i < lo ==> name_lt(#[trigger] self.entries()[i].nickname, nickname@),
                forall|i: int|
                    hi <= i < self.entries().len() ==> name_lt(nickname@, #[trigger] self.entries()[i].nickname),
            decreases hi - lo,
        {
            let mid: usize = lo + (hi - lo) / 2;
            let p = place(self.records[mid].nickname.as_str(), nickname);
            let ghost mid_name = self.entries()[mid as int].nickname;
            assert(mid_name == self.records@[mid as int].nickname@);
            match p {
                Place::Before => {
                    assert forall|i: int| 0 <= i < mid + 1 implies name_lt(
                        #[trigger] self.entries()[i].nickname,
                        nickname@,
                    ) by {
                        if i < mid {
                            assert(name_lt(self.entries()[i].nickname, self.entries()[mid as int].nickname));
                            lemma_name_lt_transitive(self.entries()[i].nickname, mid_name, nickname@);
                        }
                    }
                    lo = mid + 1;
                },
                Place::Same => {
                    proof {
                        assert forall|i: int| 0 <= i < mid implies name_lt(
                            #[trigger] self.entries()[i].nickname,
                            nickname@,
                        ) by {
                            assert(name_lt(self.entries()[i].nickname, self.entries()[mid as int].nickname));
                        }
                        lemma_lookup(self.entries(), mid as int);
                    }
                    return (mid, true);
                },
                Place::After => {
                    assert forall|i: int| mid <= i < self.entries().len() implies name_lt(
                        nickname@,
                        #[trigger] self.entries()[i].nickname,
                    ) by {
                        if i > mid {
                            assert(name_lt(self.entries()[mid as int].nickname, self.entries()[i].nickname));
                            lemma_name_lt_transitive(nickname@, mid_name, self.entries()[i].nickname);
                        }
                    }
                    hi = mid;
                },
            }
        }
        proof {
            if holds(self.entries(), nickname@) {
                let i = choose|i: int|
                    0 <= i < self.entries().len() && #[trigger] self.entries()[i].nickname == nickname@;
                lemma_name_trichotomy(nickname@, nickname@);
            }
        }
        (lo, false)
    }

    /// Whether a record with this nickname is stored.
    pub fn contains(&self, nickname: &str) -> (found: bool)
        requires
            self.wf(),
        ensures
            found == self@.contains_key(nickname@),
    {
        self.locate(nickname).1
    }

    /// The record that `generate` stores for these inputs when the fresh
    /// private key is `material`.
    pub open spec fn generated(
        self,
        nickname: Seq<char>,
        user: Seq<char>,
        host: Seq<char>,
        port: u16,
        now: u64,
        material: Seq<u8>,
    ) -> KeyRecordView {
        KeyRecordView {
            nickname,
            user,
            host,
            port,
            key_material: sealed(self.key(), material),
            created_at: now,
        }
    }

    /// Why no record with this nickname and port can be added, if none
    /// can: the nickname is taken, or else the port is 0, which no record
    /// may have.
    pub open spec fn barred(self, nickname: Seq<char>, port: u16) -> Option<Error> {
        if self@.contains_key(nickname) {
            Some(Error::DuplicateNickname)
        } else if port < 1 {
            Some(Error::StoreIoError)
        } else {
            None
        }
    }

    /// The store `after` is this store, untouched.
    pub open spec fn unchanged(self, after: KeyStore) -> bool {
        &&& after.wf()
        &&& after.key() == self.key()
        &&& after.entries() == self.entries()
        &&& after@ == self@
    }

    /// What `generate` promises: `after` is the store that it leaves and `r`
    /// its result, when it was called on this store.
    pub open spec fn generate_post(
        self,
        after: KeyStore,
        nickname: Seq<char>,
        user: Seq<char>,
        host: Seq<char>,
        port: u16,
        now: u64,
        r: Result<KeyId, Error>,
    ) -> bool {
        &&& after.wf()
        &&& after.key() == self.key()
        &&& match r {
            Ok(id) => {
                &&& self.barred(nickname, port) is None
                &&& id@ == nickname
                &&& exists|material: Seq<u8>|
                    material.len() <= MAX_PLAINTEXT_LEN && after@ == self@.insert(
                        nickname,
                        #[trigger] self.generated(nickname, user, host, port, now, material),
                    )
            },
            Err(e) => self.unchanged(after) && self.barred(nickname, port) == Some(e),
        }
    }

    /// What `restore` promises: `after` is the store that it leaves and `r`
    /// its result, when it was called on this store.
    pub open spec fn restore_post(self, after: KeyStore, record: KeyRecordView, r: Result<(), Error>) -> bool {
        &&& after.wf()
        &&& after.key() == self.key()
        &&& match r {
            Ok(()) => {
                &&& self.barred(record.nickname, record.port) is None
                &&& after@ == self@.insert(record.nickname, record)
            },
            Err(e) => self.unchanged(after) && self.barred(record.nickname, record.port) == Some(e),
        }
    }

    /// What `get` promises of its result `r` on this store.
    pub open spec fn get_post(self, nickname: Seq<char>, r: Result<KeyRecord, Error>) -> bool {
        match r {
            Ok(record) => {
                &&& self@.contains_key(nickname)
                &&& record@ == self@[nickname]
                &&& opened(self.key(), record@.key_material) is Some
            },
            Err(e) => if self@.contains_key(nickname) {
                e == Error::CryptoError && opened(self.key(), self@[nickname].key_material) is None
            } else {
                e == Error::NotFound
            },
        }
    }

    /// What `export` promises of its result `r` on this store.
    pub open spec fn export_post(self, nickname: Seq<char>, r: Result<Vec<u8>, Error>) -> bool {
        match r {
            Ok(material) => {
                &&& self@.contains_key(nickname)
                &&& opened(self.key(), self@[nickname].key_material) == Some(material@)
            },
            Err(e) => if self@.contains_key(nickname) {
                e == Error::CryptoError && opened(self.key(), self@[nickname].key_material) is None
            } else {
                e == Error::NotFound
            },
        }
    }

    /// What `delete` promises: `after` is the store that it leaves and `r`
    /// its result, when it was called on this store.
    pub open spec fn delete_post(self, after: KeyStore, nickname: Seq<char>, r: Result<bool, Error>) -> bool {
        &&& after.wf()
        &&& after.key() == self.key()
        &&& r == Ok::<bool, Error>(self@.contains_key(nickname))
        &&& after@ == self@.remove(nickname)
    }

    /// What `list` promises of its result on this store: the metadata of
    /// every record, each once, in ascending order of nickname.
    pub open spec fn list_post(self, out: Seq<KeyMetadata>) -> bool {
        &&& self@.dom().finite()
        &&& out.len() == self@.dom().len()
        &&& forall|i: int|
            0 <= i < out.len() ==> self@.contains_key(#[trigger] out[i]@.nickname) && out[i]@
                == self@[out[i]@.nickname].metadata()
        &&& forall|nick: Seq<char>|
            self@.contains_key(nick) ==> exists|i: int| 0 <= i < out.len() && #[trigger] out[i]@.nickname == nick
        &&& forall|i: int, j: int|
            0 <= i < j < out.len() ==> name_lt(#[trigger] out[i]@.nickname, #[trigger] out[j]@.nickname)
    }

    /// Stores a new record for `nickname` whose private key is `material`,
    /// sealing the material under the store key and wiping the plaintext.
    ///
    /// Fails with `DuplicateNickname` when the nickname is already stored;
    /// otherwise with `StoreIoError` when the port is 0, which no record
    /// may have; otherwise with `CryptoError` when there is no material or
    /// it is too long to seal. A failure leaves the store unchanged.
    pub fn insert_with_material(
        &mut self,
        nickname: &str,
        user: &str,
        host: &str,
        port: u16,
        now: u64,
        material: Option<Vec<u8>>,
    ) -> (r: Result<KeyId, Error>)
        requires
            old(self).wf(),
        ensures
            final(self).wf(),
            final(self).key() == old(self).key(),
            match r {
                Ok(id) => {
                    &&& old(self).barred(nickname@, port) is None
                    &&& material is Some
                    &&& material->0@.len() <= MAX_PLAINTEXT_LEN
                    &&& id@ == nickname@
                    &&& final(self)@ == old(self)@.insert(
                        nickname@,
                        old(self).generated(nickname@, user@, host@, port, now, material->0@),
                    )
                },
                Err(e) => {
                    &&& old(self).unchanged(*final(self))
                    &&& match old(self).barred(nickname@, port) {
                        Some(why) => e == why,
                        None => {
                            &&& e == Error::CryptoError
                            &&& (material is None || material->0@.len() > MAX_PLAINTEXT_LEN)
                        },
                    }
                },
            },
    {
        let (at, found) = self.locate(nickname);
        let refused = if found {
            Some(Error::DuplicateNickname)
        } else if port < 1 {
            Some(Error::StoreIoError)
        } else {
            None
        };
        let mut plain = match material {
            Some(bytes) => bytes,
            None => {
                return match refused {
                    Some(e) => Err(e),
                    None => Err(Error::CryptoError),
                };
            },
        };
        match refused {
            Some(e) => {
                wipe(&mut plain);
                return Err(e);
            },
            None => {},
        }
        let blob = seal(self.key.as_slice(), plain.as_slice());
        let ghost plain_view = plain@;
        wipe(&mut plain);
        match blob {
            Ok(key_material) => {
                let record = KeyRecord {
                    nickname: nickname.to_owned(),
                    user: user.to_owned(),
                    host: host.to_owned(),
                    port,
                    key_material,
                    created_at: now,
                };
                let ghost before = self.entries();
                proof {
                    lemma_insert(before, at as int, record@);
                }
                self.records.insert(at, record);
                assert(self.entries() =~= before.insert(at as int, record@));
                Ok(KeyId { nickname: nickname.to_owned() })
            },
            Err(_) => Err(Error::CryptoError),
        }
    }

    /// Generates a fresh key pair for `nickname` and stores its private
    /// material sealed under the store key.
    ///
    /// Fails with `DuplicateNickname` exactly when the nickname is already
    /// stored, and otherwise with `StoreIoError` exactly when the port is 0,
    /// which no record may have; no key is generated then, and the store is
    /// left unchanged. On every other input a key is generated and the
    /// record is stored with the given metadata.
    pub fn generate(&mut self, nickname: &str, user: &str, host: &str, port: u16, now: u64) -> (r: Result<
        KeyId,
        Error,
    >)
        requires
            old(self).wf(),
        ensures
            old(self).generate_post(*final(self), nickname@, user@, host@, port, now, r),
            r is Ok <==> !old(self)@.contains_key(nickname@) && port >= 1,
    {
        if self.contains(nickname) {
            return Err(Error::DuplicateNickname);
        }
        if port < 1 {
            return Err(Error::StoreIoError);
        }
        let material = fresh_private_key();
        let ghost plain = material;
        let r = self.insert_with_material(nickname, user, host, port, now, material);
        proof {
            if r is Ok {
                assert(self@ == old(self)@.insert(
                    nickname@,
                    old(self).generated(nickname@, user@, host@, port, now, plain->0@),
                ));
            }
        }
        r
    }

    /// Brings back a record that was stored earlier, as it was read from the
    /// durable store.
    ///
    /// Fails with `DuplicateNickname` when the record's nickname is already
    /// stored, and otherwise with `StoreIoError` when its port is 0. A
    /// failure leaves the store unchanged. The sealed material is not
    /// opened here: `get` and `export` refuse it if it does not open.
    pub fn restore(&mut self, record: KeyRecord) -> (r: Result<(), Error>)
        requires
            old(self).wf(),
        ensures
            old(self).restore_post(*final(self), record@, r),
    {
        let (at, found) = self.locate(record.nickname.as_str());
        if found {
            return Err(Error::DuplicateNickname);
        }
        if record.port < 1 {
            return Err(Error::StoreIoError);
        }
        let ghost before = self.entries();
        proof {
            lemma_insert(before, at as int, record@);
        }
        self.records.insert(at, record);
        assert(self.entries() =~= before.insert(at as int, record@));
        Ok(())
    }

    /// Settles a record once the durable store has been asked to write it.
    /// When it was written the record stays; when it was not, the record is
    /// taken out again and the call fails with `StoreIoError`, so that what
    /// is not durable is not served.
    pub fn settle(&mut self, nickname: &str, written: bool) -> (r: Result<(), Error>)
        requires
            old(self).wf(),
        ensures
            final(self).wf(),
            final(self).key() == old(self).key(),
            if written {
                r == Ok::<(), Error>(()) && old(self).unchanged(*final(self))
            } else {
                &&& r == Err::<(), Error>(Error::StoreIoError)
                &&& final(self)@ == old(self)@.remove(nickname@)
            },
    {
        if written {
            Ok(())
        } else {
            let _ = self.delete(nickname);
            Err(Error::StoreIoError)
        }
    }

    /// Returns the record stored under `nickname`, its private material
    /// still sealed.
    ///
    /// Fails with `NotFound` when no record has the nickname, and with
    /// `CryptoError` when the record's sealed material does not open under
    /// the store key; nothing of such a record is returned.
    pub fn get(&self, nickname: &str) -> (r: Result<KeyRecord, Error>)
        requires
            self.wf(),
        ensures
            self.get_post(nickname@, r),
    {
        let (at, found) = self.locate(nickname);
        if !found {
            return Err(Error::NotFound);
        }
        proof {
            lemma_lookup(self.entries(), at as int);
        }
        let record = &self.records[at];
        match unseal(self.key.as_slice(), record.key_material.as_slice()) {
            Ok(plain) => {
                let mut plain = plain;
                wipe(&mut plain);
                Ok(record.duplicate())
            },
            Err(_) => Err(Error::CryptoError),
        }
    }

    /// Returns the record stored under `nickname` as it is kept, without
    /// opening its seal, or nothing when no record has the nickname. This
    /// is the copy to keep aside while the durable store is asked to delete
    /// the record.
    pub fn stored(&self, nickname: &str) -> (r: Option<KeyRecord>)
        requires
            self.wf(),
        ensures
            match r {
                Some(record) => self@.contains_key(nickname@) && record@ == self@[nickname@],
                None => !self@.contains_key(nickname@),
            },
    {
        let (at, found) = self.locate(nickname);
        if !found {
            return None;
        }
        proof {
            lemma_lookup(self.entries(), at as int);
        }
        Some(self.records[at].duplicate())
    }

    /// What `settle_removal` promises: `after` is the store that it leaves
    /// and `r` its result, when it was called on this store.
    pub open spec fn settle_removal_post(
        self,
        after: KeyStore,
        kept: KeyRecordView,
        removed: bool,
        r: Result<bool, Error>,
    ) -> bool {
        &&& after.wf()
        &&& after.key() == self.key()
        &&& if removed {
            r == Ok::<bool, Error>(true) && self.unchanged(after)
        } else {
            &&& r == Err::<bool, Error>(Error::StoreIoError)
            &&& if self.barred(kept.nickname, kept.port) is None {
                after@ == self@.insert(kept.nickname, kept)
            } else {
                self.unchanged(after)
            }
        }
    }

    /// Settles a removal once the durable store has been asked to delete
    /// the record. `kept` is the record as it was before `delete` took it
    /// out. When the durable store deleted it, the removal stands and the
    /// answer is `true`. When it did not, the record is put back and the
    /// call fails with `StoreIoError`, so that the store is as it was
    /// before the `delete`.
    pub fn settle_removal(&mut self, kept: KeyRecord, removed: bool) -> (r: Result<bool, Error>)
        requires
            old(self).wf(),
        ensures
            old(self).settle_removal_post(*final(self), kept@, removed, r),
    {
        if removed {
            Ok(true)
        } else {
            let _ = self.restore(kept);
            Err(Error::StoreIoError)
        }
    }

    /// Returns the private material stored under `nickname` in the clear:
    /// the one path on which plaintext leaves the store.
    ///
    /// Fails with `NotFound` when no record has the nickname, and with
    /// `CryptoError` when the sealed material does not open under the store
    /// key.
    pub fn export(&self, nickname: &str) -> (r: Result<Vec<u8>, Error>)
        requires
            self.wf(),
        ensures
            self.export_post(nickname@, r),
    {
        let (at, found) = self.locate(nickname);
        if !found {
            return Err(Error::NotFound);
        }
        proof {
            lemma_lookup(self.entries(), at as int);
        }
        unseal(self.key.as_slice(), self.records[at].key_material.as_slice())
    }

    /// Removes the record stored under `nickname`, if there is one, and says
    /// whether a record was removed. An absent nickname is no error.
    pub fn delete(&mut self, nickname: &str) -> (r: Result<bool, Error>)
        requires
            old(self).wf(),
        ensures
            old(self).delete_post(*final(self), nickname@, r),
    {
        let (at, found) = self.locate(nickname);
        if !found {
            assert(self@.remove(nickname@) =~= self@);
            return Ok(false);
        }
        let ghost before = self.entries();
        proof {
            lemma_remove(before, at as int);
        }
        let mut gone = self.records.remove(at);
        wipe(&mut gone.key_material);
        assert(self.entries() =~= before.remove(at as int));
        Ok(true)
    }

    /// Lists the metadata of every stored record in ascending order of
    /// nickname. No key material is part of the listing.
    pub fn list(&self) -> (out: Vec<KeyMetadata>)
        requires
            self.wf(),
        ensures
            self.list_post(out@),
    {
        let n: usize = self.records.len();
        let mut out: Vec<KeyMetadata> = Vec::with_capacity(n);
        let mut i: usize = 0;
        while i < n
            invariant
                self.wf(),
                n == self.records@.len(),
                n == self.entries().len(),
                i <= n,
                out@.len() == i,
                forall|j: int| 0 <= j < i ==> (#[trigger] out@[j])@ == self.entries()[j].metadata(),
            decreases n - i,
        {
            out.push(self.records[i].metadata());
            i = i + 1;
        }
        proof {
            lemma_count(self.entries());
            assert forall|i: int| 0 <= i < out@.len() implies self@.contains_key(
                #[trigger] out@[i]@.nickname,
            ) && out@[i]@ == self@[out@[i]@.nickname].metadata() by {
                lemma_lookup(self.entries(), i);
            }
            assert forall|nick: Seq<char>| self@.contains_key(nick) implies exists|i: int|
                0 <= i < out@.len() && #[trigger] out@[i]@.nickname == nick by {
                let k = choose|k: int| 0 <= k < self.entries().len() && #[trigger] self.entries()[k].nickname == nick;
                assert(out@[k]@.nickname == nick);
            }
            assert forall|i: int, j: int| 0 <= i < j < out@.len() implies name_lt(
                #[trigger] out@[i]@.nickname,
                #[trigger] out@[j]@.nickname,
            ) by {
                assert(name_lt(self.entries()[i].nickname, self.entries()[j].nickname));
            }
        }
        out
    }

    /// The number of stored records.
    pub fn len(&self) -> (n: usize)
        requires
            self.wf(),
        ensures
            self@.dom().finite(),
            n == self@.dom().len(),
    {
        proof {
            lemma_count(self.entries());
        }
        self.records.len()
    }
}

impl View for KeyStore {
    type V = Map<Seq<char>, KeyRecordView>;

    /// The store as a mapping from nickname to record.
    open spec fn view(&self) -> Map<Seq<char>, KeyRecordView> {
        by_nickname(self.entries())
    }
}

} // verus!
