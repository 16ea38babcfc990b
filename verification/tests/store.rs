use key_agent::envelope::{seal, unseal, MAX_PLAINTEXT_LEN, TAG_LEN};
use key_agent::error::Error;
use key_agent::record::{KeyMetadata, KeyRecord};
use key_agent::store::KeyStore;

fn store() -> KeyStore {
    KeyStore::new(b"0123456789abcdef0123456789abcdef".to_vec())
}

fn names(store: &KeyStore) -> Vec<String> {
    store.list().into_iter().map(|m| m.nickname).collect()
}

#[test]
fn a_new_store_is_empty() {
    let s = store();
    assert_eq!(s.len(), 0);
    assert!(s.list().is_empty());
    assert!(!s.contains("box1"));
}

#[test]
fn generate_then_get_returns_the_metadata_given() {
    let mut s = store();
    let id = s.generate("box1", "alice", "example.org", 22, 1_700_000_000).unwrap();
    assert_eq!(id.nickname, "box1");
    let rec = s.get("box1").unwrap();
    assert_eq!(rec.nickname, "box1");
    assert_eq!(rec.user, "alice");
    assert_eq!(rec.host, "example.org");
    assert_eq!(rec.port, 22);
    assert_eq!(rec.created_at, 1_700_000_000);
    assert_eq!(s.len(), 1);
    assert!(s.contains("box1"));
}

#[test]
fn generate_accepts_the_ends_of_the_port_range() {
    let mut s = store();
    assert!(s.generate("low", "u", "h", 1, 0).is_ok());
    assert!(s.generate("high", "u", "h", 65535, 0).is_ok());
    assert_eq!(s.get("low").unwrap().port, 1);
    assert_eq!(s.get("high").unwrap().port, 65535);
}

#[test]
fn get_returns_sealed_material_and_export_the_private_key() {
    let mut s = store();
    s.generate("box1", "u", "h", 22, 0).unwrap();
    let rec = s.get("box1").unwrap();
    let plain = s.export("box1").unwrap();
    assert!(russh_keys::pkcs8::decode_pkcs8(&plain, None).is_ok());
    assert_eq!(rec.key_material.len(), plain.len() + TAG_LEN);
    assert_ne!(rec.key_material, plain);
    assert!(russh_keys::pkcs8::decode_pkcs8(&rec.key_material, None).is_err());
    assert_eq!(unseal(b"0123456789abcdef0123456789abcdef", &rec.key_material), Ok(plain));
}

#[test]
fn generate_refuses_a_duplicate_and_keeps_the_record() {
    let mut s = store();
    s.generate("box1", "alice", "a.example", 22, 10).unwrap();
    let before = s.get("box1").unwrap();
    assert_eq!(s.generate("box1", "bob", "b.example", 2222, 20), Err(Error::DuplicateNickname));
    assert_eq!(s.get("box1").unwrap(), before);
    assert_eq!(s.len(), 1);
}

#[test]
fn two_generates_of_one_nickname_leave_one_record() {
    let mut s = store();
    let first = s.generate("shared", "a", "h", 22, 1);
    let second = s.generate("shared", "b", "h", 22, 2);
    assert!(first.is_ok());
    assert_eq!(second, Err(Error::DuplicateNickname));
    assert_eq!(names(&s), vec!["shared".to_string()]);
    assert_eq!(s.get("shared").unwrap().user, "a");
}

#[test]
fn get_of_an_absent_nickname_is_not_found() {
    let mut s = store();
    assert_eq!(s.get("box1"), Err(Error::NotFound));
    assert_eq!(s.export("box1"), Err(Error::NotFound));
    s.generate("box1", "u", "h", 22, 0).unwrap();
    assert_eq!(s.get("box"), Err(Error::NotFound));
    assert_eq!(s.get("box11"), Err(Error::NotFound));
    assert_eq!(s.get(""), Err(Error::NotFound));
}

#[test]
fn delete_says_whether_a_record_was_removed() {
    let mut s = store();
    assert_eq!(s.delete("box1"), Ok(false));
    s.generate("box1", "u", "h", 22, 0).unwrap();
    s.generate("box2", "u", "h", 22, 0).unwrap();
    assert_eq!(s.delete("box1"), Ok(true));
    assert_eq!(s.delete("box1"), Ok(false));
    assert_eq!(s.get("box1"), Err(Error::NotFound));
    assert_eq!(names(&s), vec!["box2".to_string()]);
    assert_eq!(s.len(), 1);
}

#[test]
fn a_deleted_nickname_can_be_generated_again() {
    let mut s = store();
    s.generate("box1", "old", "h", 22, 1).unwrap();
    let old = s.export("box1").unwrap();
    assert_eq!(s.delete("box1"), Ok(true));
    s.generate("box1", "new", "h", 22, 2).unwrap();
    assert_eq!(s.get("box1").unwrap().user, "new");
    assert_ne!(s.export("box1").unwrap(), old);
}

#[test]
fn list_is_in_ascending_order_of_nickname() {
    let mut s = store();
    for nick in ["delta", "alpha", "charlie", "bravo", "alpha2", "", "Zulu", "é"] {
        s.generate(nick, "u", "h", 22, 7).unwrap();
    }
    assert_eq!(names(&s), vec!["", "Zulu", "alpha", "alpha2", "bravo", "charlie", "delta", "é"]);
    assert_eq!(s.len(), 8);
    s.delete("bravo").unwrap();
    s.delete("").unwrap();
    assert_eq!(names(&s), vec!["Zulu", "alpha", "alpha2", "charlie", "delta", "é"]);
}

#[test]
fn list_carries_the_metadata_and_nothing_else() {
    let mut s = store();
    s.generate("box1", "alice", "a.example", 22, 100).unwrap();
    s.generate("box0", "bob", "b.example", 2222, 200).unwrap();
    assert_eq!(
        s.list(),
        vec![
            KeyMetadata {
                nickname: "box0".to_string(),
                user: "bob".to_string(),
                host: "b.example".to_string(),
                port: 2222,
                created_at: 200,
            },
            KeyMetadata {
                nickname: "box1".to_string(),
                user: "alice".to_string(),
                host: "a.example".to_string(),
                port: 22,
                created_at: 100,
            },
        ]
    );
}

#[test]
fn insert_with_material_seals_what_it_is_given() {
    let mut s = store();
    let material = b"not really a key".to_vec();
    let id = s.insert_with_material("box1", "u", "h", 22, 5, Some(material.clone())).unwrap();
    assert_eq!(id.nickname, "box1");
    let rec = s.get("box1").unwrap();
    assert_eq!(rec.key_material, seal(b"0123456789abcdef0123456789abcdef", &material).unwrap());
    assert_eq!(s.export("box1"), Ok(material));
}

#[test]
fn insert_with_material_fails_without_material() {
    let mut s = store();
    assert_eq!(s.insert_with_material("box1", "u", "h", 22, 5, None), Err(Error::CryptoError));
    assert_eq!(s.len(), 0);
    let long = vec![0u8; MAX_PLAINTEXT_LEN + 1];
    assert_eq!(s.insert_with_material("box1", "u", "h", 22, 5, Some(long)), Err(Error::CryptoError));
    assert_eq!(s.len(), 0);
}

#[test]
fn insert_with_material_reports_a_duplicate_before_anything_else() {
    let mut s = store();
    s.insert_with_material("box1", "u", "h", 22, 5, Some(vec![1, 2, 3])).unwrap();
    assert_eq!(
        s.insert_with_material("box1", "v", "h", 22, 6, Some(vec![4, 5, 6])),
        Err(Error::DuplicateNickname)
    );
    assert_eq!(s.insert_with_material("box1", "v", "h", 22, 6, None), Err(Error::DuplicateNickname));
    assert_eq!(s.export("box1"), Ok(vec![1, 2, 3]));
    assert_eq!(s.get("box1").unwrap().user, "u");
}

fn record(nick: &str, port: u16, key_material: Vec<u8>) -> KeyRecord {
    KeyRecord {
        nickname: nick.to_string(),
        user: "u".to_string(),
        host: "h".to_string(),
        port,
        key_material,
        created_at: 9,
    }
}

#[test]
fn restore_brings_a_record_back_as_it_was() {
    let mut a = store();
    a.generate("box1", "alice", "a.example", 22, 100).unwrap();
    let rec = a.get("box1").unwrap();
    let plain = a.export("box1").unwrap();
    let mut b = store();
    assert_eq!(b.restore(rec.clone()), Ok(()));
    assert_eq!(b.get("box1"), Ok(rec.clone()));
    assert_eq!(b.export("box1"), Ok(plain));
    assert_eq!(b.restore(rec), Err(Error::DuplicateNickname));
    assert_eq!(b.len(), 1);
}

#[test]
fn restore_refuses_a_record_with_no_port() {
    let mut s = store();
    let blob = seal(b"0123456789abcdef0123456789abcdef", b"m").unwrap();
    assert_eq!(s.restore(record("box1", 0, blob)), Err(Error::StoreIoError));
    assert_eq!(s.len(), 0);
}

#[test]
fn a_corrupted_record_is_refused_whole() {
    let mut s = store();
    let mut blob = seal(b"0123456789abcdef0123456789abcdef", b"material").unwrap();
    blob[TAG_LEN] ^= 0x80;
    assert_eq!(s.restore(record("bad", 22, blob)), Ok(()));
    assert_eq!(s.get("bad"), Err(Error::CryptoError));
    assert_eq!(s.export("bad"), Err(Error::CryptoError));
    // It is still listed and can be deleted.
    assert_eq!(names(&s), vec!["bad".to_string()]);
    assert_eq!(s.delete("bad"), Ok(true));
}

#[test]
fn a_record_sealed_under_another_key_is_refused() {
    let mut s = store();
    let blob = seal(b"some other key", b"material").unwrap();
    s.restore(record("foreign", 22, blob)).unwrap();
    assert_eq!(s.get("foreign"), Err(Error::CryptoError));
    assert_eq!(s.export("foreign"), Err(Error::CryptoError));
    s.restore(record("short", 22, vec![1, 2, 3])).unwrap();
    assert_eq!(s.get("short"), Err(Error::CryptoError));
}

#[test]
fn settle_keeps_what_was_written_and_drops_what_was_not() {
    let mut s = store();
    s.generate("kept", "u", "h", 22, 0).unwrap();
    s.generate("lost", "u", "h", 22, 0).unwrap();
    assert_eq!(s.settle("kept", true), Ok(()));
    assert_eq!(s.settle("lost", false), Err(Error::StoreIoError));
    assert_eq!(names(&s), vec!["kept".to_string()]);
    assert_eq!(s.settle("never there", false), Err(Error::StoreIoError));
    assert_eq!(names(&s), vec!["kept".to_string()]);
}

#[test]
fn generate_succeeds_on_every_new_nickname_with_a_port() {
    let mut s = store();
    for (i, port) in [1u16, 2, 22, 80, 1024, 65534, 65535].iter().enumerate() {
        let nick = format!("box{}", i);
        assert_eq!(s.generate(&nick, "u", "h", *port, 0).map(|id| id.nickname), Ok(nick));
    }
    assert_eq!(s.len(), 7);
}

#[test]
fn generate_refuses_port_zero_and_leaves_the_store() {
    let mut s = store();
    s.generate("box1", "u", "h", 22, 0).unwrap();
    let before = s.list();
    assert_eq!(s.generate("box2", "u", "h", 0, 0), Err(Error::StoreIoError));
    assert_eq!(s.list(), before);
    assert!(!s.contains("box2"));
    // A taken nickname is reported before the port is looked at.
    assert_eq!(s.generate("box1", "u", "h", 0, 0), Err(Error::DuplicateNickname));
    assert_eq!(s.insert_with_material("box2", "u", "h", 0, 0, Some(vec![1])), Err(Error::StoreIoError));
    assert_eq!(s.insert_with_material("box2", "u", "h", 0, 0, None), Err(Error::StoreIoError));
    assert_eq!(s.insert_with_material("box1", "u", "h", 0, 0, None), Err(Error::DuplicateNickname));
    assert_eq!(s.list(), before);
}

#[test]
fn restore_reports_a_taken_nickname_before_the_port() {
    let mut s = store();
    s.generate("box1", "u", "h", 22, 0).unwrap();
    assert_eq!(s.restore(record("box1", 0, vec![])), Err(Error::DuplicateNickname));
    assert_eq!(s.restore(record("box2", 0, vec![])), Err(Error::StoreIoError));
    assert_eq!(s.len(), 1);
}

#[test]
fn the_encoded_private_key_is_short() {
    let mut s = store();
    s.generate("box1", "u", "h", 22, 0).unwrap();
    let plain = s.export("box1").unwrap();
    assert!(plain.len() <= 0x0100_0000);
    assert!(plain.len() > 64 && plain.len() < 256, "{}", plain.len());
}

#[test]
fn stored_returns_the_record_as_it_is_kept() {
    let mut s = store();
    assert_eq!(s.stored("box1"), None);
    s.generate("box1", "u", "h", 22, 3).unwrap();
    assert_eq!(s.stored("box1"), Some(s.get("box1").unwrap()));
    // A record whose seal does not open is still returned as it is kept.
    let bad = record("bad", 22, vec![1, 2, 3]);
    s.restore(bad.clone()).unwrap();
    assert_eq!(s.get("bad"), Err(Error::CryptoError));
    assert_eq!(s.stored("bad"), Some(bad));
}

#[test]
fn a_delete_that_was_not_durable_is_undone() {
    let mut s = store();
    s.generate("box1", "alice", "a.example", 22, 1).unwrap();
    s.generate("box2", "bob", "b.example", 23, 2).unwrap();
    let before = (s.list(), s.get("box1"), s.export("box1"));
    let kept = s.stored("box1").unwrap();
    assert_eq!(s.delete("box1"), Ok(true));
    assert!(!s.contains("box1"));
    assert_eq!(s.settle_removal(kept, false), Err(Error::StoreIoError));
    assert_eq!((s.list(), s.get("box1"), s.export("box1")), before);
}

#[test]
fn a_delete_that_was_durable_stands() {
    let mut s = store();
    s.generate("box1", "u", "h", 22, 1).unwrap();
    let kept = s.stored("box1").unwrap();
    assert_eq!(s.delete("box1"), Ok(true));
    assert_eq!(s.settle_removal(kept, true), Ok(true));
    assert!(!s.contains("box1"));
    assert_eq!(s.len(), 0);
}

#[test]
fn settle_removal_does_not_overwrite_a_record_that_took_the_nickname() {
    let mut s = store();
    s.generate("box1", "old", "h", 22, 1).unwrap();
    let kept = s.stored("box1").unwrap();
    s.delete("box1").unwrap();
    s.generate("box1", "new", "h", 22, 2).unwrap();
    assert_eq!(s.settle_removal(kept, false), Err(Error::StoreIoError));
    assert_eq!(s.get("box1").unwrap().user, "new");
    assert_eq!(s.len(), 1);
}

#[test]
fn load_gives_exactly_the_persisted_records() {
    let key = b"0123456789abcdef0123456789abcdef".to_vec();
    let mut first = store();
    for nick in ["charlie", "alpha", "bravo"] {
        first.generate(nick, "u", "h", 22, 7).unwrap();
    }
    let persisted: Vec<KeyRecord> =
        ["charlie", "alpha", "bravo"].iter().map(|n| first.stored(n).unwrap()).collect();
    let again = KeyStore::load(key.clone(), &persisted).ok().expect("the records load");
    assert_eq!(again.len(), 3);
    assert_eq!(again.list(), first.list());
    for rec in &persisted {
        assert_eq!(again.get(&rec.nickname), Ok(rec.clone()));
        assert_eq!(again.export(&rec.nickname), first.export(&rec.nickname));
    }
    let empty = KeyStore::load(key, &Vec::new()).ok().expect("no records load");
    assert_eq!(empty.len(), 0);
}

#[test]
fn load_fails_with_the_error_of_the_first_record_that_cannot_be_added() {
    let key = b"k".to_vec();
    let err = |records: Vec<KeyRecord>| KeyStore::load(key.clone(), &records).err();
    assert_eq!(err(vec![record("a", 22, vec![]), record("b", 0, vec![])]), Some(Error::StoreIoError));
    assert_eq!(err(vec![record("a", 22, vec![]), record("a", 23, vec![])]), Some(Error::DuplicateNickname));
    assert_eq!(
        err(vec![record("a", 22, vec![]), record("a", 0, vec![]), record("b", 0, vec![])]),
        Some(Error::DuplicateNickname)
    );
    assert_eq!(
        err(vec![record("b", 0, vec![]), record("a", 22, vec![]), record("a", 22, vec![])]),
        Some(Error::StoreIoError)
    );
    assert_eq!(err(vec![record("a", 1, vec![]), record("b", 65535, vec![])]), None);
}
