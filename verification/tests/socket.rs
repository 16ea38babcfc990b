use key_agent::auth::{SessionAuthenticator, STORE_KEY_LEN, VERIFIER_LEN};
use key_agent::error::Error;
use key_agent::kdf::stretch;
use key_agent::envelope::unseal;
use key_agent::message::{Payload, Request};
use key_agent::policy::ConfirmPolicy;
use key_agent::socket::{Admission, ServiceConfig, Socket};
use key_agent::session::{AgentSession, SessionState};

fn config(max_sessions: usize) -> ServiceConfig {
    ServiceConfig {
        path: "/run/user/1000/agent.sock".to_string(),
        salt: b"salt".to_vec(),
        rounds: 8,
        max_sessions,
        max_failures: 1,
        idle_limit: 30,
        policy: ConfirmPolicy::default(),
    }
}

fn session(a: Admission) -> AgentSession {
    match a {
        Admission::Accepted(s) => s,
        other => panic!("{:?}", other),
    }
}

#[test]
fn init_keeps_a_verifier_and_not_the_passphrase() {
    let svc = Socket::init("correct", config(4));
    assert!(svc.auth_req("correct"));
    assert!(!svc.auth_req("wrong"));
    assert!(!svc.auth_req(""));
    let (salt, rounds, stored) = svc.verifier_record();
    assert_eq!(salt, b"salt".to_vec());
    assert_eq!(rounds, 8);
    assert_eq!(stored, stretch(b"correct", b"salt", 8, 64)[..VERIFIER_LEN].to_vec());
    assert_ne!(stored, b"correct".to_vec());
    assert!(svc.show_all_keys().is_empty());
}

#[test]
fn keys_are_sealed_under_the_key_that_the_passphrase_unlocks() {
    let mut svc = Socket::init("correct", config(4));
    assert!(svc.gen_key("box1", "u", "h", 22, 1));
    let rec = svc.show_key("box1").unwrap();
    let key = stretch(b"correct", b"salt", 8, VERIFIER_LEN + STORE_KEY_LEN)[VERIFIER_LEN..].to_vec();
    assert_eq!(unseal(&key, &rec.key_material), svc.export_key("box1"));
    assert!(svc.export_key("box1").is_ok());
}

#[test]
fn owner_operations_on_keys() {
    let mut svc = Socket::init("correct", config(4));
    assert!(svc.gen_key("box1", "alice", "a.example", 22, 1));
    assert!(!svc.gen_key("box1", "bob", "b.example", 23, 2));
    assert!(svc.gen_key("box0", "carol", "c.example", 24, 3));
    let rec = svc.show_key("box1").unwrap();
    assert_eq!((rec.user.as_str(), rec.host.as_str(), rec.port, rec.created_at), ("alice", "a.example", 22, 1));
    assert_eq!(svc.show_key("nope"), Err(Error::NotFound));
    let all: Vec<String> = svc.show_all_keys().into_iter().map(|m| m.nickname).collect();
    assert_eq!(all, vec!["box0", "box1"]);
    assert!(svc.delete_key("box1"));
    assert!(!svc.delete_key("box1"));
    assert_eq!(svc.show_key("box1"), Err(Error::NotFound));
    assert_eq!(svc.show_all_keys().len(), 1);
}

#[test]
fn accept_admits_the_owner_up_to_the_limit() {
    let mut svc = Socket::init("correct", config(2));
    let a = session(svc.accept(1000, 1000, 50));
    assert_eq!(a.state(), SessionState::Unauthenticated);
    assert_eq!(a.failure_count(), 0);
    let _b = session(svc.accept(1000, 1000, 51));
    assert!(matches!(svc.accept(1000, 1000, 52), Admission::Full));
    svc.release();
    assert!(matches!(svc.accept(1000, 1000, 53), Admission::Accepted(_)));
    assert!(matches!(svc.accept(1000, 1000, 54), Admission::Full));
    svc.release();
    svc.release();
    svc.release();
    svc.release();
    assert!(matches!(svc.accept(1000, 1000, 55), Admission::Accepted(_)));
    assert!(matches!(svc.accept(1000, 1000, 56), Admission::Accepted(_)));
    assert!(matches!(svc.accept(1000, 1000, 57), Admission::Full));
}

#[test]
fn accept_turns_another_user_away() {
    let mut svc = Socket::init("correct", config(1));
    assert!(matches!(svc.accept(1001, 1000, 0), Admission::ForeignPeer));
    assert!(matches!(svc.accept(0, 1000, 0), Admission::ForeignPeer));
    // A foreign peer takes no slot.
    assert!(matches!(svc.accept(1000, 1000, 0), Admission::Accepted(_)));
    // A foreign peer is told so even when the service is full.
    assert!(matches!(svc.accept(1001, 1000, 0), Admission::ForeignPeer));
}

#[test]
fn a_service_with_no_slots_admits_nobody() {
    let mut svc = Socket::init("correct", config(0));
    assert!(matches!(svc.accept(1000, 1000, 0), Admission::Full));
}

#[test]
fn accepted_sessions_get_the_service_limits() {
    let mut svc = Socket::init("correct", config(2));
    let mut s = session(svc.accept(7, 7, 100));
    assert!(!s.tick(129));
    assert!(s.tick(130));
    let mut t = session(svc.accept(7, 7, 100));
    let wrong = Request::Authenticate { candidate: "wrong".into() };
    assert_eq!(svc.serve(&mut t, &wrong, None, 101), Ok(Payload::Authenticated(false)));
    assert_eq!(t.state(), SessionState::Unauthenticated);
    assert_eq!(svc.serve(&mut t, &wrong, None, 102), Ok(Payload::Authenticated(false)));
    assert_eq!(t.state(), SessionState::Closed);
}

#[test]
fn close_hands_out_the_path_once() {
    let mut svc = Socket::init("correct", config(2));
    assert_eq!(svc.close(), Some("/run/user/1000/agent.sock".to_string()));
    assert_eq!(svc.close(), None);
    assert!(matches!(svc.accept(1000, 1000, 0), Admission::NotListening));
    assert!(matches!(svc.accept(1001, 1000, 0), Admission::NotListening));
}

#[test]
fn serve_runs_a_session_against_the_shared_store() {
    let mut svc = Socket::init("correct", config(2));
    let mut a = session(svc.accept(1, 1, 0));
    let mut b = session(svc.accept(1, 1, 0));
    let login = Request::Authenticate { candidate: "correct".into() };
    assert_eq!(svc.serve(&mut a, &login, None, 1), Ok(Payload::Authenticated(true)));
    assert_eq!(svc.serve(&mut b, &login, None, 1), Ok(Payload::Authenticated(true)));
    let generate = Request::Generate { nickname: "n".into(), user: "u".into(), host: "h".into(), port: 22 };
    assert!(matches!(svc.serve(&mut a, &generate, None, 2), Ok(Payload::Generated(_))));
    assert_eq!(svc.serve(&mut b, &generate, None, 3), Err(Error::DuplicateNickname));
    assert_eq!(svc.serve(&mut b, &Request::List, None, 4), Ok(Payload::Listing(svc.show_all_keys())));
    assert_eq!(svc.show_all_keys().len(), 1);
    // The default policy denies the use of a key.
    let ask = Request::Confirm { nickname: "n".into() };
    assert_eq!(svc.serve(&mut a, &ask, Some(true), 5), Ok(Payload::Confirmed(false)));
}

#[test]
fn resume_unlocks_an_existing_store() {
    let mut first = Socket::init("correct", config(2));
    assert!(first.gen_key("box1", "u", "h", 22, 1));
    let rec = first.show_key("box1").unwrap();
    let plain = first.export_key("box1").unwrap();
    let (_salt, _rounds, stored) = first.verifier_record();

    let mut again = Socket::resume("correct", config(2), stored.clone(), &Vec::new()).ok().unwrap();
    assert!(again.show_all_keys().is_empty());
    assert_eq!(again.restore_key(rec.clone()), Ok(()));
    assert_eq!(again.restore_key(rec.clone()), Err(Error::DuplicateNickname));
    assert_eq!(again.show_key("box1"), Ok(rec));
    assert_eq!(again.export_key("box1"), Ok(plain));
    assert!(again.auth_req("correct"));

    match Socket::resume("wrong", config(2), stored, &Vec::new()) {
        Err(e) => assert_eq!(e, Error::AuthenticationFailed),
        Ok(_) => panic!("a wrong passphrase resumed the service"),
    }
}

#[test]
fn a_resumed_service_holds_exactly_what_was_persisted() {
    let mut first = Socket::init("correct", config(2));
    for nick in ["delta", "alpha", "charlie"] {
        assert!(first.gen_key(nick, "u", "h", 22, 1));
    }
    let persisted: Vec<_> = ["delta", "alpha", "charlie"].iter().map(|n| first.stored_key(n).unwrap()).collect();
    let (_salt, _rounds, stored) = first.verifier_record();

    let again = Socket::resume("correct", config(2), stored.clone(), &persisted).ok().unwrap();
    assert_eq!(again.show_all_keys(), first.show_all_keys());
    assert_eq!(again.show_all_keys().len(), 3);
    for rec in &persisted {
        assert_eq!(again.show_key(&rec.nickname), Ok(rec.clone()));
        assert_eq!(again.export_key(&rec.nickname), first.export_key(&rec.nickname));
    }

    // A wrong passphrase is reported before the records are looked at.
    let mut twice = persisted.clone();
    twice.push(persisted[0].clone());
    assert_eq!(Socket::resume("wrong", config(2), stored.clone(), &twice).err(), Some(Error::AuthenticationFailed));
    assert_eq!(Socket::resume("correct", config(2), stored.clone(), &twice).err(), Some(Error::DuplicateNickname));
    let mut no_port = persisted.clone();
    no_port[1].port = 0;
    assert_eq!(Socket::resume("correct", config(2), stored, &no_port).err(), Some(Error::StoreIoError));
}

#[test]
fn gen_key_stores_a_key_unless_the_nickname_is_taken_or_the_port_is_zero() {
    let mut svc = Socket::init("correct", config(2));
    assert!(svc.gen_key("box1", "u", "h", 1, 0));
    assert!(svc.gen_key("box2", "u", "h", 65535, 0));
    assert!(!svc.gen_key("box3", "u", "h", 0, 0));
    assert!(!svc.gen_key("box1", "u", "h", 22, 0));
    let all: Vec<String> = svc.show_all_keys().into_iter().map(|m| m.nickname).collect();
    assert_eq!(all, vec!["box1", "box2"]);
}

#[test]
fn a_failed_durable_delete_gives_an_error_and_the_store_as_it_was() {
    let mut svc = Socket::init("correct", config(2));
    assert!(svc.gen_key("box1", "u", "h", 22, 1));
    let before = (svc.show_all_keys(), svc.show_key("box1"));
    let kept = svc.stored_key("box1").unwrap();
    assert!(svc.delete_key("box1"));
    assert_eq!(svc.settle_removal(kept, false), Err(Error::StoreIoError));
    assert_eq!((svc.show_all_keys(), svc.show_key("box1")), before);

    let kept = svc.stored_key("box1").unwrap();
    assert!(svc.delete_key("box1"));
    assert_eq!(svc.settle_removal(kept, true), Ok(true));
    assert_eq!(svc.show_key("box1"), Err(Error::NotFound));
    assert_eq!(svc.stored_key("box1"), None);
}

#[test]
fn settle_key_drops_a_record_that_was_not_written() {
    let mut svc = Socket::init("correct", config(2));
    assert!(svc.gen_key("box1", "u", "h", 22, 1));
    assert_eq!(svc.settle_key("box1", true), Ok(()));
    assert!(svc.show_key("box1").is_ok());
    assert_eq!(svc.settle_key("box1", false), Err(Error::StoreIoError));
    assert_eq!(svc.show_key("box1"), Err(Error::NotFound));
}

#[test]
fn an_authenticator_outside_the_service_agrees_with_it() {
    let svc = Socket::init("correct", config(2));
    let (salt, rounds, stored) = svc.verifier_record();
    let auth = SessionAuthenticator::from_parts(salt, rounds, stored);
    assert!(auth.verify("correct"));
    assert!(!auth.verify("incorrect"));
}

#[test]
fn serve_read_takes_the_service_by_shared_borrow() {
    let mut svc = Socket::init("correct", config(2));
    assert!(svc.gen_key("box1", "u", "h", 22, 1));
    let mut a = session(svc.accept(1, 1, 0));
    let mut b = session(svc.accept(1, 1, 0));
    let shared = &svc;
    let login = Request::Authenticate { candidate: "correct".into() };
    assert_eq!(shared.serve_read(&mut a, &login, None, 1), Some(Ok(Payload::Authenticated(true))));
    assert_eq!(shared.serve_read(&mut b, &login, None, 1), Some(Ok(Payload::Authenticated(true))));
    assert_eq!(shared.serve_read(&mut a, &Request::List, None, 2), Some(Ok(Payload::Listing(shared.show_all_keys()))));
    let delete = Request::Delete { nickname: "box1".into() };
    assert_eq!(shared.serve_read(&mut b, &delete, None, 3), None);
    assert_eq!(svc.serve(&mut b, &delete, None, 3), Ok(Payload::Deleted(true)));
    assert!(!svc.needs_prompt());
}
