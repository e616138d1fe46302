use plugin_host::ffi::{c_systemtime, c_token};
use plugin_host::users::data::{DateTime, Session, Token, UniqueId};
use plugin_host::users::session_store::Sessions;
use plugin_host::users::sessions::Sessions as PluginSessions;
use plugin_host::users::timeout::Timeout;

fn token(b: u8) -> Token {
    Token { bytes: [b; 32] }
}

fn session(t: u8, d: u8, timeout_secs: u64) -> Session {
    Session::new(
        Timeout::from_secs(timeout_secs).unwrap(),
        UniqueId { bytes: [t; 10] },
        token(t),
        token(d),
        DateTime { secs: 0, nanos: 0 },
    )
}

fn at(secs: u64) -> c_systemtime {
    c_systemtime { secs, nanos: 0 }
}

#[test]
fn store_lookup_by_both_tokens() {
    let mut store = Sessions::new();
    store.insert(session(1, 2, 1000));
    store.insert(session(3, 4, 1000));

    let now = at(10);
    let s = store.find(&token(1), &now).expect("stored session answers");
    assert_eq!(s.user_id.bytes, [1u8; 10]);
    let s = store.find_by_data(&token(4), &now).expect("data token answers");
    assert_eq!(s.user_id.bytes, [3u8; 10]);
    assert!(store.find(&token(9), &now).is_none());
    assert!(store.find_by_data(&token(1), &now).is_none());
}

#[test]
fn timed_out_sessions_do_not_answer() {
    let mut store = Sessions::new();
    store.insert(session(1, 2, 100));

    assert!(store.find(&token(1), &at(50)).is_some());
    assert!(store.find(&token(1), &at(100)).is_some());
    assert!(store.find(&token(1), &at(101)).is_none());
    assert!(store.find_by_data(&token(2), &at(101)).is_none());
}

#[test]
fn insert_replaces_same_token() {
    let mut store = Sessions::new();
    store.insert(session(1, 2, 100));
    store.insert(session(1, 3, 200));

    let now = at(10);
    let s = store.find(&token(1), &now).expect("token still answers");
    assert_eq!(s.data_token.bytes, [3u8; 32]);
    // the replaced session's data token no longer answers
    assert!(store.find_by_data(&token(2), &now).is_none());
    assert_eq!(store.sessions.len(), 1);
}

#[test]
fn remove_and_cleanup() {
    let mut store = Sessions::new();
    store.insert(session(1, 2, 100));
    store.insert(session(3, 4, 1000));
    store.insert(session(5, 6, 50));

    store.remove(&token(3));
    assert!(store.find(&token(3), &at(1)).is_none());
    assert_eq!(store.sessions.len(), 2);

    // cleanup at t=200 drops both remaining timed-out sessions
    store.cleanup(&at(200));
    assert_eq!(store.sessions.len(), 0);
}

#[test]
fn snapshot_answers_like_the_store() {
    let mut store = Sessions::new();
    store.insert(session(1, 2, 1000));
    store.insert(session(3, 4, 60));

    let table = PluginSessions::new(store.to_c());
    let now = at(100);

    let s = table.by_token(&token(1), &now).expect("snapshot answers by token");
    assert_eq!(s.user_id.bytes, [1u8; 10]);
    let s = table.by_data_token(&token(2), &now).expect("snapshot answers by data token");
    assert_eq!(s.token.bytes, [1u8; 32]);

    // the timed-out record does not answer, same as in the store
    assert!(table.by_token(&token(3), &now).is_none());
    assert!(store.find(&token(3), &now).is_none());
}

#[test]
fn session_boundary_round_trip() {
    let s = session(7, 8, 123);
    let c = s.into_c();
    let back = Session::from_c(c);
    assert_eq!(back.token.bytes, s.token.bytes);
    assert_eq!(back.data_token.bytes, s.data_token.bytes);
    assert_eq!(back.timeout, s.timeout);
    assert_eq!(back.created_on, s.created_on);
    assert_eq!(back.user_id.bytes, s.user_id.bytes);
}

#[test]
fn token_conversions() {
    let t = token(9);
    let c = c_token::from_token(t);
    assert_eq!(c.bytes, [9u8; 32]);
    assert_eq!(c.into_token().bytes, [9u8; 32]);
    assert!(t.matches(&token(9)));
    assert!(!t.matches(&token(8)));
}

#[test]
fn timeout_against_the_clock() {
    // a timeout an hour ahead has not elapsed; one at the epoch has
    let fresh = Timeout::new(3600);
    assert!(!fresh.has_elapsed());
    let past = Timeout::from_secs(0).unwrap();
    assert!(past.has_elapsed());
    assert!(session(1, 2, 0).did_timeout());
}

#[test]
fn timeout_values() {
    let t = Timeout::from_secs(42).unwrap();
    assert_eq!(t.as_secs(), 42);
    assert!(!t.has_elapsed_at(&at(42)));
    assert!(t.has_elapsed_at(&at(43)));
    let c = t.into_c();
    assert_eq!(c.secs, 42);
    assert_eq!(Timeout::from_c(c), t);
}
