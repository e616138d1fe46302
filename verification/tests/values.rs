use plugin_host::ffi::{
    c_error, c_sessions, c_slice, c_str, c_string, c_systemtime, c_terminated, c_terminator,
    C_ERROR_BROKEN, C_ERROR_CLOSED, C_ERROR_OK, C_ERROR_OTHER, C_ERROR_REFUSED,
    C_ERROR_TOO_MANY_REQUESTS,
};
use plugin_host::host::Host;
use plugin_host::users::checked_user::{RightsAny, RightsCheck, RightsRoot};
use plugin_host::users::data::Rights;
use plugin_host::util::{mpsc_send, str_eq, str_starts_with};
use plugin_host::{Error, ErrorKind};

#[test]
fn error_codes_round_trip() {
    let kinds = [
        ErrorKind::Broken,
        ErrorKind::Closed,
        ErrorKind::Refused,
        ErrorKind::TooManyRequests,
        ErrorKind::Other,
    ];
    for kind in kinds {
        assert_eq!(ErrorKind::from_code(kind.to_code()), kind);
    }
    assert_eq!(ErrorKind::Broken.to_code(), C_ERROR_BROKEN);
    assert_eq!(ErrorKind::Closed.to_code(), C_ERROR_CLOSED);
    assert_eq!(ErrorKind::Refused.to_code(), C_ERROR_REFUSED);
    assert_eq!(ErrorKind::TooManyRequests.to_code(), C_ERROR_TOO_MANY_REQUESTS);
    assert_eq!(ErrorKind::Other.to_code(), C_ERROR_OTHER);
    // an unknown non-zero code collapses to Other
    assert_eq!(ErrorKind::from_code(999), ErrorKind::Other);
}

#[test]
fn error_crosses_the_boundary() {
    let e = Error::new(ErrorKind::Refused, "queue closed");
    let c = e.into_c();
    assert_eq!(c.code, C_ERROR_REFUSED);
    assert!(!c.is_ok());
    let back = Error::from_c(c);
    assert_eq!(back.kind, ErrorKind::Refused);
    assert_eq!(back.msg, "queue closed");
}

#[test]
fn c_error_values() {
    let ok = c_error::ok();
    assert_eq!(ok.code, C_ERROR_OK);
    assert!(ok.is_ok());
    ok.free();
    let e = c_error::new(C_ERROR_CLOSED, "gone".to_string());
    assert_eq!(e.code, C_ERROR_CLOSED);
    assert_eq!(e.string.into_string(), "gone");
}

#[test]
fn string_and_slice_views() {
    let s = c_str::from_str("abc");
    assert_eq!(s.to_str(), "abc");
    let s = c_str::from_static_str("def");
    assert_eq!(s.to_str(), "def");

    let owned = c_string::from_string("ghi".to_string());
    assert_eq!(owned.into_string(), "ghi");
    assert_eq!(c_string::empty().into_string(), "");

    let bytes = [1u8, 2, 3];
    let v = c_slice::from_slice(&bytes);
    assert_eq!(v.to_slice(), &[1u8, 2, 3]);
    let e: c_slice<u8> = c_slice::empty();
    assert_eq!(e.to_slice().len(), 0);
}

#[test]
fn one_shot_callbacks_detach() {
    let mut host = Host::new();

    // the default callbacks are detached: calling them changes nothing
    let t = c_terminator::default();
    assert!(t.signal.is_none());
    t.terminate(&mut host);
    let t = c_terminated::default();
    assert!(t.signal.is_none());
    t.terminated(&mut host);

    // take moves the callback out and leaves the detached default
    let mut t = c_terminated { signal: None, value: 7 };
    let taken = t.take();
    assert_eq!(taken.value, 7);
    assert_eq!(t.value, 0);
    assert!(t.signal.is_none());
}

#[test]
fn session_table_take_leaves_empty() {
    let mut table = c_sessions::default();
    assert_eq!(table.sessions.len(), 0);
    let now = c_systemtime { secs: 0, nanos: 0 };
    let token = plugin_host::ffi::c_token { bytes: [0u8; 32] };
    assert!(table.by_token(token, &now).is_none());
    assert!(table.by_data_token(token, &now).is_none());
    let taken = table.take();
    assert_eq!(taken.sessions.len(), 0);
}

#[test]
fn mpsc_send_policy() {
    let mut q: Vec<u32> = Vec::new();

    assert!(mpsc_send(&mut q, 2, false, 1).is_ok());
    assert!(mpsc_send(&mut q, 2, false, 2).is_ok());
    let e = mpsc_send(&mut q, 2, false, 3).unwrap_err();
    assert_eq!(e.kind, ErrorKind::TooManyRequests);
    assert_eq!(q, vec![1, 2]);

    let e = mpsc_send(&mut q, 8, true, 4).unwrap_err();
    assert_eq!(e.kind, ErrorKind::Refused);
    assert_eq!(q, vec![1, 2]);
}

#[test]
fn rights_checks() {
    let user = Rights { root: false };
    let root = Rights { root: true };
    assert!(RightsAny::check(&user));
    assert!(RightsAny::check(&root));
    assert!(!RightsRoot::check(&user));
    assert!(RightsRoot::check(&root));
}

#[test]
fn string_helpers() {
    assert!(str_eq("demo", "demo"));
    assert!(!str_eq("demo", "demos"));
    assert!(!str_eq("demo", "demq"));
    assert!(str_starts_with("/api/demo", "/api/"));
    assert!(!str_starts_with("/api", "/api/"));
    assert!(!str_starts_with("/assets/demo", "/api/"));
}

#[test]
fn time_comparison() {
    let a = c_systemtime { secs: 5, nanos: 10 };
    let b = c_systemtime { secs: 5, nanos: 11 };
    let c = c_systemtime { secs: 6, nanos: 0 };
    assert!(b.is_after(&a));
    assert!(c.is_after(&b));
    assert!(!a.is_after(&a));
    assert_eq!(c_systemtime::from_systemtime(a), a);
    assert_eq!(a.to_systemtime(), a);
}
