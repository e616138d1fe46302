//! A plugin's view of the host's sessions: lookups against the table the host
//! handed across in the init record.

use vstd::prelude::*;

use crate::ffi;
use crate::users::data::{Session, Token};

verus! {

/// Whether a session record is the boundary form of a session value:
/// field for field the same.
pub open spec fn session_matches_c(s: Session, c: ffi::c_session) -> bool {
    &&& s.token.bytes@ == c.token.bytes@
    &&& s.data_token.bytes@ == c.data_token.bytes@
    &&& s.timeout.inner == c.timeout
    &&& s.created_on.secs == c.created_on.secs
    &&& s.created_on.nanos == c.created_on.nanos
    &&& s.user_id.bytes@ == c.user_id.bytes@
}

/// The session table as a plugin sees it.
pub struct Sessions {
    pub inner: ffi::c_sessions,
}

impl Sessions {
    pub fn new(inner: ffi::c_sessions) -> (r: Self)
        ensures
            r.inner == inner,
    {
        Self { inner }
    }

    /// Looks a session up by its token at the given instant; a timed-out
    /// session does not answer.
    pub fn by_token(&self, token: &Token, now: &ffi::c_systemtime) -> (r: Option<Session>)
        ensures
            r matches Some(s) ==> exists|i: int|
                0 <= i < self.inner.sessions@.len() && session_matches_c(
                    s,
                    #[trigger] self.inner.sessions@[i],
                ) && ffi::session_live_at(self.inner.sessions@[i], token.bytes@, *now),
            r is None ==> forall|i: int|
                0 <= i < self.inner.sessions@.len() ==> !ffi::session_live_at(
                    #[trigger] self.inner.sessions@[i],
                    token.bytes@,
                    *now,
                ),
    {
        match self.inner.by_token(ffi::c_token::from_token(*token), now) {
            Some(c) => Some(Session::from_c(c)),
            None => None,
        }
    }

    /// Looks a session up by its data token at the given instant; a timed-out
    /// session does not answer.
    pub fn by_data_token(&self, token: &Token, now: &ffi::c_systemtime) -> (r: Option<Session>)
        ensures
            r matches Some(s) ==> exists|i: int|
                0 <= i < self.inner.sessions@.len() && session_matches_c(
                    s,
                    #[trigger] self.inner.sessions@[i],
                ) && ffi::session_live_by_data_at(self.inner.sessions@[i], token.bytes@, *now),
            r is None ==> forall|i: int|
                0 <= i < self.inner.sessions@.len() ==> !ffi::session_live_by_data_at(
                    #[trigger] self.inner.sessions@[i],
                    token.bytes@,
                    *now,
                ),
    {
        match self.inner.by_data_token(ffi::c_token::from_token(*token), now) {
            Some(c) => Some(Session::from_c(c)),
            None => None,
        }
    }
}

} // verus!
