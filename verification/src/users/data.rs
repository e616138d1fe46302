//! Users, rights and sessions as plain values.

use vstd::prelude::*;

use crate::ffi;
use crate::users::timeout::Timeout;

verus! {

/// An opaque 32-byte session token. Fresh tokens are drawn by the surrounding
/// process; the library only stores and compares them.
#[derive(Debug, Clone, Copy)]
pub struct Token {
    pub bytes: [u8; 32],
}

impl Token {
    /// Byte-for-byte equality of two tokens.
    pub fn matches(&self, other: &Token) -> (r: bool)
        ensures
            r == (self.bytes@ == other.bytes@),
    {
        let mut i: usize = 0;
        while i < 32
            invariant
                i <= 32,
                forall|j: int| 0 <= j < i ==> self.bytes@[j] == other.bytes@[j],
            decreases 32 - i,
        {
            if self.bytes[i] != other.bytes[i] {
                assert(self.bytes@ != other.bytes@);
                return false;
            }
            i += 1;
        }
        assert(self.bytes@ =~= other.bytes@);
        true
    }
}

/// A 10-byte record id, the form in which the database layer's ids travel
/// through this subsystem.
#[derive(Debug, Clone, Copy)]
pub struct UniqueId {
    pub bytes: [u8; 10],
}

impl UniqueId {
    pub fn matches(&self, other: &UniqueId) -> (r: bool)
        ensures
            r == (self.bytes@ == other.bytes@),
    {
        let mut i: usize = 0;
        while i < 10
            invariant
                i <= 10,
                forall|j: int| 0 <= j < i ==> self.bytes@[j] == other.bytes@[j],
            decreases 10 - i,
        {
            if self.bytes[i] != other.bytes[i] {
                assert(self.bytes@ != other.bytes@);
                return false;
            }
            i += 1;
        }
        assert(self.bytes@ =~= other.bytes@);
        true
    }
}

/// A calendar timestamp: signed seconds since the Unix epoch plus subsecond
/// nanoseconds.
#[derive(Debug, Clone, Copy, PartialEq, Eq, Structural)]
pub struct DateTime {
    pub secs: i64,
    pub nanos: u32,
}

#[derive(Debug, Clone, Copy, PartialEq, Eq, Structural)]
pub struct Rights {
    pub root: bool,
}

#[derive(Debug, Clone)]
pub struct User {
    pub id: UniqueId,
    pub username: String,
    pub name: String,
    pub rights: Rights,
}

#[derive(Debug, Clone, Copy)]
pub struct Session {
    pub token: Token,
    pub data_token: Token,
    pub timeout: Timeout,
    pub created_on: DateTime,
    pub user_id: UniqueId,
}

impl Session {
    /// Builds a session record. The two tokens are drawn fresh by the caller;
    /// the library never generates randomness itself.
    pub fn new(
        timeout: Timeout,
        user_id: UniqueId,
        token: Token,
        data_token: Token,
        created_on: DateTime,
    ) -> (r: Self)
        ensures
            r.timeout == timeout,
            r.user_id == user_id,
            r.token == token,
            r.data_token == data_token,
            r.created_on == created_on,
    {
        Self { token, data_token, timeout, created_on, user_id }
    }

    /// Whether the session had already timed out at the given instant.
    pub fn did_timeout_at(&self, now: &ffi::c_systemtime) -> (r: bool)
        ensures
            r == now.spec_is_after(self.timeout.inner),
    {
        self.timeout.has_elapsed_at(now)
    }

    /// Whether the session has timed out, read against the current clock.
    pub fn did_timeout(&self) -> bool {
        self.timeout.has_elapsed()
    }

    pub fn from_c(inner: ffi::c_session) -> (r: Self)
        ensures
            r.token.bytes@ == inner.token.bytes@,
            r.data_token.bytes@ == inner.data_token.bytes@,
            r.timeout.inner == inner.timeout,
            r.created_on.secs == inner.created_on.secs,
            r.created_on.nanos == inner.created_on.nanos,
            r.user_id.bytes@ == inner.user_id.bytes@,
    {
        Self {
            token: inner.token.into_token(),
            data_token: inner.data_token.into_token(),
            timeout: Timeout::from_c(inner.timeout),
            created_on: inner.created_on.to_datetime(),
            user_id: inner.user_id.to_uid(),
        }
    }

    pub fn into_c(self) -> (r: ffi::c_session)
        ensures
            r.token.bytes@ == self.token.bytes@,
            r.data_token.bytes@ == self.data_token.bytes@,
            r.timeout == self.timeout.inner,
            r.created_on.secs == self.created_on.secs,
            r.created_on.nanos == self.created_on.nanos,
            r.user_id.bytes@ == self.user_id.bytes@,
    {
        ffi::c_session {
            token: ffi::c_token::from_token(self.token),
            data_token: ffi::c_token::from_token(self.data_token),
            timeout: self.timeout.into_c(),
            created_on: ffi::c_datetime::from_datetime(self.created_on),
            user_id: ffi::c_uid::from_uid(self.user_id),
        }
    }
}

/// Conversion to boundary form and back preserves every field of a session.
pub proof fn lemma_session_boundary_round_trip(s: Session, c: ffi::c_session, s2: Session)
    requires
        c.token.bytes@ == s.token.bytes@,
        c.data_token.bytes@ == s.data_token.bytes@,
        c.timeout == s.timeout.inner,
        c.created_on.secs == s.created_on.secs,
        c.created_on.nanos == s.created_on.nanos,
        c.user_id.bytes@ == s.user_id.bytes@,
        s2.token.bytes@ == c.token.bytes@,
        s2.data_token.bytes@ == c.data_token.bytes@,
        s2.timeout.inner == c.timeout,
        s2.created_on.secs == c.created_on.secs,
        s2.created_on.nanos == c.created_on.nanos,
        s2.user_id.bytes@ == c.user_id.bytes@,
    ensures
        s2.token.bytes@ == s.token.bytes@,
        s2.data_token.bytes@ == s.data_token.bytes@,
        s2.timeout == s.timeout,
        s2.created_on == s.created_on,
        s2.user_id.bytes@ == s.user_id.bytes@,
{
}

} // verus!
