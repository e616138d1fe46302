//! A session timeout: an absolute point in time after which a session is dead.

use vstd::prelude::*;

use crate::ffi::c_systemtime;

verus! {

pub const NANOS_PER_SEC: u32 = 1000000000;

#[derive(Debug, Clone, Copy, PartialEq, Eq, Structural)]
pub struct Timeout {
    pub inner: c_systemtime,
}

impl Timeout {
    /// A timeout the given number of seconds from now. Saturates at the end of
    /// the representable range instead of overflowing.
    pub fn new(dur_secs: u64) -> (r: Self)
        ensures
            r.inner.nanos < NANOS_PER_SEC,
    {
        let now = now_systemtime();
        let secs = match now.secs.checked_add(dur_secs) {
            Some(s) => s,
            None => u64::MAX,
        };
        Self { inner: c_systemtime { secs, nanos: now.nanos } }
    }

    /// Whether the timeout lies strictly before the given instant.
    pub fn has_elapsed_at(&self, now: &c_systemtime) -> (r: bool)
        ensures
            r == now.spec_is_after(self.inner),
    {
        now.is_after(&self.inner)
    }

    /// Whether the timeout has elapsed, read against the current clock.
    pub fn has_elapsed(&self) -> bool {
        let now = now_systemtime();
        self.has_elapsed_at(&now)
    }

    /// The time from the Unix epoch, in whole seconds.
    pub fn as_secs(&self) -> (r: u64)
        ensures
            r == self.inner.secs,
    {
        self.inner.secs
    }

    pub fn from_secs(s: u64) -> (r: Option<Self>)
        ensures
            r == Some(Timeout { inner: c_systemtime { secs: s, nanos: 0u32 } }),
    {
        Some(Timeout { inner: c_systemtime { secs: s, nanos: 0 } })
    }

    pub fn from_c(s: c_systemtime) -> (r: Self)
        ensures
            r.inner == s,
    {
        Self { inner: s.to_systemtime() }
    }

    pub fn into_c(self) -> (r: c_systemtime)
        ensures
            r == self.inner,
    {
        c_systemtime::from_systemtime(self.inner)
    }
}

/// Relies on `std::time::SystemTime::now` and `SystemTime::duration_since`:
/// the current time as a duration since the Unix epoch, whose subsecond part
/// is below one second. A clock before the epoch reads as the epoch itself.
#[verifier::external_body]
pub fn now_systemtime() -> (r: c_systemtime)
    ensures
        r.nanos < NANOS_PER_SEC,
{
    match std::time::SystemTime::now().duration_since(std::time::UNIX_EPOCH) {
        Ok(d) => c_systemtime { secs: d.as_secs(), nanos: d.subsec_nanos() },
        Err(_) => c_systemtime { secs: 0, nanos: 0 },
    }
}

} // verus!
