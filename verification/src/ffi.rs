//! The stable data contract that crosses the plugin boundary.
//!
//! In a running host these records are plain-old-data: pointer/length views,
//! owned buffers with an explicit release function, and context/function-pointer
//! tables. Here each record is an ownership-tagged value — a borrowed view
//! stays a borrow, an owned buffer is released by consuming it, and a callback
//! table carries the handle it would close over — so the contract of every
//! operation can be stated and checked.
//!
//! Terminology: the host is the client, and a plugin (an app) is the server.
//! The names are in the perspective of the server.

#![allow(non_camel_case_types)]

use vstd::prelude::*;

use crate::host::Host;
use crate::progress_channel::Sender;
use crate::users::data::{DateTime, Token, UniqueId};
use crate::util::mpsc_send;
use vstd::slice::slice_to_vec;

verus! {

/// A borrowed string view; the receiver must not retain it beyond the call.
#[derive(Debug, Clone, Copy)]
pub struct c_str<'a> {
    pub value: &'a str,
}

impl<'a> c_str<'a> {
    pub fn to_str(&self) -> (r: &'a str)
        ensures
            r@ == self.value@,
    {
        self.value
    }

    pub fn from_str(s: &'a str) -> (r: Self)
        ensures
            r.value@ == s@,
    {
        Self { value: s }
    }

    pub fn from_static_str(s: &'static str) -> (r: c_str<'static>)
        ensures
            r.value@ == s@,
    {
        c_str { value: s }
    }
}

/// An owned string crossing the boundary: receiving one transfers the
/// allocation, and the receiver releases it exactly once by consuming it
/// (`into_string` or `free`).
#[derive(Debug)]
pub struct c_string {
    pub value: String,
}

impl c_string {
    pub fn empty() -> (r: Self)
        ensures
            r.value@ == Seq::<char>::empty(),
    {
        Self::from_string(String::new())
    }

    pub fn from_string(s: String) -> (r: Self)
        ensures
            r.value == s,
    {
        Self { value: s }
    }

    pub fn into_string(self) -> (r: String)
        ensures
            r == self.value,
    {
        self.value
    }

    /// Releases the buffer without reading it.
    pub fn free(self) {
    }
}

/// A borrowed byte view; never retained beyond the call.
#[derive(Debug, Clone, Copy)]
pub struct c_slice<'a, T> {
    pub value: &'a [T],
}

impl<'a, T> c_slice<'a, T> {
    pub fn to_slice(&self) -> (r: &'a [T])
        ensures
            r@ == self.value@,
    {
        self.value
    }

    pub fn from_slice(s: &'a [T]) -> (r: Self)
        ensures
            r.value@ == s@,
    {
        Self { value: s }
    }

    /// The zero-length view, used as the half-close sentinel.
    pub fn empty() -> (r: c_slice<'static, T>)
        ensures
            r.value@ == Seq::<T>::empty(),
    {
        c_slice { value: &[] }
    }
}

#[derive(Debug, Clone, Copy, PartialEq, Eq, Structural)]
pub struct c_core_version {
    pub major: u16,
    pub minor: u16,
}

pub const C_ERROR_OK: u16 = 0;

pub const C_ERROR_BROKEN: u16 = 10;

pub const C_ERROR_CLOSED: u16 = 12;

pub const C_ERROR_REFUSED: u16 = 14;

pub const C_ERROR_TOO_MANY_REQUESTS: u16 = 16;

pub const C_ERROR_OTHER: u16 = 65535;

/// An error value: a numeric code (zero means success) plus an owned message.
#[derive(Debug)]
pub struct c_error {
    pub code: u16,
    pub string: c_string,
}

impl c_error {
    pub fn ok() -> (r: Self)
        ensures
            r.code == C_ERROR_OK,
            r.string.value@ == Seq::<char>::empty(),
    {
        Self { code: C_ERROR_OK, string: c_string::empty() }
    }

    pub fn is_ok(&self) -> (r: bool)
        ensures
            r == (self.code == C_ERROR_OK),
    {
        self.code == C_ERROR_OK
    }

    pub fn new(code: u16, string: String) -> (r: Self)
        ensures
            r.code == code,
            r.string.value == string,
    {
        Self { code, string: c_string::from_string(string) }
    }

    pub fn free(self) {
        self.string.free()
    }
}

/// A session token as it crosses the boundary: the raw bytes.
#[derive(Debug, Clone, Copy)]
pub struct c_token {
    pub bytes: [u8; 32],
}

impl c_token {
    pub fn from_token(t: Token) -> (r: Self)
        ensures
            r.bytes@ == t.bytes@,
    {
        Self { bytes: t.bytes }
    }

    pub fn into_token(self) -> (r: Token)
        ensures
            r.bytes@ == self.bytes@,
    {
        Token { bytes: self.bytes }
    }
}

/// A point in time as seconds and subsecond nanoseconds since the Unix epoch.
#[derive(Debug, Clone, Copy, PartialEq, Eq, Structural)]
pub struct c_systemtime {
    pub secs: u64,
    pub nanos: u32,
}

impl c_systemtime {
    pub fn from_systemtime(time: c_systemtime) -> (r: Self)
        ensures
            r == time,
    {
        time
    }

    pub fn to_systemtime(&self) -> (r: c_systemtime)
        ensures
            r == *self,
    {
        *self
    }

    /// Strictly-later comparison of two points in time.
    pub fn is_after(&self, other: &c_systemtime) -> (r: bool)
        ensures
            r == self.spec_is_after(*other),
    {
        self.secs > other.secs || (self.secs == other.secs && self.nanos > other.nanos)
    }

    pub open spec fn spec_is_after(&self, other: c_systemtime) -> bool {
        self.secs > other.secs || (self.secs == other.secs && self.nanos > other.nanos)
    }
}

/// A calendar timestamp: signed seconds and subsecond nanoseconds.
#[derive(Debug, Clone, Copy, PartialEq, Eq, Structural)]
pub struct c_datetime {
    pub secs: i64,
    pub nanos: u32,
}

impl c_datetime {
    pub fn from_datetime(datetime: DateTime) -> (r: Self)
        ensures
            r.secs == datetime.secs,
            r.nanos == datetime.nanos,
    {
        Self { secs: datetime.secs, nanos: datetime.nanos }
    }

    pub fn to_datetime(&self) -> (r: DateTime)
        ensures
            r.secs == self.secs,
            r.nanos == self.nanos,
    {
        DateTime { secs: self.secs, nanos: self.nanos }
    }
}

/// A user id as it crosses the boundary: the raw bytes.
#[derive(Debug, Clone, Copy)]
pub struct c_uid {
    pub bytes: [u8; 10],
}

impl c_uid {
    pub fn from_uid(uid: UniqueId) -> (r: Self)
        ensures
            r.bytes@ == uid.bytes@,
    {
        Self { bytes: uid.bytes }
    }

    pub fn to_uid(&self) -> (r: UniqueId)
        ensures
            r.bytes@ == self.bytes@,
    {
        UniqueId { bytes: self.bytes }
    }
}

/// One session record in boundary form.
#[derive(Debug, Clone, Copy)]
pub struct c_session {
    pub token: c_token,
    pub data_token: c_token,
    pub timeout: c_systemtime,
    pub created_on: c_datetime,
    pub user_id: c_uid,
}

/// The write sink of one direction of a virtual connection. The caller hands
/// bytes in; a zero-length write is the half-close sentinel.
#[derive(Debug, Clone, Copy)]
pub struct c_writer {
    pub pipe: usize,
}

impl c_writer {
    pub open spec fn wf(&self, host: Host) -> bool {
        host.has_pipe(self.pipe)
    }

    /// Forwards one chunk into the pipe behind the sink. A zero-length write
    /// closes the pipe (half-close); after that, further writes are rejected
    /// as `Closed`. A full pipe reports `TooManyRequests` without blocking.
    pub fn write(&self, host: &mut Host, bytes: c_slice<u8>) -> (r: c_error)
        requires
            self.wf(*old(host)),
            old(host).inv(),
        ensures
            final(host).inv(),
            final(host).pipes@.len() == old(host).pipes@.len(),
            forall|i: int|
                0 <= i < old(host).pipes@.len() && i != self.pipe ==> final(host).pipes@[i]
                    == old(host).pipes@[i],
            final(host).stream_queues == old(host).stream_queues,
            final(host).signals == old(host).signals,
            final(host).pipe(self.pipe).capacity == old(host).pipe(self.pipe).capacity,
            bytes.value@.len() == 0 ==> r.code == C_ERROR_OK && final(host).pipe(self.pipe).closed
                && final(host).pipe(self.pipe).content() == old(host).pipe(self.pipe).content(),
            bytes.value@.len() > 0 && old(host).pipe(self.pipe).closed ==> r.code == C_ERROR_CLOSED
                && final(host).pipe(self.pipe).content() == old(host).pipe(self.pipe).content()
                && final(host).pipe(self.pipe).closed,
            bytes.value@.len() > 0 && !old(host).pipe(self.pipe).closed && old(host).pipe(
                self.pipe,
            ).content().len() >= old(host).pipe(self.pipe).capacity ==> r.code
                == C_ERROR_TOO_MANY_REQUESTS && final(host).pipe(self.pipe).content() == old(host).pipe(self.pipe).content() && !final(host).pipe(self.pipe).closed,
            bytes.value@.len() > 0 && !old(host).pipe(self.pipe).closed && old(host).pipe(
                self.pipe,
            ).content().len() < old(host).pipe(self.pipe).capacity ==> r.code == C_ERROR_OK
                && !final(host).pipe(self.pipe).closed && final(host).pipe(self.pipe).content()
                == old(host).pipe(self.pipe).content().push(bytes.value@),
            r.code == C_ERROR_OK <==> (bytes.value@.len() == 0 || (!old(host).pipe(
                self.pipe,
            ).closed && old(host).pipe(self.pipe).content().len() < old(host).pipe(
                self.pipe,
            ).capacity)),
    {
        let ghost old_pipe = old(host).pipe(self.pipe);
        let p = &mut host.pipes[self.pipe];
        let r = if bytes.value.len() == 0 {
            p.closed = true;
            c_error::ok()
        } else if p.closed {
            c_error::new(C_ERROR_CLOSED, String::new())
        } else {
            let chunk = slice_to_vec(bytes.value);
            let cap = p.capacity;
            match mpsc_send(&mut p.chunks, cap, false, chunk) {
                Ok(()) => c_error::ok(),
                Err(e) => e.into_c(),
            }
        };
        proof {
            assert(host.pipes@ =~= old(host).pipes@.update(
                self.pipe as int,
                host.pipes@[self.pipe as int],
            ));
            let np = host.pipe(self.pipe);
            if bytes.value@.len() == 0 {
                assert(np.content() =~= old_pipe.content());
            } else if !old_pipe.closed && old_pipe.content().len() < old_pipe.capacity {
                assert(np.content() =~= old_pipe.content().push(bytes.value@));
            } else {
                assert(np.chunks@ == old_pipe.chunks@);
                assert(np.content() =~= old_pipe.content());
            }
            assert(host.pipes_wf());
            crate::host::lemma_queues_wf_monotone(*old(host), *host);
        }
        r
    }

    /// Releases the sink without writing.
    pub fn free(self) {
    }
}

/// The connection acceptor a plugin exposes across the boundary: each call
/// synthesizes one new virtual connection. The handle points at the queue of
/// freshly opened streams behind the plugin's listener; the dialing side is
/// implemented with the transport in [`crate::stream`].
#[derive(Debug, Clone, Copy)]
pub struct c_listener {
    pub queue: usize,
}

impl c_listener {
    pub open spec fn wf(&self, host: Host) -> bool {
        host.has_queue(self.queue)
    }

    /// Releases the acceptor once no further connections will be dialed.
    pub fn free(self) {
    }
}

/// A one-shot shutdown-request callback (host asking a plugin to terminate).
/// Calling it consumes it, so it runs at most once; it advances the signal it
/// closes over to at least `value`.
#[derive(Debug, Clone, Copy)]
pub struct c_terminator {
    pub signal: Option<Sender>,
    pub value: usize,
}

impl c_terminator {
    pub open spec fn wf(&self, host: Host) -> bool {
        match self.signal {
            Some(s) => s.wf(host),
            None => true,
        }
    }

    /// Invokes the callback: the signal behind it advances to at least
    /// `value`. The default (detached) callback does nothing.
    pub fn terminate(self, host: &mut Host)
        requires
            self.wf(*old(host)),
        ensures
            final(host).pipes == old(host).pipes,
            final(host).stream_queues == old(host).stream_queues,
            old(host).inv() ==> final(host).inv(),
            match self.signal {
                Some(s) => final(host).signals@ == old(host).signals@.update(
                    s.id as int,
                    if self.value > old(host).signal_val(s.id) {
                        self.value
                    } else {
                        old(host).signal_val(s.id)
                    },
                ),
                None => final(host).signals == old(host).signals,
            },
    {
        match self.signal {
            Some(s) => {
                s.send(host, self.value);
            },
            None => {},
        }
    }
}

impl Default for c_terminator {
    /// The detached callback: calling it does nothing.
    fn default() -> (r: Self)
        ensures
            r.signal is None,
            r.value == 0,
    {
        c_terminator { signal: None, value: 0 }
    }
}

/// A one-shot shutdown-confirmation callback (plugin telling the host its
/// runtime has fully stopped). Calling it consumes it; it advances the signal
/// it closes over to at least `value`.
#[derive(Debug, Clone, Copy)]
pub struct c_terminated {
    pub signal: Option<Sender>,
    pub value: usize,
}

impl c_terminated {
    pub open spec fn wf(&self, host: Host) -> bool {
        match self.signal {
            Some(s) => s.wf(host),
            None => true,
        }
    }

    /// Takes the callback out, leaving the detached default behind.
    pub fn take(&mut self) -> (r: Self)
        ensures
            r.signal == old(self).signal,
            r.value == old(self).value,
            final(self).signal is None,
            final(self).value == 0,
    {
        let signal = self.signal.take();
        let value = self.value;
        self.value = 0;
        c_terminated { signal, value }
    }

    /// Invokes the callback: the signal behind it advances to at least
    /// `value`. The default (detached) callback does nothing.
    pub fn terminated(self, host: &mut Host)
        requires
            self.wf(*old(host)),
        ensures
            final(host).pipes == old(host).pipes,
            final(host).stream_queues == old(host).stream_queues,
            old(host).inv() ==> final(host).inv(),
            match self.signal {
                Some(s) => final(host).signals@ == old(host).signals@.update(
                    s.id as int,
                    if self.value > old(host).signal_val(s.id) {
                        self.value
                    } else {
                        old(host).signal_val(s.id)
                    },
                ),
                None => final(host).signals == old(host).signals,
            },
    {
        match self.signal {
            Some(s) => {
                s.send(host, self.value);
            },
            None => {},
        }
    }
}

impl Default for c_terminated {
    /// The detached callback: calling it does nothing.
    fn default() -> (r: Self)
        ensures
            r.signal is None,
            r.value == 0,
    {
        c_terminated { signal: None, value: 0 }
    }
}

/// Whether a stored session answers a lookup for `token` at time `now`:
/// the token matches and the session has not timed out.
pub open spec fn session_live_at(s: c_session, token: Seq<u8>, now: c_systemtime) -> bool {
    s.token.bytes@ == token && !now.spec_is_after(s.timeout)
}

/// The same for lookups by data token.
pub open spec fn session_live_by_data_at(s: c_session, token: Seq<u8>, now: c_systemtime) -> bool {
    s.data_token.bytes@ == token && !now.spec_is_after(s.timeout)
}

/// The session-lookup table the host hands a plugin: a snapshot of the live
/// sessions, consulted by token without crossing back into the host.
#[derive(Debug)]
pub struct c_sessions {
    pub sessions: Vec<c_session>,
}

impl c_sessions {
    /// Looks a session up by its token; a timed-out session does not answer.
    pub fn by_token(&self, token: c_token, now: &c_systemtime) -> (r: Option<c_session>)
        ensures
            r matches Some(s) ==> exists|i: int|
                0 <= i < self.sessions@.len() && self.sessions@[i] == s && session_live_at(
                    s,
                    token.bytes@,
                    *now,
                ),
            r is None ==> forall|i: int|
                0 <= i < self.sessions@.len() ==> !session_live_at(
                    #[trigger] self.sessions@[i],
                    token.bytes@,
                    *now,
                ),
    {
        let mut i: usize = 0;
        while i < self.sessions.len()
            invariant
                i <= self.sessions@.len(),
                forall|j: int|
                    0 <= j < i ==> !session_live_at(
                        #[trigger] self.sessions@[j],
                        token.bytes@,
                        *now,
                    ),
            decreases self.sessions@.len() - i,
        {
            let s = self.sessions[i];
            if s.token.into_token().matches(&token.into_token()) && !now.is_after(&s.timeout) {
                return Some(s);
            }
            i += 1;
        }
        None
    }

    /// Looks a session up by its data token; a timed-out session does not answer.
    pub fn by_data_token(&self, token: c_token, now: &c_systemtime) -> (r: Option<c_session>)
        ensures
            r matches Some(s) ==> exists|i: int|
                0 <= i < self.sessions@.len() && self.sessions@[i] == s && session_live_by_data_at(
                    s,
                    token.bytes@,
                    *now,
                ),
            r is None ==> forall|i: int|
                0 <= i < self.sessions@.len() ==> !session_live_by_data_at(
                    #[trigger] self.sessions@[i],
                    token.bytes@,
                    *now,
                ),
    {
        let mut i: usize = 0;
        while i < self.sessions.len()
            invariant
                i <= self.sessions@.len(),
                forall|j: int|
                    0 <= j < i ==> !session_live_by_data_at(
                        #[trigger] self.sessions@[j],
                        token.bytes@,
                        *now,
                    ),
            decreases self.sessions@.len() - i,
        {
            let s = self.sessions[i];
            if s.data_token.into_token().matches(&token.into_token()) && !now.is_after(&s.timeout) {
                return Some(s);
            }
            i += 1;
        }
        None
    }

    /// Takes the table out, leaving the empty default behind.
    pub fn take(&mut self) -> (r: Self)
        ensures
            r.sessions@ == old(self).sessions@,
            final(self).sessions@ == Seq::<c_session>::empty(),
    {
        let mut sessions: Vec<c_session> = Vec::new();
        core::mem::swap(&mut sessions, &mut self.sessions);
        c_sessions { sessions }
    }

    /// Releases the table.
    pub fn free(self) {
    }
}

impl Default for c_sessions {
    /// The empty table: no token answers.
    fn default() -> (r: Self)
        ensures
            r.sessions@ == Seq::<c_session>::empty(),
    {
        c_sessions { sessions: Vec::new() }
    }
}

/// What the host hands a plugin in the init call: the raw config text, the
/// protocol version, a session-lookup table and the shutdown-confirmation
/// callback. Not retained beyond the init call.
pub struct c_core<'a> {
    pub config: c_str<'a>,
    pub version: c_core_version,
    pub sessions: c_sessions,
    pub terminated: c_terminated,
}

/// What a plugin fills in during the init call: its static name, its optional
/// asset entry names, the shutdown-request callback and the connection
/// acceptor. Every field must be set before init returns.
pub struct c_app {
    pub name: c_str<'static>,
    pub js_entry: c_str<'static>,
    pub css_entry: c_str<'static>,
    pub terminator: c_terminator,
    pub listener: c_listener,
}

} // verus!
