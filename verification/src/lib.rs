//! An in-process plugin host: the transport and lifecycle subsystem that lets
//! a long-running server load independently built plugin libraries, talk to
//! each plugin's embedded HTTP server over a virtual duplex byte stream, and
//! coordinate shutdown through a monotone progress signal.
//!
//! Shared state that in a running host would live behind atomics, channels and
//! locks is modelled here by a single owned [`host::Host`] store; the handle
//! types (pipes, stream queues, progress signals) carry indices into it, and
//! every operation takes the store explicitly. This keeps all of the
//! subsystem's logic verifiable while the surrounding process supplies the
//! threads and the I/O.

pub mod apps;
pub mod client;
pub mod config;
pub mod ffi;
pub mod host;
pub mod progress_channel;
pub mod server;
pub mod stream;
pub mod users;
pub mod util;

use vstd::prelude::*;

use crate::host::Host;
use crate::progress_channel as prog;

verus! {

/// A transport error as it surfaces to the host or a plugin.
#[derive(Debug, Clone, PartialEq, Eq, Hash, Structural)]
pub enum ErrorKind {
    Broken,
    Closed,
    Refused,
    TooManyRequests,
    Other,
}

impl ErrorKind {
    /// Maps a non-zero wire code to an error kind; unknown codes collapse to `Other`.
    pub fn from_code(code: u16) -> (r: Self)
        requires
            code != ffi::C_ERROR_OK,
        ensures
            r == ErrorKind::spec_from_code(code),
    {
        if code == ffi::C_ERROR_BROKEN {
            Self::Broken
        } else if code == ffi::C_ERROR_CLOSED {
            Self::Closed
        } else if code == ffi::C_ERROR_REFUSED {
            Self::Refused
        } else if code == ffi::C_ERROR_TOO_MANY_REQUESTS {
            Self::TooManyRequests
        } else {
            Self::Other
        }
    }

    pub open spec fn spec_from_code(code: u16) -> ErrorKind {
        if code == ffi::C_ERROR_BROKEN {
            ErrorKind::Broken
        } else if code == ffi::C_ERROR_CLOSED {
            ErrorKind::Closed
        } else if code == ffi::C_ERROR_REFUSED {
            ErrorKind::Refused
        } else if code == ffi::C_ERROR_TOO_MANY_REQUESTS {
            ErrorKind::TooManyRequests
        } else {
            ErrorKind::Other
        }
    }

    pub fn to_code(&self) -> (code: u16)
        ensures
            code == self.spec_to_code(),
    {
        match self {
            Self::Broken => ffi::C_ERROR_BROKEN,
            Self::Closed => ffi::C_ERROR_CLOSED,
            Self::Refused => ffi::C_ERROR_REFUSED,
            Self::TooManyRequests => ffi::C_ERROR_TOO_MANY_REQUESTS,
            Self::Other => ffi::C_ERROR_OTHER,
        }
    }

    pub open spec fn spec_to_code(&self) -> u16 {
        match self {
            ErrorKind::Broken => ffi::C_ERROR_BROKEN,
            ErrorKind::Closed => ffi::C_ERROR_CLOSED,
            ErrorKind::Refused => ffi::C_ERROR_REFUSED,
            ErrorKind::TooManyRequests => ffi::C_ERROR_TOO_MANY_REQUESTS,
            ErrorKind::Other => ffi::C_ERROR_OTHER,
        }
    }
}

/// Round trip: every error kind survives the trip onto the wire and back.
pub proof fn lemma_error_code_round_trip(kind: ErrorKind)
    ensures
        ErrorKind::spec_from_code(kind.spec_to_code()) == kind,
{
}

/// Every non-zero wire code maps to a kind whose own code is either the same
/// code or the `Other` catch-all.
pub proof fn lemma_error_code_classification(code: u16)
    requires
        code != ffi::C_ERROR_OK,
    ensures
        ErrorKind::spec_from_code(code).spec_to_code() == code
            || ErrorKind::spec_from_code(code) == ErrorKind::Other,
{
}

#[derive(Debug, Clone)]
pub struct Error {
    pub kind: ErrorKind,
    pub msg: String,
}

impl Error {
    pub fn new(kind: ErrorKind, msg: &str) -> (r: Self)
        ensures
            r.kind == kind,
            r.msg@ == msg@,
    {
        Self { kind, msg: msg.to_owned() }
    }

    /// Reads an error off the wire. The zero code means success and carries no
    /// error, so it is excluded.
    pub fn from_c(e: ffi::c_error) -> (r: Self)
        requires
            e.code != ffi::C_ERROR_OK,
        ensures
            r.kind == ErrorKind::spec_from_code(e.code),
            r.msg@ == e.string.value@,
    {
        Self { kind: ErrorKind::from_code(e.code), msg: e.string.into_string() }
    }

    pub fn into_c(self) -> (r: ffi::c_error)
        ensures
            r.code == self.kind.spec_to_code(),
            r.string.value@ == self.msg@,
    {
        ffi::c_error { code: self.kind.to_code(), string: ffi::c_string::from_string(self.msg) }
    }
}

/// The protocol version the host hands to a plugin during the init handshake.
#[derive(Debug, Clone, Copy, PartialEq, Eq, Structural)]
pub struct CoreVersion {
    pub major: u16,
    pub minor: u16,
}

/// Everything a plugin receives from the host at init, in owned form: the raw
/// config text, the protocol version, its end of the terminate handshake, the
/// listener its server accepts connections from, and the session table.
pub struct Core {
    pub config: String,
    pub version: CoreVersion,
    pub on_terminate: server::OnTerminate,
    pub listener: stream::Listener,
    pub sessions: users::sessions::Sessions,
}

/// What a plugin's entry does with the init record: build its terminate
/// handshake and its listener, fill in the app record for the host — name,
/// asset entries, terminator, acceptor — and keep the rest as its [`Core`].
/// The returned confirmation callback is invoked by the plugin's surrounding
/// runtime once that runtime has fully stopped, panics included; the entry
/// itself returns synchronously.
pub fn plugin_init(
    host: &mut Host,
    core: ffi::c_core,
    name: &'static str,
    js_entry: &'static str,
    css_entry: &'static str,
) -> (r: (ffi::c_app, Core, server::Terminated))
    requires
        old(host).inv(),
    ensures
        final(host).inv(),
        final(host).signals@ == old(host).signals@.push(0),
        final(host).pipes == old(host).pipes,
        final(host).stream_queues@.len() == old(host).stream_queues@.len() + 1,
        forall|i: int|
            0 <= i < old(host).stream_queues@.len() ==> final(host).stream_queues@[i] == old(host).stream_queues@[i],
        r.0.name.value@ == name@,
        r.0.js_entry.value@ == js_entry@,
        r.0.css_entry.value@ == css_entry@,
        r.0.terminator.signal == Some(prog::Sender { id: old(host).signals@.len() as usize }),
        r.0.terminator.value == 1,
        r.0.listener.queue == old(host).stream_queues@.len(),
        final(host).queue(r.0.listener.queue).streams@ == Seq::<stream::Stream>::empty(),
        !final(host).queue(r.0.listener.queue).closed,
        r.1.config@ == core.config.value@,
        r.1.version == (CoreVersion { major: core.version.major, minor: core.version.minor }),
        r.1.on_terminate.rx.id == old(host).signals@.len(),
        r.1.listener.rx == r.0.listener.queue,
        r.1.sessions.inner.sessions@ == core.sessions.sessions@,
        r.2.inner.signal == core.terminated.signal,
        r.2.inner.value == core.terminated.value,
{
    let mut core = core;
    let terminated = server::Terminated::new(core.terminated.take());
    let (terminator, on_terminate) = client::Terminator::new(host);
    let (listener, c_listener) = stream::Listener::new(host);
    let app = ffi::c_app {
        name: ffi::c_str::from_str(name),
        js_entry: ffi::c_str::from_str(js_entry),
        css_entry: ffi::c_str::from_str(css_entry),
        terminator: terminator.into_c(),
        listener: c_listener.into_c(),
    };
    let config = core.config.to_str().to_owned();
    let version = CoreVersion { major: core.version.major, minor: core.version.minor };
    let sessions = users::sessions::Sessions::new(core.sessions.take());
    (app, Core { config, version, on_terminate, listener, sessions }, terminated)
}

} // verus!
