//! One loaded plugin: the init handshake and the handle the host keeps.
//!
//! The surrounding process copies the plugin's library file to a private
//! temporary path, loads the copy and resolves the entry symbol; that part is
//! I/O and stays outside. The handshake itself — building the init record,
//! reading back the app record, wiring up the lifecycle signal — is here.

use vstd::prelude::*;

use crate::ffi;
use crate::host::Host;
use crate::progress_channel as prog;
use crate::stream::Connector;

verus! {

/// The lifecycle stages carried by a plugin's progress signal.
pub const RUNNING: usize = 0;

/// The host asked the plugin to shut down; it may still be finishing work.
pub const TERMINATING: usize = 1;

/// The plugin's runtime has fully stopped; only now may its library be
/// unloaded, and only after the safety delay for calls still in flight.
pub const TERMINATED: usize = 2;

/// The handle the host keeps for one successfully loaded plugin.
pub struct AppLib {
    pub connector: Connector,
    pub name: &'static str,
    pub js_entry: &'static str,
    pub css_entry: &'static str,
    pub terminated: prog::Receiver,
    pub terminator: Terminator,
}

/// The host's one-shot handle for requesting a plugin's shutdown: it invokes
/// the plugin's terminate callback and advances the lifecycle signal to
/// `TERMINATING` — a request, not a confirmation.
pub struct Terminator {
    pub inner: ffi::c_terminator,
    pub notify: prog::Sender,
}

impl Terminator {
    /// The callback's signal exists, and invoking it moves that signal off
    /// zero — the transition `on_terminate` waits for (a plugin builds it
    /// with stage one).
    pub open spec fn wf(&self, host: Host) -> bool {
        &&& self.inner.wf(host)
        &&& self.notify.wf(host)
        &&& match self.inner.signal {
            Some(_) => self.inner.value >= 1,
            None => true,
        }
    }

    /// Asks the plugin to begin shutdown and records the `TERMINATING` stage.
    /// Consuming the handle makes the request one-shot.
    pub fn terminate(self, host: &mut Host)
        requires
            self.wf(*old(host)),
        ensures
            final(host).pipes == old(host).pipes,
            final(host).stream_queues == old(host).stream_queues,
            old(host).inv() ==> final(host).inv(),
            final(host).signals@.len() == old(host).signals@.len(),
            forall|i: int|
                0 <= i < old(host).signals@.len() ==> final(host).signals@[i] >= #[trigger] old(host).signals@[i],
            forall|i: int|
                0 <= i < old(host).signals@.len() && i != self.notify.id && (match self
                    .inner
                    .signal {
                    Some(s) => i != s.id,
                    None => true,
                }) ==> final(host).signals@[i] == old(host).signals@[i],
            final(host).signal_val(self.notify.id) >= TERMINATING,
            match self.inner.signal {
                Some(s) => final(host).signal_val(s.id) >= 1,
                None => true,
            },
    {
        let notify = self.notify;
        let ghost pre = *host;
        self.inner.terminate(host);
        let ghost mid = *host;
        notify.send(host, TERMINATING);
        proof {
            match self.inner.signal {
                Some(s) => {
                    assert(mid.signals@[s.id as int] >= 1);
                    if s.id != notify.id {
                        assert(host.signals@[s.id as int] == mid.signals@[s.id as int]);
                    } else {
                        assert(host.signals@[s.id as int] >= mid.signals@[s.id as int]);
                    }
                },
                None => {},
            }
            assert forall|i: int|
                0 <= i < pre.signals@.len() implies host.signals@[i] >= #[trigger] pre.signals@[i] by {
                assert(mid.signals@[i] >= pre.signals@[i]);
                assert(host.signals@[i] >= mid.signals@[i]);
            }
        }
    }
}

/// The host's half of an init handshake that is still in flight: the
/// lifecycle signal was created, the plugin's entry has not returned yet.
pub struct PendingApp {
    pub notify: prog::Sender,
    pub terminated: prog::Receiver,
}

impl AppLib {
    /// First half of a load: creates the plugin's lifecycle signal (at
    /// `RUNNING`) and the init record to hand to the entry symbol, carrying
    /// the config text, the protocol version, the session table and a
    /// confirmation callback that will advance the signal to `TERMINATED`.
    pub fn prepare<'a>(host: &mut Host, config: &'a str, sessions: ffi::c_sessions) -> (r: (
        ffi::c_core<'a>,
        PendingApp,
    ))
        requires
            old(host).inv(),
        ensures
            final(host).inv(),
            final(host).signals@ == old(host).signals@.push(RUNNING),
            final(host).pipes == old(host).pipes,
            final(host).stream_queues == old(host).stream_queues,
            r.1.notify.id == old(host).signals@.len(),
            r.1.terminated.id == r.1.notify.id,
            r.1.terminated.received == RUNNING,
            r.0.config.value@ == config@,
            r.0.version == (ffi::c_core_version { major: 0, minor: 1 }),
            r.0.sessions == sessions,
            r.0.terminated.signal == Some(r.1.notify),
            r.0.terminated.value == TERMINATED,
    {
        let (notify, terminated) = prog::channel(host, RUNNING);
        let core = ffi::c_core {
            config: ffi::c_str::from_str(config),
            version: ffi::c_core_version { major: 0, minor: 1 },
            sessions,
            terminated: ffi::c_terminated { signal: Some(notify), value: TERMINATED },
        };
        (core, PendingApp { notify, terminated })
    }

    /// Second half of a load: reads the app record the plugin filled in and
    /// builds the handle. No partial handle exists: a load that fails before
    /// this point produces nothing.
    pub fn new(app: ffi::c_app, pending: PendingApp) -> (r: AppLib)
        ensures
            r.connector.inner == app.listener,
            r.name@ == app.name.value@,
            r.js_entry@ == app.js_entry.value@,
            r.css_entry@ == app.css_entry.value@,
            r.terminated == pending.terminated,
            r.terminator.inner == app.terminator,
            r.terminator.notify == pending.notify,
    {
        AppLib {
            connector: Connector::new(app.listener),
            name: app.name.to_str(),
            js_entry: app.js_entry.to_str(),
            css_entry: app.css_entry.to_str(),
            terminated: pending.terminated,
            terminator: Terminator { inner: app.terminator, notify: pending.notify },
        }
    }
}

/// Once the lifecycle signal has reached `TERMINATED` it can never fall back:
/// sends only raise it. Unloading decided against a `TERMINATED` observation
/// therefore never races with a plugin that is still running.
pub proof fn lemma_terminated_is_stable(observed: usize, later: usize)
    requires
        observed >= TERMINATED,
        later >= observed,
    ensures
        later >= TERMINATED,
{
}

} // verus!
