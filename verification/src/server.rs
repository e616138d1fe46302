//! The plugin-side halves of the shutdown handshake: waiting for the host's
//! terminate request, and confirming that the plugin's runtime has stopped.

use vstd::prelude::*;

use crate::ffi;
use crate::host::Host;
use crate::progress_channel as prog;

verus! {

/// A plugin's view of the host's terminate request: an observer on the
/// signal that the terminator raises.
#[derive(Debug, Clone, Copy)]
pub struct OnTerminate {
    pub rx: prog::Receiver,
}

impl OnTerminate {
    /// One observation step: completes once the terminate callback has been
    /// invoked (the signal left zero), however long ago that happened. In a
    /// running process this is awaited; `false` means it would suspend.
    pub fn on_terminate(&mut self, host: &Host) -> (r: bool)
        requires
            old(self).rx.wf(*host),
        ensures
            final(self).rx.id == old(self).rx.id,
            r == (host.signal_val(old(self).rx.id) > 0),
    {
        // listen anew each time: only the transition away from zero matters
        self.rx.set_received_val(0);
        self.rx.changed(host)
    }
}

/// The confirmation callback a plugin holds until its runtime has fully
/// stopped; calling it consumes it, so it fires at most once. Only after it
/// fired may the host unload the plugin's library.
pub struct Terminated {
    pub inner: ffi::c_terminated,
}

impl Terminated {
    pub fn new(inner: ffi::c_terminated) -> (r: Self)
        ensures
            r.inner == inner,
    {
        Self { inner }
    }

    pub open spec fn wf(&self, host: Host) -> bool {
        self.inner.wf(host)
    }

    /// Confirms that everything is cleaned up: the lifecycle signal behind
    /// the callback advances to at least its terminated stage.
    pub fn terminated(self, host: &mut Host)
        requires
            self.wf(*old(host)),
        ensures
            final(host).pipes == old(host).pipes,
            final(host).stream_queues == old(host).stream_queues,
            old(host).inv() ==> final(host).inv(),
            match self.inner.signal {
                Some(s) => final(host).signals@ == old(host).signals@.update(
                    s.id as int,
                    if self.inner.value > old(host).signal_val(s.id) {
                        self.inner.value
                    } else {
                        old(host).signal_val(s.id)
                    },
                ),
                None => final(host).signals == old(host).signals,
            },
    {
        self.inner.terminated(host)
    }
}

} // verus!
