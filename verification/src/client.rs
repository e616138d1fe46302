//! The plugin-side source of the terminate request: a plugin creates the
//! pair at init, keeps the observing half and hands the raising half to the
//! host inside its app record.

use vstd::prelude::*;

use crate::ffi;
use crate::host::Host;
use crate::progress_channel as prog;
use crate::server::OnTerminate;

verus! {

/// The raising half of a plugin's terminate signal.
#[derive(Debug, Clone, Copy)]
pub struct Terminator {
    pub tx: prog::Sender,
}

impl Terminator {
    /// Creates the terminate signal: the `Terminator` crosses to the host,
    /// the `OnTerminate` stays with the plugin.
    pub fn new(host: &mut Host) -> (r: (Terminator, OnTerminate))
        requires
            old(host).inv(),
        ensures
            final(host).inv(),
            final(host).signals@ == old(host).signals@.push(0),
            final(host).pipes == old(host).pipes,
            final(host).stream_queues == old(host).stream_queues,
            r.0.tx.id == old(host).signals@.len(),
            r.1.rx.id == r.0.tx.id,
            r.1.rx.received == 0,
    {
        let (tx, rx) = prog::channel(host, 0);
        (Self { tx }, OnTerminate { rx })
    }

    /// The boundary form: a one-shot callback that moves the signal off zero,
    /// which is what `on_terminate` waits for.
    pub fn into_c(self) -> (r: ffi::c_terminator)
        ensures
            r.signal == Some(self.tx),
            r.value == 1,
    {
        ffi::c_terminator { signal: Some(self.tx), value: 1 }
    }
}

} // verus!
