//! A progress channel: a monotone counter with change notification.
//!
//! The sender only ever raises the stored value (monotone max); a receiver
//! remembers the last value it observed and `changed` completes as soon as the
//! stored value exceeds it. Because the comparison is always against the
//! current stored value, an observer that starts late still completes at once
//! with the latest value: there is no missed wakeup, only skipped
//! intermediate values. The stored value itself lives in the [`Host`] store;
//! sender and receiver are handles. In a running process `changed` suspends
//! instead of reporting `false`; the surrounding runtime polls it.

use vstd::prelude::*;

use crate::host::Host;

verus! {

/// When a `changed` observation completes: as soon as the stored value
/// exceeds the last value the receiver observed.
pub open spec fn changed_ready(val: usize, received: usize) -> bool {
    val > received
}

/// Creates a progress channel holding `val`.
pub fn channel(host: &mut Host, val: usize) -> (r: (Sender, Receiver))
    ensures
        final(host).signals@ == old(host).signals@.push(val),
        final(host).pipes == old(host).pipes,
        final(host).stream_queues == old(host).stream_queues,
        r.0.id == old(host).signals@.len(),
        r.1.id == r.0.id,
        r.1.received == val,
        old(host).inv() ==> final(host).inv(),
{
    let id = host.signals.len();
    host.signals.push(val);
    proof {
        if old(host).inv() {
            crate::host::lemma_queues_wf_monotone(*old(host), *host);
        }
    }
    (Sender { id }, Receiver { id, received: val })
}

/// The raising half of a progress channel. Cheap to copy; any number of
/// copies may raise the same stored value.
#[derive(Debug, Clone, Copy)]
pub struct Sender {
    pub id: usize,
}

impl Sender {
    pub open spec fn wf(&self, host: Host) -> bool {
        host.has_signal(self.id)
    }

    pub fn val(&self, host: &Host) -> (r: usize)
        requires
            self.wf(*host),
        ensures
            r == host.signal_val(self.id),
    {
        host.signals[self.id]
    }

    /// Raises the stored value to `val` if that is higher than what is stored;
    /// returns whether it advanced. In a running process an advance also wakes
    /// every pending `changed` observation.
    pub fn send(&self, host: &mut Host, val: usize) -> (sent: bool)
        requires
            self.wf(*old(host)),
        ensures
            sent == (val > old(host).signal_val(self.id)),
            final(host).signal_val(self.id) == if val > old(host).signal_val(self.id) {
                val
            } else {
                old(host).signal_val(self.id)
            },
            final(host).signals@ == old(host).signals@.update(
                self.id as int,
                final(host).signal_val(self.id),
            ),
            final(host).pipes == old(host).pipes,
            final(host).stream_queues == old(host).stream_queues,
            old(host).inv() ==> final(host).inv(),
    {
        let prev = host.signals[self.id];
        let sent = prev < val;
        if sent {
            host.signals.set(self.id, val);
        }
        proof {
            if !sent {
                assert(host.signals@ =~= old(host).signals@.update(self.id as int, prev));
            }
            if old(host).inv() {
                crate::host::lemma_queues_wf_monotone(*old(host), *host);
            }
        }
        sent
    }
}

/// The observing half: a cursor remembering the last value it saw.
#[derive(Debug, Clone, Copy)]
pub struct Receiver {
    pub id: usize,
    pub received: usize,
}

impl Receiver {
    pub open spec fn wf(&self, host: Host) -> bool {
        host.has_signal(self.id)
    }

    pub fn val(&self, host: &Host) -> (r: usize)
        requires
            self.wf(*host),
        ensures
            r == host.signal_val(self.id),
    {
        host.signals[self.id]
    }

    pub fn set_received_val(&mut self, val: usize)
        ensures
            final(self).received == val,
            final(self).id == old(self).id,
    {
        self.received = val;
    }

    pub fn received_val(&self) -> (r: usize)
        ensures
            r == self.received,
    {
        self.received
    }

    /// One observation step: completes exactly when the stored value exceeds
    /// the last observed one, updating the cursor to the stored value. In a
    /// running process this is an awaited future; `false` means it would
    /// suspend.
    pub fn changed(&mut self, host: &Host) -> (r: bool)
        requires
            old(self).wf(*host),
        ensures
            r == changed_ready(host.signal_val(old(self).id), old(self).received),
            final(self).id == old(self).id,
            final(self).received == if r {
                host.signal_val(old(self).id)
            } else {
                old(self).received
            },
    {
        let val = host.signals[self.id];
        if val > self.received {
            self.received = val;
            true
        } else {
            false
        }
    }
}

/// The value stored after a sequence of `send` calls, starting from `init`.
pub open spec fn val_after_sends(init: usize, sends: Seq<usize>) -> usize
    decreases sends.len(),
{
    if sends.len() == 0 {
        init
    } else {
        let prev = val_after_sends(init, sends.drop_last());
        if sends.last() > prev {
            sends.last()
        } else {
            prev
        }
    }
}

/// One more send folds in as a monotone max.
pub proof fn lemma_send_appends(init: usize, sends: Seq<usize>, v: usize)
    ensures
        val_after_sends(init, sends.push(v)) == if v > val_after_sends(init, sends) {
            v
        } else {
            val_after_sends(init, sends)
        },
{
    assert(sends.push(v).drop_last() =~= sends);
}

/// Monotonicity: across any sequence of sends the stored value never
/// decreases, and it always equals the supremum of the initial value and
/// every value sent so far.
pub proof fn lemma_monotonicity(init: usize, sends: Seq<usize>)
    ensures
        val_after_sends(init, sends) >= init,
        forall|i: int|
            0 <= i < sends.len() ==> val_after_sends(init, sends) >= #[trigger] sends[i],
        val_after_sends(init, sends) == init || sends.contains(val_after_sends(init, sends)),
    decreases sends.len(),
{
    if sends.len() > 0 {
        lemma_monotonicity(init, sends.drop_last());
        let prev = val_after_sends(init, sends.drop_last());
        assert(forall|i: int| 0 <= i < sends.len() - 1 ==> sends[i] == sends.drop_last()[i]);
        if prev != init && sends.drop_last().contains(prev) {
            let j = choose|j: int| 0 <= j < sends.drop_last().len() && sends.drop_last()[j] == prev;
            assert(sends[j] == prev);
        }
        assert(sends.last() == sends[sends.len() - 1]);
    }
}

/// Observations only move forward: a completed `changed` leaves the cursor at
/// the stored value, which is never below what the cursor held before.
pub proof fn lemma_observed_non_decreasing(val: usize, received: usize, received_after: usize)
    requires
        received_after == if changed_ready(val, received) {
            val
        } else {
            received
        },
    ensures
        received_after >= received,
{
}

/// No missed wakeup: if a send raised the stored value to at least `v`
/// before an observation with last-observed value below `v` begins, that
/// observation completes immediately.
pub proof fn lemma_no_missed_wakeup(val: usize, received: usize, v: usize)
    requires
        received < v,
        v <= val,
    ensures
        changed_ready(val, received),
{
}

} // verus!
