//! The one place where the subsystem's shared state lives.
//!
//! In a running process the bounded chunk channels, the queues of freshly
//! accepted streams and the progress counters are shared between threads and
//! across the plugin boundary. The library models that shared memory as a
//! single owned [`Host`] value: handles (a pipe id, a queue id, a signal id)
//! index into it, and each operation takes the store as an explicit argument.
//! Entries are only ever appended, so a handle once valid stays valid.

use vstd::prelude::*;

use crate::stream::Stream;

verus! {

/// One direction of a virtual connection: a bounded queue of byte chunks.
///
/// `closed` records that the sending side has performed its half-close (the
/// zero-length sentinel write): the reader drains what is queued and then
/// sees end-of-file.
pub struct Pipe {
    pub chunks: Vec<Vec<u8>>,
    pub capacity: usize,
    pub closed: bool,
}

impl Pipe {
    /// Every chunk travelling through a pipe is non-empty; end-of-file is
    /// carried by `closed`, never as a queued chunk.
    pub open spec fn wf(&self) -> bool {
        forall|i: int| 0 <= i < self.chunks@.len() ==> #[trigger] self.chunks@[i]@.len() > 0
    }

    /// The bytes still in flight, chunk by chunk, in send order.
    pub open spec fn content(&self) -> Seq<Seq<u8>> {
        self.chunks@.map_values(|c: Vec<u8>| c@)
    }
}

/// A bounded queue of freshly opened streams, the state behind a listener.
pub struct StreamQueue {
    pub streams: Vec<Stream>,
    pub capacity: usize,
    pub closed: bool,
}

/// All shared state of the transport and lifecycle subsystem.
pub struct Host {
    pub pipes: Vec<Pipe>,
    pub stream_queues: Vec<StreamQueue>,
    pub signals: Vec<usize>,
}

impl Host {
    pub fn new() -> (r: Host)
        ensures
            r.pipes@ == Seq::<Pipe>::empty(),
            r.stream_queues@ == Seq::<StreamQueue>::empty(),
            r.signals@ == Seq::<usize>::empty(),
    {
        Host { pipes: Vec::new(), stream_queues: Vec::new(), signals: Vec::new() }
    }

    pub open spec fn has_signal(&self, id: usize) -> bool {
        id < self.signals@.len()
    }

    pub open spec fn signal_val(&self, id: usize) -> usize {
        self.signals@[id as int]
    }

    pub open spec fn has_pipe(&self, id: usize) -> bool {
        id < self.pipes@.len()
    }

    pub open spec fn pipe(&self, id: usize) -> Pipe {
        self.pipes@[id as int]
    }

    pub open spec fn has_queue(&self, id: usize) -> bool {
        id < self.stream_queues@.len()
    }

    pub open spec fn queue(&self, id: usize) -> StreamQueue {
        self.stream_queues@[id as int]
    }

    pub open spec fn pipes_wf(&self) -> bool {
        forall|i: int| 0 <= i < self.pipes@.len() ==> (#[trigger] self.pipes@[i]).wf()
    }

    pub open spec fn queues_wf(&self) -> bool {
        forall|q: int|
            0 <= q < self.stream_queues@.len() ==> (#[trigger] self.stream_queues@[q]).wf(*self)
    }

    /// The store-wide invariant: every queued chunk is non-empty, and every
    /// stream waiting in a listener queue points at pipes that exist.
    pub open spec fn inv(&self) -> bool {
        self.pipes_wf() && self.queues_wf()
    }
}

impl StreamQueue {
    pub open spec fn wf(&self, host: Host) -> bool {
        forall|s: int| 0 <= s < self.streams@.len() ==> (#[trigger] self.streams@[s]).wf(host)
    }
}

/// Streams waiting in queues stay well formed when the store only appends:
/// their pipe handles keep pointing at existing pipes.
pub proof fn lemma_queues_wf_monotone(h1: Host, h2: Host)
    requires
        h1.queues_wf(),
        h2.stream_queues == h1.stream_queues,
        h1.pipes@.len() <= h2.pipes@.len(),
    ensures
        h2.queues_wf(),
{
    assert forall|q: int|
        0 <= q < h2.stream_queues@.len() implies (#[trigger] h2.stream_queues@[q]).wf(h2) by {
        let queue = h2.stream_queues@[q];
        assert(queue.wf(h1));
        assert forall|s: int| 0 <= s < queue.streams@.len() implies (#[trigger] queue.streams@[s]).wf(
            h2,
        ) by {
            assert(queue.streams@[s].wf(h1));
        }
    }
}

} // verus!
