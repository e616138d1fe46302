//! The virtual duplex byte-stream transport.
//!
//! A `Stream` is one endpoint of an in-process connection: a `Reader` draining
//! a bounded chunk pipe and a `Writer` feeding the peer's pipe through a
//! boundary sink. Connections are created in matched pairs: the listening side
//! holds a queue of freshly opened streams, the dialing side a `Connector`
//! around the acceptor the other side exposed. All sends are non-blocking —
//! a full queue reports backpressure instead of parking the calling thread,
//! because these calls may run inside a plugin's boundary callback.

use vstd::prelude::*;

use crate::ffi;
use crate::host::{Host, Pipe, StreamQueue};
use crate::util::mpsc_send;
use crate::{Error, ErrorKind};

verus! {

/// How many freshly dialed connections a listener queue holds before further
/// dials are rejected with backpressure.
pub const CONCURRENT_STREAM_REQS: usize = 1024;

/// How many chunks one direction of a stream buffers before writes are
/// rejected with backpressure.
pub const CONCURRENT_WRITES_PER_STREAM: usize = 1024;

/// The listening half: receives the streams that dials through the paired
/// acceptor open.
pub struct Listener {
    pub rx: usize,
}

/// The boundary-facing half of a listener; `into_c` turns it into the
/// acceptor record that crosses to the other side.
pub struct CListener {
    pub tx: usize,
}

impl Listener {
    /// Creates a listener and its boundary counterpart, sharing a fresh
    /// bounded queue of streams.
    pub fn new(host: &mut Host) -> (r: (Listener, CListener))
        requires
            old(host).inv(),
        ensures
            final(host).inv(),
            r.0.rx == old(host).stream_queues@.len(),
            r.1.tx == r.0.rx,
            final(host).stream_queues@.len() == old(host).stream_queues@.len() + 1,
            forall|i: int|
                0 <= i < old(host).stream_queues@.len() ==> final(host).stream_queues@[i]
                    == old(host).stream_queues@[i],
            final(host).queue(r.0.rx).streams@ == Seq::<Stream>::empty(),
            !final(host).queue(r.0.rx).closed,
            final(host).queue(r.0.rx).capacity == CONCURRENT_STREAM_REQS,
            final(host).pipes == old(host).pipes,
            final(host).signals == old(host).signals,
    {
        let id = host.stream_queues.len();
        host.stream_queues.push(
            StreamQueue { streams: Vec::new(), capacity: CONCURRENT_STREAM_REQS, closed: false },
        );
        proof {
            assert forall|q: int|
                0 <= q < host.stream_queues@.len() implies (
            #[trigger] host.stream_queues@[q]).wf(*host) by {
                if q < old(host).stream_queues@.len() {
                    assert(old(host).stream_queues@[q].wf(*old(host)));
                    assert forall|s: int|
                        0 <= s < host.stream_queues@[q].streams@.len() implies (
                    #[trigger] host.stream_queues@[q].streams@[s]).wf(*host) by {
                        assert(old(host).stream_queues@[q].streams@[s].wf(*old(host)));
                    }
                }
            }
        }
        (Listener { rx: id }, CListener { tx: id })
    }

    pub open spec fn wf(&self, host: Host) -> bool {
        host.has_queue(self.rx)
    }

    /// Takes the next freshly opened stream off the queue. `Pending` means the
    /// queue is empty but more dials may come; `Closed` means no dial will
    /// ever arrive again. In a running process `Pending` suspends instead.
    pub fn accept(&mut self, host: &mut Host) -> (r: AcceptPoll)
        requires
            old(self).wf(*old(host)),
            old(host).inv(),
        ensures
            *final(self) == *old(self),
            final(host).inv(),
            final(host).pipes == old(host).pipes,
            final(host).signals == old(host).signals,
            final(host).stream_queues@.len() == old(host).stream_queues@.len(),
            forall|i: int|
                0 <= i < old(host).stream_queues@.len() && i != old(self).rx ==> final(host).stream_queues@[i] == old(host).stream_queues@[i],
            final(host).queue(old(self).rx).closed == old(host).queue(old(self).rx).closed,
            final(host).queue(old(self).rx).capacity == old(host).queue(old(self).rx).capacity,
            match r {
                AcceptPoll::Ready(s) => {
                    &&& old(host).queue(old(self).rx).streams@.len() > 0
                    &&& s == old(host).queue(old(self).rx).streams@[0]
                    &&& s.wf(*final(host))
                    &&& final(host).queue(old(self).rx).streams@ == old(host).queue(
                        old(self).rx,
                    ).streams@.drop_first()
                },
                AcceptPoll::Pending => {
                    &&& old(host).queue(old(self).rx).streams@.len() == 0
                    &&& !old(host).queue(old(self).rx).closed
                    &&& final(host).queue(old(self).rx).streams@ == old(host).queue(old(self).rx).streams@
                },
                AcceptPoll::Closed => {
                    &&& old(host).queue(old(self).rx).streams@.len() == 0
                    &&& old(host).queue(old(self).rx).closed
                    &&& final(host).queue(old(self).rx).streams@ == old(host).queue(old(self).rx).streams@
                },
            },
    {
        let q = &mut host.stream_queues[self.rx];
        let r = if q.streams.len() > 0 {
            let s = q.streams.remove(0);
            AcceptPoll::Ready(s)
        } else if q.closed {
            AcceptPoll::Closed
        } else {
            AcceptPoll::Pending
        };
        proof {
            assert(host.stream_queues@ =~= old(host).stream_queues@.update(
                self.rx as int,
                host.stream_queues@[self.rx as int],
            ));
            if old(host).queue(self.rx).streams@.len() > 0 {
                assert(host.queue(self.rx).streams@ =~= old(host).queue(
                    self.rx,
                ).streams@.drop_first());
                assert(old(host).queue(self.rx).wf(*old(host)));
                assert(old(host).queue(self.rx).streams@[0].wf(*old(host)));
            }
            assert forall|q2: int|
                0 <= q2 < host.stream_queues@.len() implies (
            #[trigger] host.stream_queues@[q2]).wf(*host) by {
                assert(old(host).stream_queues@[q2].wf(*old(host)));
                assert forall|s2: int|
                    0 <= s2 < host.stream_queues@[q2].streams@.len() implies (
                #[trigger] host.stream_queues@[q2].streams@[s2]).wf(*host) by {
                    if q2 == self.rx && old(host).queue(self.rx).streams@.len() > 0 {
                        assert(host.stream_queues@[q2].streams@[s2] == old(host).stream_queues@[q2].streams@[s2 + 1]);
                        assert(old(host).stream_queues@[q2].streams@[s2 + 1].wf(*old(host)));
                    } else {
                        assert(host.stream_queues@[q2].streams@[s2] == old(host).stream_queues@[q2].streams@[s2]);
                        assert(old(host).stream_queues@[q2].streams@[s2].wf(*old(host)));
                    }
                }
            }
        }
        r
    }

    /// Tears the listener down: dials already queued are dropped and every
    /// later dial through the paired acceptor is refused. Models the listener
    /// going out of scope.
    pub fn close(&mut self, host: &mut Host)
        requires
            old(self).wf(*old(host)),
            old(host).inv(),
        ensures
            final(host).inv(),
            final(host).pipes == old(host).pipes,
            final(host).signals == old(host).signals,
            final(host).stream_queues@.len() == old(host).stream_queues@.len(),
            forall|i: int|
                0 <= i < old(host).stream_queues@.len() && i != old(self).rx ==> final(host).stream_queues@[i] == old(host).stream_queues@[i],
            final(host).queue(old(self).rx).closed,
            final(host).queue(old(self).rx).streams@ == Seq::<Stream>::empty(),
            *final(self) == *old(self),
    {
        let q = &mut host.stream_queues[self.rx];
        q.closed = true;
        q.streams.clear();
        proof {
            assert(host.stream_queues@ =~= old(host).stream_queues@.update(
                self.rx as int,
                host.stream_queues@[self.rx as int],
            ));
            assert forall|q2: int|
                0 <= q2 < host.stream_queues@.len() implies (
            #[trigger] host.stream_queues@[q2]).wf(*host) by {
                assert(old(host).stream_queues@[q2].wf(*old(host)));
                assert forall|s2: int|
                    0 <= s2 < host.stream_queues@[q2].streams@.len() implies (
                #[trigger] host.stream_queues@[q2].streams@[s2]).wf(*host) by {
                    assert(old(host).stream_queues@[q2].streams@[s2].wf(*old(host)));
                }
            }
        }
    }
}

/// The result of polling a listener for the next stream.
pub enum AcceptPoll {
    Ready(Stream),
    Pending,
    Closed,
}

impl CListener {
    /// Turns the boundary half into the acceptor record handed across.
    pub fn into_c(self) -> (r: ffi::c_listener)
        ensures
            r.queue == self.tx,
    {
        ffi::c_listener { queue: self.tx }
    }
}

impl ffi::c_listener {
    /// One dial through the acceptor: allocates the pipe the dialer will read,
    /// queues a stream for the listening side built from that pipe and the
    /// sink the dialer supplied, and hands back the sink the dialer must write
    /// into. A full queue yields `TooManyRequests`, a torn-down listener
    /// `Refused`; either way the dial fails and the queue is unchanged.
    pub fn accept(&self, host: &mut Host, given: ffi::c_writer) -> (r: Result<ffi::c_writer, Error>)
        requires
            self.wf(*old(host)),
            given.wf(*old(host)),
            old(host).inv(),
        ensures
            final(host).inv(),
            final(host).signals == old(host).signals,
            final(host).pipes@.len() == old(host).pipes@.len() + 1,
            forall|i: int|
                0 <= i < old(host).pipes@.len() ==> final(host).pipes@[i] == old(host).pipes@[i],
            final(host).pipe(old(host).pipes@.len() as usize).content() == Seq::<Seq<u8>>::empty(),
            !final(host).pipe(old(host).pipes@.len() as usize).closed,
            final(host).pipe(old(host).pipes@.len() as usize).capacity
                == CONCURRENT_WRITES_PER_STREAM,
            final(host).stream_queues@.len() == old(host).stream_queues@.len(),
            forall|i: int|
                0 <= i < old(host).stream_queues@.len() && i != self.queue ==> final(host).stream_queues@[i] == old(host).stream_queues@[i],
            final(host).queue(self.queue).closed == old(host).queue(self.queue).closed,
            final(host).queue(self.queue).capacity == old(host).queue(self.queue).capacity,
            r is Ok <==> (!old(host).queue(self.queue).closed && old(host).queue(
                self.queue,
            ).streams@.len() < old(host).queue(self.queue).capacity),
            r matches Ok(w) ==> {
                &&& w.pipe == old(host).pipes@.len()
                &&& final(host).queue(self.queue).streams@ == old(host).queue(
                    self.queue,
                ).streams@.push(
                    (Stream {
                        reader: Reader { buf: None, rx: old(host).pipes@.len() as usize },
                        writer: Writer { is_closed: false, inner: given },
                    }),
                )
            },
            r matches Err(e) ==> {
                &&& final(host).queue(self.queue).streams@ == old(host).queue(
                    self.queue,
                ).streams@
                &&& (e.kind == ErrorKind::Refused <==> old(host).queue(self.queue).closed)
                &&& (e.kind == ErrorKind::TooManyRequests <==> !old(host).queue(self.queue).closed)
            },
    {
        let (reader, tx_reader) = Reader::new(host);
        let ghost mid = *host;
        let stream = Stream { reader, writer: Writer::new(given) };
        let ghost gstream = stream;
        let sink = ffi::c_writer { pipe: tx_reader.tx };
        let q = &mut host.stream_queues[self.queue];
        let cap = q.capacity;
        let closed = q.closed;
        let r = match mpsc_send(&mut q.streams, cap, closed, stream) {
            Ok(()) => Ok(sink),
            Err(e) => Err(e),
        };
        proof {
            assert(host.stream_queues@ =~= mid.stream_queues@.update(
                self.queue as int,
                host.stream_queues@[self.queue as int],
            ));
            assert(gstream.wf(*host));
            assert forall|q2: int|
                0 <= q2 < host.stream_queues@.len() implies (
            #[trigger] host.stream_queues@[q2]).wf(*host) by {
                assert(mid.stream_queues@[q2].wf(mid));
                assert forall|s2: int|
                    0 <= s2 < host.stream_queues@[q2].streams@.len() implies (
                #[trigger] host.stream_queues@[q2].streams@[s2]).wf(*host) by {
                    if q2 == self.queue as int && r is Ok && s2
                        == host.stream_queues@[q2].streams@.len() - 1 {
                        assert(host.stream_queues@[q2].streams@[s2] == gstream);
                    } else {
                        assert(host.stream_queues@[q2].streams@[s2]
                            == mid.stream_queues@[q2].streams@[s2]);
                        assert(mid.stream_queues@[q2].streams@[s2].wf(mid));
                    }
                }
            }
        }
        r
    }
}

/// The receiving half of one stream direction: buffers at most one pending
/// chunk and otherwise drains the pipe.
pub struct Reader {
    pub buf: Option<Vec<u8>>,
    pub rx: usize,
}

/// The boundary-facing half of a reader: what the peer writes into. `into_c`
/// turns it into the sink record that crosses the boundary.
pub struct TxReader {
    pub tx: usize,
}

impl TxReader {
    pub fn into_c(self) -> (r: ffi::c_writer)
        ensures
            r.pipe == self.tx,
    {
        ffi::c_writer { pipe: self.tx }
    }
}

/// The result of polling a reader. `Data` always carries at least one byte;
/// `Eof` means the peer half-closed and everything buffered has been drained;
/// `Pending` means nothing is queued yet. In a running process `Pending`
/// suspends instead.
pub enum ReadPoll {
    Data(Vec<u8>),
    Eof,
    Pending,
}

impl Reader {
    pub open spec fn wf(&self, host: Host) -> bool {
        &&& host.has_pipe(self.rx)
        &&& match self.buf {
            Some(b) => b@.len() > 0,
            None => true,
        }
    }

    /// Everything this endpoint has still to deliver, chunk by chunk: the
    /// buffered remainder first, then the pipe's queue in send order.
    pub open spec fn pending(&self, host: Host) -> Seq<Seq<u8>> {
        match self.buf {
            Some(b) => seq![b@] + host.pipe(self.rx).content(),
            None => host.pipe(self.rx).content(),
        }
    }

    /// Creates the receiving half of a fresh direction together with its
    /// boundary counterpart.
    pub fn new(host: &mut Host) -> (r: (Reader, TxReader))
        requires
            old(host).inv(),
        ensures
            final(host).inv(),
            r.0.rx == old(host).pipes@.len(),
            r.0.buf is None,
            r.1.tx == r.0.rx,
            final(host).pipes@.len() == old(host).pipes@.len() + 1,
            forall|i: int|
                0 <= i < old(host).pipes@.len() ==> final(host).pipes@[i] == old(host).pipes@[i],
            final(host).pipe(r.0.rx).content() == Seq::<Seq<u8>>::empty(),
            !final(host).pipe(r.0.rx).closed,
            final(host).pipe(r.0.rx).capacity == CONCURRENT_WRITES_PER_STREAM,
            final(host).stream_queues == old(host).stream_queues,
            final(host).signals == old(host).signals,
    {
        let id = host.pipes.len();
        host.pipes.push(
            Pipe { chunks: Vec::new(), capacity: CONCURRENT_WRITES_PER_STREAM, closed: false },
        );
        proof {
            assert(host.pipe(id).content() =~= Seq::<Seq<u8>>::empty());
            crate::host::lemma_queues_wf_monotone(*old(host), *host);
        }
        (Reader { buf: None, rx: id }, TxReader { tx: id })
    }

    /// One read step, taking at most `max` bytes. Data is delivered in send
    /// order, split but never reordered: a chunk larger than `max` is cut and
    /// the remainder retained for the next call.
    pub fn poll_read(&mut self, host: &mut Host, max: usize) -> (r: ReadPoll)
        requires
            old(self).wf(*old(host)),
            old(host).inv(),
            max > 0,
        ensures
            final(self).wf(*final(host)),
            final(self).rx == old(self).rx,
            final(host).inv(),
            final(host).pipes@.len() == old(host).pipes@.len(),
            forall|i: int|
                0 <= i < old(host).pipes@.len() && i != old(self).rx ==> final(host).pipes@[i]
                    == old(host).pipes@[i],
            final(host).stream_queues == old(host).stream_queues,
            final(host).signals == old(host).signals,
            final(host).pipe(old(self).rx).closed == old(host).pipe(old(self).rx).closed,
            final(host).pipe(old(self).rx).capacity == old(host).pipe(old(self).rx).capacity,
            match r {
                ReadPoll::Data(d) => {
                    &&& old(self).pending(*old(host)).len() > 0
                    &&& 0 < d@.len() <= max
                    &&& d@ == old(self).pending(*old(host))[0].take(d@.len() as int)
                    &&& final(self).pending(*final(host)) == if d@.len() == old(self).pending(
                        *old(host),
                    )[0].len() {
                        old(self).pending(*old(host)).drop_first()
                    } else {
                        seq![old(self).pending(*old(host))[0].skip(d@.len() as int)] + old(self).pending(*old(host)).drop_first()
                    }
                    &&& d@.len() < old(self).pending(*old(host))[0].len() ==> d@.len() == max
                },
                ReadPoll::Eof => {
                    &&& old(self).pending(*old(host)).len() == 0
                    &&& old(host).pipe(old(self).rx).closed
                    &&& *final(self) == *old(self)
                    &&& final(self).pending(*final(host)) == old(self).pending(*old(host))
                },
                ReadPoll::Pending => {
                    &&& old(self).pending(*old(host)).len() == 0
                    &&& !old(host).pipe(old(self).rx).closed
                    &&& *final(self) == *old(self)
                    &&& final(self).pending(*final(host)) == old(self).pending(*old(host))
                },
            },
    {
        let ghost old_pending = old(self).pending(*old(host));
        let buffered = self.buf.take();
        let mut bytes: Vec<u8>;
        match buffered {
            Some(b) => {
                bytes = b;
            },
            None => {
                let p = &mut host.pipes[self.rx];
                if p.chunks.len() > 0 {
                    bytes = p.chunks.remove(0);
                    proof {
                        assert(host.pipes@ =~= old(host).pipes@.update(
                            self.rx as int,
                            host.pipes@[self.rx as int],
                        ));
                        assert(old(host).pipes@[self.rx as int].wf());
                        assert(host.pipe(self.rx).content() =~= old(host).pipe(
                            self.rx,
                        ).content().drop_first());
                        assert(bytes@ == old(host).pipe(self.rx).content()[0]);
                        crate::host::lemma_queues_wf_monotone(*old(host), *host);
                    }
                } else if p.closed {
                    proof {
                        assert(host.pipes@ =~= old(host).pipes@);
                        assert(old(self).pending(*old(host)) =~= Seq::<Seq<u8>>::empty());
                    }
                    return ReadPoll::Eof;
                } else {
                    proof {
                        assert(host.pipes@ =~= old(host).pipes@);
                        assert(old(self).pending(*old(host)) =~= Seq::<Seq<u8>>::empty());
                    }
                    return ReadPoll::Pending;
                }
            },
        }
        proof {
            assert(old_pending.len() > 0);
            assert(bytes@ == old_pending[0]);
            assert(bytes@.len() > 0);
        }
        if bytes.len() <= max {
            proof {
                assert(bytes@ =~= old_pending[0].take(bytes@.len() as int));
                assert(self.pending(*host) =~= old_pending.drop_first());
            }
            ReadPoll::Data(bytes)
        } else {
            let rest = bytes.split_off(max);
            self.buf = Some(rest);
            proof {
                assert(bytes@ =~= old_pending[0].take(max as int));
                assert(self.pending(*host) =~= seq![old_pending[0].skip(max as int)]
                    + old_pending.drop_first());
            }
            ReadPoll::Data(bytes)
        }
    }
}

/// The sending half of a stream: wraps the boundary sink of the peer's pipe
/// and tracks whether this side already half-closed.
pub struct Writer {
    pub is_closed: bool,
    pub inner: ffi::c_writer,
}

impl Writer {
    pub open spec fn wf(&self, host: Host) -> bool {
        self.inner.wf(host)
    }

    pub fn new(inner: ffi::c_writer) -> (r: Self)
        ensures
            r.inner == inner,
            !r.is_closed,
    {
        Self { is_closed: false, inner }
    }

    /// Sends one non-empty chunk. A writer that was closed rejects the write
    /// with `Closed`; otherwise the bytes are forwarded to the sink, which may
    /// itself report `Closed` (peer torn down) or `TooManyRequests` (pipe
    /// full). On success the chunk is appended, in order, to the peer's pipe.
    pub fn write(&mut self, host: &mut Host, bytes: &[u8]) -> (r: Result<(), Error>)
        requires
            old(self).wf(*old(host)),
            old(host).inv(),
            bytes@.len() > 0,
        ensures
            final(self).wf(*final(host)),
            final(self).inner == old(self).inner,
            final(self).is_closed == old(self).is_closed,
            final(host).inv(),
            final(host).pipes@.len() == old(host).pipes@.len(),
            forall|i: int|
                0 <= i < old(host).pipes@.len() && i != old(self).inner.pipe ==> final(host).pipes@[i] == old(host).pipes@[i],
            final(host).stream_queues == old(host).stream_queues,
            final(host).signals == old(host).signals,
            final(host).pipe(old(self).inner.pipe).closed == old(host).pipe(
                old(self).inner.pipe,
            ).closed,
            final(host).pipe(old(self).inner.pipe).capacity == old(host).pipe(
                old(self).inner.pipe,
            ).capacity,
            r is Ok <==> (!old(self).is_closed && !old(host).pipe(old(self).inner.pipe).closed
                && old(host).pipe(old(self).inner.pipe).content().len() < old(host).pipe(
                old(self).inner.pipe,
            ).capacity),
            r is Ok ==> final(host).pipe(old(self).inner.pipe).content() == old(host).pipe(
                old(self).inner.pipe,
            ).content().push(bytes@),
            r is Err ==> final(host).pipe(old(self).inner.pipe).content() == old(host).pipe(
                old(self).inner.pipe,
            ).content(),
            old(self).is_closed ==> (r matches Err(e) && e.kind == ErrorKind::Closed),
            !old(self).is_closed && old(host).pipe(old(self).inner.pipe).closed ==> (r matches Err(
                e,
            ) && e.kind == ErrorKind::Closed),
            !old(self).is_closed && !old(host).pipe(old(self).inner.pipe).closed && old(host).pipe(
                old(self).inner.pipe,
            ).content().len() >= old(host).pipe(old(self).inner.pipe).capacity ==> (r matches Err(
                e,
            ) && e.kind == ErrorKind::TooManyRequests),
    {
        if self.is_closed {
            return Err(Error::new(ErrorKind::Closed, ""));
        }
        let r = self.inner.write(host, ffi::c_slice::from_slice(bytes));
        if r.is_ok() {
            Ok(())
        } else {
            let code = r.code;
            let msg = r.string.into_string();
            Err(Error { kind: ErrorKind::from_code(code), msg })
        }
    }

    /// Half-closes this direction: the first call performs the zero-length
    /// sentinel write, so the peer drains what is queued and then sees
    /// end-of-file; later calls do nothing.
    pub fn close(&mut self, host: &mut Host)
        requires
            old(self).wf(*old(host)),
            old(host).inv(),
        ensures
            final(self).inner == old(self).inner,
            final(self).is_closed,
            final(host).inv(),
            final(host).pipes@.len() == old(host).pipes@.len(),
            forall|i: int|
                0 <= i < old(host).pipes@.len() && i != old(self).inner.pipe ==> final(host).pipes@[i] == old(host).pipes@[i],
            final(host).stream_queues == old(host).stream_queues,
            final(host).signals == old(host).signals,
            final(host).pipe(old(self).inner.pipe).content() == old(host).pipe(
                old(self).inner.pipe,
            ).content(),
            final(host).pipe(old(self).inner.pipe).capacity == old(host).pipe(
                old(self).inner.pipe,
            ).capacity,
            old(self).is_closed ==> final(host).pipe(old(self).inner.pipe).closed == old(host).pipe(
                old(self).inner.pipe,
            ).closed,
            !old(self).is_closed ==> final(host).pipe(old(self).inner.pipe).closed,
    {
        if !self.is_closed {
            let e = self.inner.write(host, ffi::c_slice::empty());
            e.free();
            self.is_closed = true;
        } else {
            proof {
                assert(host.pipes@ =~= old(host).pipes@);
            }
        }
    }
}

/// One endpoint of a virtual duplex connection.
pub struct Stream {
    pub reader: Reader,
    pub writer: Writer,
}

impl Stream {
    pub open spec fn wf(&self, host: Host) -> bool {
        self.reader.wf(host) && self.writer.wf(host)
    }

    /// Explicit half-close of the sending direction without giving the stream
    /// up: the peer sees end-of-file after draining, reads stay possible.
    pub fn close_sender(&mut self, host: &mut Host)
        requires
            old(self).wf(*old(host)),
            old(host).inv(),
        ensures
            final(self).reader == old(self).reader,
            final(self).writer.inner == old(self).writer.inner,
            final(self).writer.is_closed,
            final(host).inv(),
            final(host).pipes@.len() == old(host).pipes@.len(),
            forall|i: int|
                0 <= i < old(host).pipes@.len() && i != old(self).writer.inner.pipe ==> final(host).pipes@[i] == old(host).pipes@[i],
            final(host).stream_queues == old(host).stream_queues,
            final(host).signals == old(host).signals,
            final(host).pipe(old(self).writer.inner.pipe).content() == old(host).pipe(
                old(self).writer.inner.pipe,
            ).content(),
            !old(self).writer.is_closed ==> final(host).pipe(old(self).writer.inner.pipe).closed,
    {
        self.writer.close(host);
    }

    /// Sends one non-empty chunk to the peer; see [`Writer::write`].
    pub fn write(&mut self, host: &mut Host, bytes: &[u8]) -> (r: Result<(), Error>)
        requires
            old(self).wf(*old(host)),
            old(host).inv(),
            bytes@.len() > 0,
        ensures
            final(self).reader == old(self).reader,
            final(self).writer.inner == old(self).writer.inner,
            final(self).writer.is_closed == old(self).writer.is_closed,
            final(host).inv(),
            final(host).pipes@.len() == old(host).pipes@.len(),
            forall|i: int|
                0 <= i < old(host).pipes@.len() && i != old(self).writer.inner.pipe ==> final(host).pipes@[i] == old(host).pipes@[i],
            final(host).stream_queues == old(host).stream_queues,
            final(host).signals == old(host).signals,
            final(host).pipe(old(self).writer.inner.pipe).closed == old(host).pipe(
                old(self).writer.inner.pipe,
            ).closed,
            final(host).pipe(old(self).writer.inner.pipe).capacity == old(host).pipe(
                old(self).writer.inner.pipe,
            ).capacity,
            r is Ok <==> (!old(self).writer.is_closed && !old(host).pipe(
                old(self).writer.inner.pipe,
            ).closed && old(host).pipe(old(self).writer.inner.pipe).content().len() < old(host).pipe(old(self).writer.inner.pipe).capacity),
            r is Ok ==> final(host).pipe(old(self).writer.inner.pipe).content() == old(host).pipe(
                old(self).writer.inner.pipe,
            ).content().push(bytes@),
            r is Err ==> final(host).pipe(old(self).writer.inner.pipe).content() == old(host).pipe(
                old(self).writer.inner.pipe,
            ).content(),
            old(self).writer.is_closed ==> (r matches Err(e) && e.kind == ErrorKind::Closed),
    {
        self.writer.write(host, bytes)
    }

    /// One read step from the peer, taking at most `max` bytes; see
    /// [`Reader::poll_read`].
    pub fn poll_read(&mut self, host: &mut Host, max: usize) -> (r: ReadPoll)
        requires
            old(self).wf(*old(host)),
            old(host).inv(),
            max > 0,
        ensures
            final(self).writer == old(self).writer,
            final(self).reader.rx == old(self).reader.rx,
            final(self).wf(*final(host)),
            final(host).inv(),
            final(host).pipes@.len() == old(host).pipes@.len(),
            forall|i: int|
                0 <= i < old(host).pipes@.len() && i != old(self).reader.rx ==> final(host).pipes@[i] == old(host).pipes@[i],
            final(host).stream_queues == old(host).stream_queues,
            final(host).signals == old(host).signals,
            final(host).pipe(old(self).reader.rx).closed == old(host).pipe(
                old(self).reader.rx,
            ).closed,
            match r {
                ReadPoll::Data(d) => {
                    &&& old(self).reader.pending(*old(host)).len() > 0
                    &&& 0 < d@.len() <= max
                    &&& d@ == old(self).reader.pending(*old(host))[0].take(d@.len() as int)
                },
                ReadPoll::Eof => {
                    &&& old(self).reader.pending(*old(host)).len() == 0
                    &&& old(host).pipe(old(self).reader.rx).closed
                },
                ReadPoll::Pending => {
                    &&& old(self).reader.pending(*old(host)).len() == 0
                    &&& !old(host).pipe(old(self).reader.rx).closed
                },
            },
            match r {
                ReadPoll::Data(d) => final(self).reader.pending(*final(host)) == if d@.len() == old(self).reader.pending(*old(host))[0].len() {
                    old(self).reader.pending(*old(host)).drop_first()
                } else {
                    seq![old(self).reader.pending(*old(host))[0].skip(d@.len() as int)] + old(self).reader.pending(*old(host)).drop_first()
                },
                ReadPoll::Eof => final(self).reader.pending(*final(host)) == old(self).reader.pending(*old(host)),
                ReadPoll::Pending => final(self).reader.pending(*final(host)) == old(self).reader.pending(*old(host)),
            },
    {
        self.reader.poll_read(host, max)
    }
}

/// The dialing side of the boundary: wraps the acceptor a plugin exposed and
/// opens fresh virtual connections into it.
#[derive(Clone, Copy)]
pub struct Connector {
    pub inner: ffi::c_listener,
}

impl Connector {
    pub open spec fn wf(&self, host: Host) -> bool {
        self.inner.wf(host)
    }

    pub fn new(inner: ffi::c_listener) -> (r: Self)
        ensures
            r.inner == inner,
    {
        Self { inner }
    }

    /// Wraps the connector for shared use by concurrent dials.
    pub fn into_shared(self) -> (r: SharedConnector)
        ensures
            r.0 == self,
    {
        SharedConnector(self)
    }

    /// Dials one fresh connection: builds the local receiving half, crosses
    /// the boundary through the acceptor, and returns the stream made of the
    /// local reader and the sink the acceptor handed back. The matching
    /// endpoint is queued on the listening side. Dials fail only when the
    /// listener queue is full (`TooManyRequests`) or torn down (`Refused`).
    pub fn connect(&self, host: &mut Host) -> (r: Result<Stream, Error>)
        requires
            self.wf(*old(host)),
            old(host).inv(),
        ensures
            final(host).inv(),
            final(host).signals == old(host).signals,
            final(host).pipes@.len() == old(host).pipes@.len() + 2,
            forall|i: int|
                0 <= i < old(host).pipes@.len() ==> final(host).pipes@[i] == old(host).pipes@[i],
            final(host).stream_queues@.len() == old(host).stream_queues@.len(),
            forall|i: int|
                0 <= i < old(host).stream_queues@.len() && i != self.inner.queue ==> final(host).stream_queues@[i] == old(host).stream_queues@[i],
            final(host).queue(self.inner.queue).closed == old(host).queue(self.inner.queue).closed,
            r is Ok <==> (!old(host).queue(self.inner.queue).closed && old(host).queue(
                self.inner.queue,
            ).streams@.len() < old(host).queue(self.inner.queue).capacity),
            r matches Ok(s) ==> {
                &&& s == (Stream {
                    reader: Reader { buf: None, rx: old(host).pipes@.len() as usize },
                    writer: Writer {
                        is_closed: false,
                        inner: ffi::c_writer { pipe: (old(host).pipes@.len() + 1) as usize },
                    },
                })
                &&& s.wf(*final(host))
                &&& final(host).queue(self.inner.queue).streams@ == old(host).queue(
                    self.inner.queue,
                ).streams@.push(
                    (Stream {
                        reader: Reader { buf: None, rx: (old(host).pipes@.len() + 1) as usize },
                        writer: Writer {
                            is_closed: false,
                            inner: ffi::c_writer { pipe: old(host).pipes@.len() as usize },
                        },
                    }),
                )
                &&& final(host).pipe(s.reader.rx).content() == Seq::<Seq<u8>>::empty()
                &&& !final(host).pipe(s.reader.rx).closed
                &&& final(host).pipe(s.writer.inner.pipe).content() == Seq::<Seq<u8>>::empty()
                &&& !final(host).pipe(s.writer.inner.pipe).closed
                &&& final(host).pipe(s.writer.inner.pipe).capacity == CONCURRENT_WRITES_PER_STREAM
            },
            r matches Err(e) ==> {
                &&& final(host).queue(self.inner.queue).streams@ == old(host).queue(
                    self.inner.queue,
                ).streams@
                &&& (e.kind == ErrorKind::Refused <==> old(host).queue(self.inner.queue).closed)
                &&& (e.kind == ErrorKind::TooManyRequests <==> !old(host).queue(
                    self.inner.queue,
                ).closed)
            },
    {
        let (reader, c_reader) = Reader::new(host);
        match self.inner.accept(host, c_reader.into_c()) {
            Ok(sink) => Ok(Stream { reader, writer: Writer::new(sink) }),
            Err(e) => Err(e),
        }
    }
}

/// The bytes a reader still has to deliver, in order, with chunking erased.
pub open spec fn delivered_bytes(pending: Seq<Seq<u8>>) -> Seq<u8> {
    pending.flatten()
}

/// A successful write appends exactly its bytes to what the paired reader
/// will deliver: nothing lost, nothing reordered, nothing invented.
pub proof fn lemma_write_appends_bytes(content: Seq<Seq<u8>>, bytes: Seq<u8>)
    ensures
        delivered_bytes(content.push(bytes)) == delivered_bytes(content) + bytes,
{
    content.lemma_flatten_push(bytes);
}

/// Stream echo round trip: every read takes an exact prefix of the bytes
/// still owed, and leaves exactly the rest. Together with
/// [`lemma_write_appends_bytes`] this is the round trip: bytes written on one
/// end come back byte-for-byte on the other, however the reads are sized.
pub proof fn lemma_read_takes_prefix(pending: Seq<Seq<u8>>, k: int)
    requires
        pending.len() > 0,
        0 < k <= pending[0].len(),
    ensures
        delivered_bytes(pending) == pending[0].take(k) + delivered_bytes(
            if k == pending[0].len() {
                pending.drop_first()
            } else {
                seq![pending[0].skip(k)] + pending.drop_first()
            },
        ),
        pending[0].take(k) == delivered_bytes(pending).take(k),
{
    assert(pending.first() == pending[0]);
    assert(delivered_bytes(pending) == pending[0] + pending.drop_first().flatten());
    if k == pending[0].len() {
        assert(pending[0].take(k) =~= pending[0]);
        assert(pending[0].take(k) + delivered_bytes(pending.drop_first()) =~= delivered_bytes(
            pending,
        ));
    } else {
        let rest = seq![pending[0].skip(k)] + pending.drop_first();
        assert(rest.first() == pending[0].skip(k));
        assert(rest.drop_first() =~= pending.drop_first());
        assert(delivered_bytes(rest) == pending[0].skip(k) + pending.drop_first().flatten());
        assert(pending[0].take(k) + delivered_bytes(rest) =~= delivered_bytes(pending));
    }
    assert(pending[0].take(k) =~= delivered_bytes(pending).take(k));
}

/// A connector shared by concurrent dials; copies dial into the same acceptor.
#[derive(Clone, Copy)]
pub struct SharedConnector(pub Connector);

impl SharedConnector {
    /// Dials one fresh connection through the shared acceptor; see
    /// [`Connector::connect`].
    pub fn call(&self, host: &mut Host) -> (r: Result<Stream, Error>)
        requires
            self.0.wf(*old(host)),
            old(host).inv(),
        ensures
            final(host).inv(),
            r is Ok <==> (!old(host).queue(self.0.inner.queue).closed && old(host).queue(
                self.0.inner.queue,
            ).streams@.len() < old(host).queue(self.0.inner.queue).capacity),
    {
        self.0.connect(host)
    }
}

} // verus!
