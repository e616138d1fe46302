//! The one send policy used by every bounded queue in the transport.

use vstd::prelude::*;

use crate::{Error, ErrorKind};
use vstd::string::StrSliceExecFns;

verus! {

/// Character-for-character string equality.
pub fn str_eq(a: &str, b: &str) -> (r: bool)
    ensures
        r == (a@ == b@),
{
    let alen = a.unicode_len();
    let blen = b.unicode_len();
    if alen != blen {
        return false;
    }
    let mut i: usize = 0;
    while i < alen
        invariant
            alen == a@.len(),
            blen == b@.len(),
            alen == blen,
            i <= alen,
            forall|j: int| 0 <= j < i ==> a@[j] == b@[j],
        decreases alen - i,
    {
        if a.get_char(i) != b.get_char(i) {
            return false;
        }
        i += 1;
    }
    proof {
        assert(a@ =~= b@);
    }
    true
}

/// Whether `s` starts with `prefix`, character for character.
pub fn str_starts_with(s: &str, prefix: &str) -> (r: bool)
    ensures
        r == (s@.len() >= prefix@.len() && s@.take(prefix@.len() as int) == prefix@),
{
    let plen = prefix.unicode_len();
    let slen = s.unicode_len();
    if slen < plen {
        return false;
    }
    let mut i: usize = 0;
    while i < plen
        invariant
            plen == prefix@.len(),
            slen == s@.len(),
            plen <= slen,
            i <= plen,
            forall|j: int| 0 <= j < i ==> s@[j] == prefix@[j],
        decreases plen - i,
    {
        if s.get_char(i) != prefix.get_char(i) {
            proof {
                assert(s@.take(prefix@.len() as int)[i as int] != prefix@[i as int]);
            }
            return false;
        }
        i += 1;
    }
    proof {
        assert(s@.take(prefix@.len() as int) =~= prefix@);
    }
    true
}

/// A non-blocking send into a bounded queue. Never waits: a closed queue
/// refuses the message, a full one reports transient backpressure. Blocking is
/// avoided deliberately because sends may run inside a plugin's callback,
/// where parking the calling thread risks deadlock against the plugin's own
/// runtime.
pub fn mpsc_send<T>(queue: &mut Vec<T>, capacity: usize, closed: bool, msg: T) -> (r: Result<
    (),
    Error,
>)
    ensures
        r is Ok <==> (!closed && old(queue)@.len() < capacity),
        closed ==> (r matches Err(e) && e.kind == ErrorKind::Refused),
        !closed && old(queue)@.len() >= capacity ==> (r matches Err(e) && e.kind
            == ErrorKind::TooManyRequests),
        r is Ok ==> final(queue)@ == old(queue)@.push(msg),
        r is Err ==> final(queue)@ == old(queue)@,
{
    if closed {
        Err(Error::new(ErrorKind::Refused, "mpsc channel closed"))
    } else if queue.len() >= capacity {
        Err(Error::new(ErrorKind::TooManyRequests, "mpsc channel full"))
    } else {
        queue.push(msg);
        Ok(())
    }
}

} // verus!
