//! The host's in-memory session store, and the boundary table built from it.
//!
//! The store owns the live sessions; `to_c` takes the snapshot that crosses to
//! a plugin as its session-lookup table. No two stored sessions ever share a
//! token or a data token.

use vstd::prelude::*;

use crate::ffi;
use crate::users::data::{Session, Token};
use crate::users::sessions::session_matches_c;

verus! {

/// Whether a stored session answers a lookup for `token` at `now`.
pub open spec fn stored_live_at(s: Session, token: Seq<u8>, now: ffi::c_systemtime) -> bool {
    s.token.bytes@ == token && !now.spec_is_after(s.timeout.inner)
}

/// The same for lookups by data token.
pub open spec fn stored_live_by_data_at(s: Session, token: Seq<u8>, now: ffi::c_systemtime) -> bool {
    s.data_token.bytes@ == token && !now.spec_is_after(s.timeout.inner)
}

pub struct Sessions {
    pub sessions: Vec<Session>,
}

impl Sessions {
    /// No two stored sessions share a token or a data token.
    pub open spec fn wf(&self) -> bool {
        forall|i: int, j: int|
            0 <= i < j < self.sessions@.len() ==> (#[trigger] self.sessions@[i]).token.bytes@ != (
            #[trigger] self.sessions@[j]).token.bytes@ && self.sessions@[i].data_token.bytes@
                != self.sessions@[j].data_token.bytes@
    }

    pub fn new() -> (r: Self)
        ensures
            r.sessions@ == Seq::<Session>::empty(),
            r.wf(),
    {
        Self { sessions: Vec::new() }
    }

    /// Looks a session up by its token at the given instant; a timed-out
    /// session does not answer.
    pub fn find(&self, token: &Token, now: &ffi::c_systemtime) -> (r: Option<Session>)
        ensures
            r matches Some(s) ==> exists|i: int|
                0 <= i < self.sessions@.len() && #[trigger] self.sessions@[i] == s
                    && stored_live_at(s, token.bytes@, *now),
            r is None ==> forall|i: int|
                0 <= i < self.sessions@.len() ==> !stored_live_at(
                    #[trigger] self.sessions@[i],
                    token.bytes@,
                    *now,
                ),
    {
        let mut i: usize = 0;
        while i < self.sessions.len()
            invariant
                i <= self.sessions@.len(),
                forall|j: int|
                    0 <= j < i ==> !stored_live_at(
                        #[trigger] self.sessions@[j],
                        token.bytes@,
                        *now,
                    ),
            decreases self.sessions@.len() - i,
        {
            let s = self.sessions[i];
            if s.token.matches(token) && !now.is_after(&s.timeout.inner) {
                return Some(s);
            }
            i += 1;
        }
        None
    }

    /// Looks a session up by its data token at the given instant; a timed-out
    /// session does not answer.
    pub fn find_by_data(&self, token: &Token, now: &ffi::c_systemtime) -> (r: Option<Session>)
        ensures
            r matches Some(s) ==> exists|i: int|
                0 <= i < self.sessions@.len() && #[trigger] self.sessions@[i] == s
                    && stored_live_by_data_at(s, token.bytes@, *now),
            r is None ==> forall|i: int|
                0 <= i < self.sessions@.len() ==> !stored_live_by_data_at(
                    #[trigger] self.sessions@[i],
                    token.bytes@,
                    *now,
                ),
    {
        let mut i: usize = 0;
        while i < self.sessions.len()
            invariant
                i <= self.sessions@.len(),
                forall|j: int|
                    0 <= j < i ==> !stored_live_by_data_at(
                        #[trigger] self.sessions@[j],
                        token.bytes@,
                        *now,
                    ),
            decreases self.sessions@.len() - i,
        {
            let s = self.sessions[i];
            if s.data_token.matches(token) && !now.is_after(&s.timeout.inner) {
                return Some(s);
            }
            i += 1;
        }
        None
    }

    /// Drops the session stored under `token`, if any.
    #[verifier::loop_isolation(false)]
    pub fn remove(&mut self, token: &Token)
        requires
            old(self).wf(),
        ensures
            final(self).wf(),
            forall|i: int|
                0 <= i < final(self).sessions@.len() ==> (
                #[trigger] final(self).sessions@[i]).token.bytes@ != token.bytes@,
            forall|i: int|
                0 <= i < old(self).sessions@.len() && (#[trigger] old(self).sessions@[i]).token.bytes@
                    != token.bytes@ ==> final(self).sessions@.contains(old(self).sessions@[i]),
            forall|i: int|
                0 <= i < final(self).sessions@.len() ==> old(self).sessions@.contains(
                    #[trigger] final(self).sessions@[i],
                ),
    {
        let mut i: usize = 0;
        while i < self.sessions.len()
            invariant
                i <= self.sessions@.len(),
                self.sessions@ == old(self).sessions@,
                forall|j: int|
                    0 <= j < i ==> (#[trigger] self.sessions@[j]).token.bytes@ != token.bytes@,
            decreases self.sessions@.len() - i,
        {
            if self.sessions[i].token.matches(token) {
                let ghost idx = i as int;
                self.sessions.remove(i);
                proof {
                    lemma_remove_keeps_distinct(old(self).sessions@, idx);
                    assert forall|k: int|
                        0 <= k < self.sessions@.len() implies (
                    #[trigger] self.sessions@[k]).token.bytes@ != token.bytes@ by {
                        if k < idx {
                            assert(self.sessions@[k] == old(self).sessions@[k]);
                        } else {
                            assert(self.sessions@[k] == old(self).sessions@[k + 1]);
                            assert(old(self).sessions@[idx].token.bytes@ == token.bytes@);
                        }
                    }
                    assert forall|k: int|
                        0 <= k < old(self).sessions@.len() && (
                    #[trigger] old(self).sessions@[k]).token.bytes@
                        != token.bytes@ implies self.sessions@.contains(old(self).sessions@[k]) by {
                        if k < idx {
                            assert(self.sessions@[k] == old(self).sessions@[k]);
                        } else {
                            assert(self.sessions@[k - 1] == old(self).sessions@[k]);
                        }
                    }
                    assert forall|k: int|
                        0 <= k < self.sessions@.len() implies old(self).sessions@.contains(
                        #[trigger] self.sessions@[k],
                    ) by {
                        if k < idx {
                            assert(self.sessions@[k] == old(self).sessions@[k]);
                        } else {
                            assert(self.sessions@[k] == old(self).sessions@[k + 1]);
                        }
                    }
                }
                return ;
            }
            i += 1;
        }
        proof {
            assert forall|k: int|
                0 <= k < self.sessions@.len() implies old(self).sessions@.contains(
                #[trigger] self.sessions@[k],
            ) by {
                assert(self.sessions@[k] == old(self).sessions@[k]);
            }
        }
    }

    /// Drops the session stored under the data token `token`, if any.
    #[verifier::loop_isolation(false)]
    fn remove_by_data(&mut self, token: &Token)
        requires
            old(self).wf(),
        ensures
            final(self).wf(),
            forall|i: int|
                0 <= i < final(self).sessions@.len() ==> (
                #[trigger] final(self).sessions@[i]).data_token.bytes@ != token.bytes@,
            forall|i: int|
                0 <= i < old(self).sessions@.len() && (#[trigger] old(self).sessions@[i]).data_token.bytes@ != token.bytes@ ==> final(self).sessions@.contains(old(self).sessions@[i]),
            forall|i: int|
                0 <= i < final(self).sessions@.len() ==> old(self).sessions@.contains(
                    #[trigger] final(self).sessions@[i],
                ),
    {
        let mut i: usize = 0;
        while i < self.sessions.len()
            invariant
                i <= self.sessions@.len(),
                self.sessions@ == old(self).sessions@,
                forall|j: int|
                    0 <= j < i ==> (#[trigger] self.sessions@[j]).data_token.bytes@ != token.bytes@,
            decreases self.sessions@.len() - i,
        {
            if self.sessions[i].data_token.matches(token) {
                let ghost idx = i as int;
                self.sessions.remove(i);
                proof {
                    lemma_remove_keeps_distinct(old(self).sessions@, idx);
                    assert forall|k: int|
                        0 <= k < self.sessions@.len() implies (
                    #[trigger] self.sessions@[k]).data_token.bytes@ != token.bytes@ by {
                        if k < idx {
                            assert(self.sessions@[k] == old(self).sessions@[k]);
                        } else {
                            assert(self.sessions@[k] == old(self).sessions@[k + 1]);
                            assert(old(self).sessions@[idx].data_token.bytes@ == token.bytes@);
                        }
                    }
                    assert forall|k: int|
                        0 <= k < old(self).sessions@.len() && (
                    #[trigger] old(self).sessions@[k]).data_token.bytes@
                        != token.bytes@ implies self.sessions@.contains(old(self).sessions@[k]) by {
                        if k < idx {
                            assert(self.sessions@[k] == old(self).sessions@[k]);
                        } else {
                            assert(self.sessions@[k - 1] == old(self).sessions@[k]);
                        }
                    }
                    assert forall|k: int|
                        0 <= k < self.sessions@.len() implies old(self).sessions@.contains(
                        #[trigger] self.sessions@[k],
                    ) by {
                        if k < idx {
                            assert(self.sessions@[k] == old(self).sessions@[k]);
                        } else {
                            assert(self.sessions@[k] == old(self).sessions@[k + 1]);
                        }
                    }
                }
                return ;
            }
            i += 1;
        }
        proof {
            assert forall|k: int|
                0 <= k < self.sessions@.len() implies old(self).sessions@.contains(
                #[trigger] self.sessions@[k],
            ) by {
                assert(self.sessions@[k] == old(self).sessions@[k]);
            }
        }
    }

    /// Stores a session. A session that shared its token or its data token is
    /// replaced, so the store never answers one token with two sessions.
    pub fn insert(&mut self, sess: Session)
        requires
            old(self).wf(),
        ensures
            final(self).wf(),
            final(self).sessions@.len() > 0,
            final(self).sessions@.last() == sess,
            forall|i: int|
                0 <= i < old(self).sessions@.len() && (#[trigger] old(self).sessions@[i]).token.bytes@
                    != sess.token.bytes@ && old(self).sessions@[i].data_token.bytes@
                    != sess.data_token.bytes@ ==> final(self).sessions@.contains(
                    old(self).sessions@[i],
                ),
            forall|i: int|
                0 <= i < final(self).sessions@.len() ==> #[trigger] final(self).sessions@[i] == sess
                    || old(self).sessions@.contains(final(self).sessions@[i]),
    {
        self.remove(&sess.token);
        let ghost mid1 = self.sessions@;
        self.remove_by_data(&sess.data_token);
        let ghost mid2 = self.sessions@;
        self.sessions.push(sess);
        proof {
            assert forall|i: int, j: int|
                0 <= i < j < self.sessions@.len() implies (
            #[trigger] self.sessions@[i]).token.bytes@ != (
            #[trigger] self.sessions@[j]).token.bytes@ && self.sessions@[i].data_token.bytes@
                != self.sessions@[j].data_token.bytes@ by {
                if j < self.sessions@.len() - 1 {
                    assert(self.sessions@[i] == mid2[i]);
                    assert(self.sessions@[j] == mid2[j]);
                } else {
                    assert(self.sessions@[i] == mid2[i]);
                    assert(self.sessions@[j] == sess);
                    assert(mid1.contains(mid2[i]));
                    let w = choose|w: int| 0 <= w < mid1.len() && mid1[w] == mid2[i];
                    assert(mid1[w].token.bytes@ != sess.token.bytes@);
                    assert(mid2[i].data_token.bytes@ != sess.data_token.bytes@);
                }
            }
            assert forall|i: int|
                0 <= i < old(self).sessions@.len() && (#[trigger] old(self).sessions@[i]).token.bytes@
                    != sess.token.bytes@ && old(self).sessions@[i].data_token.bytes@
                    != sess.data_token.bytes@ implies self.sessions@.contains(
                old(self).sessions@[i],
            ) by {
                assert(mid1.contains(old(self).sessions@[i]));
                let w1 = choose|w: int| 0 <= w < mid1.len() && mid1[w] == old(self).sessions@[i];
                assert(mid2.contains(mid1[w1]));
                let w2 = choose|w: int| 0 <= w < mid2.len() && mid2[w] == mid1[w1];
                assert(self.sessions@[w2] == old(self).sessions@[i]);
            }
            assert forall|i: int|
                0 <= i < self.sessions@.len() implies #[trigger] self.sessions@[i] == sess || old(self).sessions@.contains(self.sessions@[i]) by {
                if i < self.sessions@.len() - 1 {
                    assert(self.sessions@[i] == mid2[i]);
                    assert(mid1.contains(mid2[i]));
                    let w = choose|w: int| 0 <= w < mid1.len() && mid1[w] == mid2[i];
                    assert(old(self).sessions@.contains(mid1[w]));
                }
            }
        }
    }

    /// Drops every session that has timed out at the given instant.
    #[verifier::loop_isolation(false)]
    pub fn cleanup(&mut self, now: &ffi::c_systemtime)
        requires
            old(self).wf(),
        ensures
            final(self).wf(),
            forall|i: int|
                0 <= i < final(self).sessions@.len() ==> !now.spec_is_after(
                    (#[trigger] final(self).sessions@[i]).timeout.inner,
                ) && old(self).sessions@.contains(final(self).sessions@[i]),
            forall|i: int|
                0 <= i < old(self).sessions@.len() && !now.spec_is_after(
                    (#[trigger] old(self).sessions@[i]).timeout.inner,
                ) ==> final(self).sessions@.contains(old(self).sessions@[i]),
    {
        let mut kept: Vec<Session> = Vec::new();
        let ghost mut src: Seq<int> = Seq::empty();
        let mut i: usize = 0;
        while i < self.sessions.len()
            invariant
                i <= self.sessions@.len(),
                self.sessions@ == old(self).sessions@,
                src.len() == kept@.len(),
                forall|k: int|
                    0 <= k < src.len() ==> 0 <= #[trigger] src[k] < i as int && kept@[k]
                        == self.sessions@[src[k]],
                forall|k1: int, k2: int|
                    0 <= k1 < k2 < src.len() ==> #[trigger] src[k1] < #[trigger] src[k2],
                forall|k: int|
                    0 <= k < kept@.len() ==> !now.spec_is_after(
                        (#[trigger] kept@[k]).timeout.inner,
                    ),
                forall|j: int|
                    0 <= j < i && !now.spec_is_after(
                        (#[trigger] self.sessions@[j]).timeout.inner,
                    ) ==> kept@.contains(self.sessions@[j]),
            decreases self.sessions@.len() - i,
        {
            let s = self.sessions[i];
            let ghost prev = kept@;
            if !now.is_after(&s.timeout.inner) {
                proof {
                    src = src.push(i as int);
                }
                kept.push(s);
                proof {
                    assert forall|j: int|
                        0 <= j < i as int + 1 && !now.spec_is_after(
                            (#[trigger] self.sessions@[j]).timeout.inner,
                        ) implies kept@.contains(self.sessions@[j]) by {
                        if j < i as int {
                            let w = choose|w: int|
                                0 <= w < prev.len() && prev[w] == self.sessions@[j];
                            assert(kept@[w] == self.sessions@[j]);
                        } else {
                            assert(kept@[kept@.len() - 1] == self.sessions@[j]);
                        }
                    }
                }
            }
            i += 1;
        }
        let ghost before = self.sessions@;
        self.sessions = kept;
        proof {
            assert forall|a: int, b: int|
                0 <= a < b < self.sessions@.len() implies (
            #[trigger] self.sessions@[a]).token.bytes@ != (
            #[trigger] self.sessions@[b]).token.bytes@ && self.sessions@[a].data_token.bytes@
                != self.sessions@[b].data_token.bytes@ by {
                assert(self.sessions@[a] == before[src[a]]);
                assert(self.sessions@[b] == before[src[b]]);
                assert(src[a] < src[b]);
            }
            assert forall|k: int|
                0 <= k < self.sessions@.len() implies old(self).sessions@.contains(
                #[trigger] self.sessions@[k],
            ) by {
                assert(self.sessions@[k] == before[src[k]]);
            }
        }
    }

    /// The snapshot handed across the boundary: the same sessions, record for
    /// record, in boundary form.
    pub fn to_c(&self) -> (r: ffi::c_sessions)
        ensures
            r.sessions@.len() == self.sessions@.len(),
            forall|i: int|
                0 <= i < self.sessions@.len() ==> session_matches_c(
                    #[trigger] self.sessions@[i],
                    r.sessions@[i],
                ),
    {
        let mut out: Vec<ffi::c_session> = Vec::new();
        let mut i: usize = 0;
        while i < self.sessions.len()
            invariant
                i <= self.sessions@.len(),
                out@.len() == i,
                forall|j: int|
                    0 <= j < i ==> session_matches_c(#[trigger] self.sessions@[j], out@[j]),
            decreases self.sessions@.len() - i,
        {
            let s = self.sessions[i];
            out.push(s.into_c());
            i += 1;
        }
        ffi::c_sessions { sessions: out }
    }
}

/// Removing one element keeps stored tokens pairwise distinct.
proof fn lemma_remove_keeps_distinct(s: Seq<Session>, idx: int)
    requires
        0 <= idx < s.len(),
        forall|i: int, j: int|
            0 <= i < j < s.len() ==> (#[trigger] s[i]).token.bytes@ != (#[trigger] s[j]).token.bytes@
                && s[i].data_token.bytes@ != s[j].data_token.bytes@,
    ensures
        forall|i: int, j: int|
            0 <= i < j < s.remove(idx).len() ==> (#[trigger] s.remove(idx)[i]).token.bytes@ != (
            #[trigger] s.remove(idx)[j]).token.bytes@ && s.remove(idx)[i].data_token.bytes@
                != s.remove(idx)[j].data_token.bytes@,
{
    let r = s.remove(idx);
    assert forall|i: int, j: int|
        0 <= i < j < r.len() implies (#[trigger] r[i]).token.bytes@ != (
    #[trigger] r[j]).token.bytes@ && r[i].data_token.bytes@ != r[j].data_token.bytes@ by {
        let oi = if i < idx {
            i
        } else {
            i + 1
        };
        let oj = if j < idx {
            j
        } else {
            j + 1
        };
        assert(r[i] == s[oi]);
        assert(r[j] == s[oj]);
    }
}

/// Lookups against the boundary snapshot answer exactly as the store itself
/// would: record-for-record equality keeps liveness at every instant.
pub proof fn lemma_snapshot_preserves_lookup(
    s: Session,
    c: ffi::c_session,
    token: Seq<u8>,
    now: ffi::c_systemtime,
)
    requires
        session_matches_c(s, c),
    ensures
        ffi::session_live_at(c, token, now) == stored_live_at(s, token, now),
        ffi::session_live_by_data_at(c, token, now) == stored_live_by_data_at(s, token, now),
{
}

} // verus!
