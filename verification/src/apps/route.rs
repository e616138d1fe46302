//! The HTTP bridge's claim decision.
//!
//! The bridge intercepts an inbound request only if its path starts with one
//! of the routed prefixes and the following path segment names an app that is
//! currently in the routing table; everything else is declined so the host's
//! normal routes apply. The forwarding itself — rebuilding the request,
//! dialing the connector, relaying an upgraded connection — is plain I/O and
//! lives with the surrounding process; the decision is here.

use vstd::prelude::*;

use crate::apps::{App, Apps};
use crate::util::str_starts_with;
use vstd::string::StrSliceExecFns;

verus! {

/// Whether `path` begins with `prefix`.
pub open spec fn spec_has_prefix(path: Seq<char>, prefix: Seq<char>) -> bool {
    path.len() >= prefix.len() && path.take(prefix.len() as int) == prefix
}

/// Where the path segment starting at `from` ends: at the next slash, or at
/// the end of the path.
pub open spec fn spec_segment_end(path: Seq<char>, from: int) -> int
    decreases path.len() - from when 0 <= from <= path.len()
{
    if from >= path.len() {
        path.len() as int
    } else if path[from] == '/' {
        from
    } else {
        spec_segment_end(path, from + 1)
    }
}

/// The app name a path asks for: the segment after the `/api/` or `/assets/`
/// prefix, or nothing if neither prefix matches.
pub open spec fn spec_claimed_name(path: Seq<char>) -> Option<Seq<char>> {
    if spec_has_prefix(path, "/api/"@) {
        Some(path.subrange(5, spec_segment_end(path, 5)))
    } else if spec_has_prefix(path, "/assets/"@) {
        Some(path.subrange(8, spec_segment_end(path, 8)))
    } else {
        None
    }
}

/// The response status with which a plugin agrees to a protocol upgrade.
/// On seeing it the bridge takes both connections over as raw byte streams
/// and relays them until either side closes.
pub const STATUS_SWITCHING_PROTOCOLS: u16 = 101;

/// Whether a proxied response asks the bridge to tunnel the connection.
pub fn upgrades(status: u16) -> (r: bool)
    ensures
        r == (status == STATUS_SWITCHING_PROTOCOLS),
{
    status == STATUS_SWITCHING_PROTOCOLS
}

/// The raw route that forwards matching requests into plugins.
pub struct AppsRoute;

impl AppsRoute {
    /// Decides whether the bridge claims a request: the path must carry a
    /// routed prefix and its next segment must name an app that is in the
    /// table right now. A name that vanished from the table — say, racing its
    /// termination — is a decline, never an error.
    pub fn claim(&self, path: &str, apps: &Apps) -> (r: Option<App>)
        ensures
            r is Some <==> (spec_claimed_name(path@) matches Some(n) && apps.contains_name(n)),
            r matches Some(a) ==> (spec_claimed_name(path@) matches Some(n) && a.inner.name@ == n
                && exists|i: int|
                0 <= i < apps.inner.inner@.len() && #[trigger] apps.inner.inner@[i] == a),
    {
        proof {
            reveal_strlit("/api/");
            reveal_strlit("/assets/");
        }
        let from: usize = if str_starts_with(path, "/api/") {
            5
        } else if str_starts_with(path, "/assets/") {
            8
        } else {
            return None;
        };
        let end = segment_end(path, from);
        let name = path.substring_char(from, end);
        apps.get(name)
    }
}

/// Scans for the end of the path segment starting at `from`.
fn segment_end(path: &str, from: usize) -> (r: usize)
    requires
        from <= path@.len(),
    ensures
        r == spec_segment_end(path@, from as int),
        from <= r <= path@.len(),
{
    let len = path.unicode_len();
    let mut i: usize = from;
    while i < len
        invariant
            from <= i <= len,
            len == path@.len(),
            spec_segment_end(path@, from as int) == spec_segment_end(path@, i as int),
        decreases len - i,
    {
        if path.get_char(i) == '/' {
            return i;
        }
        i += 1;
    }
    i
}

} // verus!
