//! The app registry and the reload supervisor.
//!
//! The registry is the routing table: the one structure the HTTP bridge
//! consults, mapping an app name to its live handle. It never holds two
//! entries for one name and never exposes a partially constructed handle.
//! The supervisor tracks the configured plugin files, reacts to file changes
//! by terminating the running instance, and drives the registry through the
//! load → terminating → terminated lifecycle. The surrounding process supplies
//! the file scanning, the timer and the actual library loading; every decision
//! is taken here.

pub mod api;
pub mod app_lib;
pub mod route;

use vstd::prelude::*;

use crate::apps::app_lib::{AppLib, Terminator, TERMINATED, TERMINATING};
use crate::ffi;
use crate::host::Host;
use crate::progress_channel as prog;
use crate::stream::Connector;
use crate::util::str_eq;

verus! {

/// An instance that ran shorter than this before terminating is treated as
/// crash-looping: its path only becomes eligible for a reload after a delay.
pub const MIN_RUNTIME_SECS: u64 = 4;

/// Which plugin files the supervisor watches: a directory of one folder per
/// app, and explicitly listed files.
#[derive(Debug, Clone)]
pub struct AppsConf {
    pub dir: Option<String>,
    pub files: Vec<String>,
}

/// One live, fully constructed app: its static names and the connector the
/// bridge dials through.
#[derive(Clone, Copy)]
pub struct AppInner {
    pub name: &'static str,
    pub js_entry: &'static str,
    pub css_entry: &'static str,
    pub connector: Connector,
}

/// A shareable handle on one live app.
#[derive(Clone, Copy)]
pub struct App {
    pub inner: AppInner,
}

pub struct AppsInner {
    pub inner: Vec<App>,
}

impl AppsInner {
    pub fn new() -> (r: Self)
        ensures
            r.inner@ == Seq::<App>::empty(),
    {
        Self { inner: Vec::new() }
    }
}

/// The routing table: app name to live handle. Concurrent readers see it
/// through snapshot-consistent reads; here the one writer owns it.
pub struct Apps {
    pub inner: AppsInner,
}

impl Apps {
    /// No two entries share a name.
    pub open spec fn wf(&self) -> bool {
        forall|i: int, j: int|
            0 <= i < j < self.inner.inner@.len() ==> (#[trigger] self.inner.inner@[i]).inner.name@
                != (#[trigger] self.inner.inner@[j]).inner.name@
    }

    pub open spec fn contains_name(&self, name: Seq<char>) -> bool {
        exists|i: int|
            0 <= i < self.inner.inner@.len() && (#[trigger] self.inner.inner@[i]).inner.name@
                == name
    }

    pub fn new() -> (r: Self)
        ensures
            r.inner.inner@ == Seq::<App>::empty(),
            r.wf(),
    {
        Self { inner: AppsInner::new() }
    }

    /// Whether an app of this name is currently routable.
    pub fn contains(&self, name: &str) -> (r: bool)
        ensures
            r == self.contains_name(name@),
    {
        let mut i: usize = 0;
        while i < self.inner.inner.len()
            invariant
                i <= self.inner.inner@.len(),
                forall|j: int|
                    0 <= j < i ==> (#[trigger] self.inner.inner@[j]).inner.name@ != name@,
            decreases self.inner.inner@.len() - i,
        {
            if str_eq(self.inner.inner[i].inner.name, name) {
                return true;
            }
            i += 1;
        }
        false
    }

    /// Looks the app of this name up; the handle comes back whole or not at
    /// all. An absent name is a normal miss, never an error: a request racing
    /// a termination is declined, not failed.
    pub fn get(&self, app: &str) -> (r: Option<App>)
        ensures
            r is Some <==> self.contains_name(app@),
            r matches Some(a) ==> a.inner.name@ == app@ && exists|i: int|
                0 <= i < self.inner.inner@.len() && #[trigger] self.inner.inner@[i] == a,
    {
        let mut i: usize = 0;
        while i < self.inner.inner.len()
            invariant
                i <= self.inner.inner@.len(),
                forall|j: int|
                    0 <= j < i ==> (#[trigger] self.inner.inner@[j]).inner.name@ != app@,
            decreases self.inner.inner@.len() - i,
        {
            if str_eq(self.inner.inner[i].inner.name, app) {
                return Some(self.inner.inner[i]);
            }
            i += 1;
        }
        None
    }

    /// The list the host's own API serves: one record per live app, with the
    /// empty asset entries reported as absent.
    pub fn to_api_apps(&self) -> (r: Vec<api::App>)
        ensures
            r@.len() == self.inner.inner@.len(),
            forall|i: int|
                0 <= i < r@.len() ==> {
                    let a = #[trigger] self.inner.inner@[i];
                    &&& r@[i].key@ == a.inner.name@
                    &&& (r@[i].js_entry matches Some(j) ==> j@ == a.inner.js_entry@)
                    &&& (r@[i].js_entry is None <==> a.inner.js_entry@.len() == 0)
                    &&& (r@[i].css_entry matches Some(c) ==> c@ == a.inner.css_entry@)
                    &&& (r@[i].css_entry is None <==> a.inner.css_entry@.len() == 0)
                },
    {
        let mut out: Vec<api::App> = Vec::new();
        let mut i: usize = 0;
        while i < self.inner.inner.len()
            invariant
                i <= self.inner.inner@.len(),
                out@.len() == i,
                forall|j: int|
                    0 <= j < i ==> {
                        let a = #[trigger] self.inner.inner@[j];
                        &&& out@[j].key@ == a.inner.name@
                        &&& (out@[j].js_entry matches Some(e) ==> e@ == a.inner.js_entry@)
                        &&& (out@[j].js_entry is None <==> a.inner.js_entry@.len() == 0)
                        &&& (out@[j].css_entry matches Some(e) ==> e@ == a.inner.css_entry@)
                        &&& (out@[j].css_entry is None <==> a.inner.css_entry@.len() == 0)
                    },
            decreases self.inner.inner@.len() - i,
        {
            let a = self.inner.inner[i];
            let js_entry = if a.inner.js_entry.is_empty() {
                None
            } else {
                Some(a.inner.js_entry.to_owned())
            };
            let css_entry = if a.inner.css_entry.is_empty() {
                None
            } else {
                Some(a.inner.css_entry.to_owned())
            };
            out.push(api::App { key: a.inner.name.to_owned(), js_entry, css_entry });
            i += 1;
        }
        out
    }

    /// Registers a live app under its name. An entry already holding that
    /// name is replaced, so names stay unique.
    #[verifier::loop_isolation(false)]
    pub fn insert(&mut self, app: App)
        requires
            old(self).wf(),
        ensures
            final(self).wf(),
            final(self).contains_name(app.inner.name@),
            exists|i: int|
                0 <= i < final(self).inner.inner@.len() && #[trigger] final(self).inner.inner@[i]
                    == app,
            forall|i: int|
                0 <= i < old(self).inner.inner@.len() && (#[trigger] old(self).inner.inner@[i]).inner.name@ != app.inner.name@ ==> final(self).inner.inner@.contains(old(self).inner.inner@[i]),
            forall|i: int|
                0 <= i < final(self).inner.inner@.len() ==> #[trigger] final(self).inner.inner@[i]
                    == app || (old(self).inner.inner@.contains(final(self).inner.inner@[i]) && (
                final(self).inner.inner@[i]).inner.name@ != app.inner.name@),
    {
        let mut i: usize = 0;
        while i < self.inner.inner.len()
            invariant
                i <= self.inner.inner@.len(),
                self.inner.inner@ == old(self).inner.inner@,
                forall|j: int|
                    0 <= j < i ==> (#[trigger] self.inner.inner@[j]).inner.name@
                        != app.inner.name@,
            decreases self.inner.inner@.len() - i,
        {
            if str_eq(self.inner.inner[i].inner.name, app.inner.name) {
                let ghost idx = i as int;
                self.inner.inner.set(i, app);
                proof {
                    assert(self.inner.inner@[idx] == app);
                    assert forall|a: int, b: int|
                        0 <= a < b < self.inner.inner@.len() implies (
                    #[trigger] self.inner.inner@[a]).inner.name@ != (
                    #[trigger] self.inner.inner@[b]).inner.name@ by {
                        assert(old(self).inner.inner@[a].inner.name@ != old(self).inner.inner@[b].inner.name@);
                    }
                    assert forall|k: int|
                        0 <= k < old(self).inner.inner@.len() && (#[trigger] old(self).inner.inner@[k]).inner.name@ != app.inner.name@ implies self
                        .inner
                        .inner@.contains(old(self).inner.inner@[k]) by {
                        assert(self.inner.inner@[k] == old(self).inner.inner@[k]);
                    }
                    assert forall|k: int|
                        0 <= k < self.inner.inner@.len() implies #[trigger] self.inner.inner@[k]
                        == app || (old(self).inner.inner@.contains(self.inner.inner@[k]) && (
                    self.inner.inner@[k]).inner.name@ != app.inner.name@) by {
                        if k != idx {
                            assert(self.inner.inner@[k] == old(self).inner.inner@[k]);
                        }
                    }
                }
                return ;
            }
            i += 1;
        }
        self.inner.inner.push(app);
        proof {
            assert(self.inner.inner@[self.inner.inner@.len() - 1] == app);
            assert forall|a: int, b: int|
                0 <= a < b < self.inner.inner@.len() implies (
            #[trigger] self.inner.inner@[a]).inner.name@ != (
            #[trigger] self.inner.inner@[b]).inner.name@ by {
                if b < self.inner.inner@.len() - 1 {
                    assert(self.inner.inner@[a] == old(self).inner.inner@[a]);
                    assert(self.inner.inner@[b] == old(self).inner.inner@[b]);
                } else {
                    assert(self.inner.inner@[a] == old(self).inner.inner@[a]);
                }
            }
            assert forall|k: int|
                0 <= k < old(self).inner.inner@.len() && (#[trigger] old(self).inner.inner@[k]).inner.name@ != app.inner.name@ implies self.inner.inner@.contains(
                old(self).inner.inner@[k],
            ) by {
                assert(self.inner.inner@[k] == old(self).inner.inner@[k]);
            }
            assert forall|k: int|
                0 <= k < self.inner.inner@.len() implies #[trigger] self.inner.inner@[k] == app || (
            old(self).inner.inner@.contains(self.inner.inner@[k]) && (
            self.inner.inner@[k]).inner.name@ != app.inner.name@) by {
                if k < self.inner.inner@.len() - 1 {
                    assert(self.inner.inner@[k] == old(self).inner.inner@[k]);
                }
            }
        }
    }

    /// Drops the entry of this name: the app stops being routable the moment
    /// this returns. Streams already dialed keep running; they do not go
    /// through the table.
    #[verifier::loop_isolation(false)]
    pub fn remove(&mut self, name: &str)
        requires
            old(self).wf(),
        ensures
            final(self).wf(),
            !final(self).contains_name(name@),
            forall|i: int|
                0 <= i < old(self).inner.inner@.len() && (#[trigger] old(self).inner.inner@[i]).inner.name@ != name@ ==> final(self).inner.inner@.contains(
                    old(self).inner.inner@[i],
                ),
            forall|i: int|
                0 <= i < final(self).inner.inner@.len() ==> old(self).inner.inner@.contains(
                    #[trigger] final(self).inner.inner@[i],
                ),
    {
        let mut i: usize = 0;
        while i < self.inner.inner.len()
            invariant
                i <= self.inner.inner@.len(),
                self.inner.inner@ == old(self).inner.inner@,
                forall|j: int| 0 <= j < i ==> (#[trigger] self.inner.inner@[j]).inner.name@ != name@,
            decreases self.inner.inner@.len() - i,
        {
            if str_eq(self.inner.inner[i].inner.name, name) {
                let ghost idx = i as int;
                self.inner.inner.remove(i);
                proof {
                    assert forall|a: int, b: int|
                        0 <= a < b < self.inner.inner@.len() implies (
                    #[trigger] self.inner.inner@[a]).inner.name@ != (
                    #[trigger] self.inner.inner@[b]).inner.name@ by {
                        let oa = if a < idx {
                            a
                        } else {
                            a + 1
                        };
                        let ob = if b < idx {
                            b
                        } else {
                            b + 1
                        };
                        assert(self.inner.inner@[a] == old(self).inner.inner@[oa]);
                        assert(self.inner.inner@[b] == old(self).inner.inner@[ob]);
                    }
                    assert forall|k: int|
                        0 <= k < self.inner.inner@.len() implies (
                    #[trigger] self.inner.inner@[k]).inner.name@ != name@ by {
                        if k < idx {
                            assert(self.inner.inner@[k] == old(self).inner.inner@[k]);
                        } else {
                            assert(self.inner.inner@[k] == old(self).inner.inner@[k + 1]);
                            assert(old(self).inner.inner@[idx].inner.name@ == name@);
                        }
                    }
                    assert forall|k: int|
                        0 <= k < old(self).inner.inner@.len() && (#[trigger] old(self).inner.inner@[k]).inner.name@ != name@ implies self.inner.inner@.contains(
                        old(self).inner.inner@[k],
                    ) by {
                        if k < idx {
                            assert(self.inner.inner@[k] == old(self).inner.inner@[k]);
                        } else {
                            assert(self.inner.inner@[k - 1] == old(self).inner.inner@[k]);
                        }
                    }
                    assert forall|k: int|
                        0 <= k < self.inner.inner@.len() implies old(self).inner.inner@.contains(
                        #[trigger] self.inner.inner@[k],
                    ) by {
                        if k < idx {
                            assert(self.inner.inner@[k] == old(self).inner.inner@[k]);
                        } else {
                            assert(self.inner.inner@[k] == old(self).inner.inner@[k + 1]);
                        }
                    }
                }
                return ;
            }
            i += 1;
        }
        proof {
            assert forall|k: int|
                0 <= k < self.inner.inner@.len() implies old(self).inner.inner@.contains(
                #[trigger] self.inner.inner@[k],
            ) by {
                assert(self.inner.inner@[k] == old(self).inner.inner@[k]);
            }
        }
    }
}

/// One configured plugin file as the supervisor tracks it: the path, the
/// modification time it was loaded from, the instant of the load, and the
/// terminator of the running instance while one exists.
pub struct PluginFileRecord {
    pub path: String,
    pub last_modified: ffi::c_systemtime,
    pub inserted: ffi::c_systemtime,
    pub terminator: Option<Terminator>,
}

impl PluginFileRecord {
    pub open spec fn wf(&self, host: Host) -> bool {
        match self.terminator {
            Some(t) => t.wf(host),
            None => true,
        }
    }
}

/// One tracked running instance, as the supervisor's multi-wait sees it.
pub struct NotifiedApp {
    pub name: &'static str,
    pub file: String,
    pub notify: prog::Receiver,
}

/// The dynamic set of lifecycle signals the supervisor waits on; instances
/// are added on load and taken out once terminated.
pub struct Notifiers {
    pub inner: Vec<NotifiedApp>,
}

impl Notifiers {
    pub open spec fn wf(&self, host: Host) -> bool {
        forall|i: int| 0 <= i < self.inner@.len() ==> (#[trigger] self.inner@[i]).notify.wf(host)
    }

    pub fn new() -> (r: Self)
        ensures
            r.inner@ == Seq::<NotifiedApp>::empty(),
    {
        Self { inner: Vec::new() }
    }

    pub fn is_empty(&self) -> (r: bool)
        ensures
            r == (self.inner@.len() == 0),
    {
        self.inner.is_empty()
    }

    pub fn get(&self, idx: usize) -> (r: &NotifiedApp)
        requires
            idx < self.inner@.len(),
        ensures
            *r == self.inner@[idx as int],
    {
        &self.inner[idx]
    }

    pub fn push(&mut self, app: NotifiedApp)
        ensures
            final(self).inner@ == old(self).inner@.push(app),
    {
        self.inner.push(app);
    }

    /// Takes a tracked instance out; the last one moves into the gap.
    pub fn take(&mut self, id: usize) -> (r: NotifiedApp)
        requires
            id < old(self).inner@.len(),
        ensures
            r == old(self).inner@[id as int],
            final(self).inner@ == old(self).inner@.update(
                id as int,
                old(self).inner@.last(),
            ).drop_last(),
    {
        self.inner.swap_remove(id)
    }

    /// The multi-wait over every tracked instance: returns the first whose
    /// signal advanced past what was last observed, updating that observer.
    /// In a running process this is awaited together with the scan timer.
    pub fn notified(&mut self, host: &Host) -> (r: Notified)
        requires
            old(self).wf(*host),
        ensures
            notified_post(*old(self), *final(self), *host, r),
    {
        Notified::new(self, host)
    }
}

/// What one poll of the supervisor's multi-wait did: either instance `i`'s
/// signal advanced — its observer cursor moved to the stored value, everything
/// else untouched — or nothing is ready and nothing changed.
pub open spec fn notified_post(
    pre: Notifiers,
    post: Notifiers,
    host: Host,
    r: Notified,
) -> bool {
    match r.ready {
        Some(i) => {
            &&& i < pre.inner@.len()
            &&& prog::changed_ready(
                host.signal_val(pre.inner@[i as int].notify.id),
                pre.inner@[i as int].notify.received,
            )
            &&& forall|j: int|
                0 <= j < i ==> !prog::changed_ready(
                    host.signal_val((#[trigger] pre.inner@[j]).notify.id),
                    pre.inner@[j].notify.received,
                )
            &&& post.inner@ == pre.inner@.update(
                i as int,
                (NotifiedApp {
                    name: pre.inner@[i as int].name,
                    file: pre.inner@[i as int].file,
                    notify: (prog::Receiver {
                        id: pre.inner@[i as int].notify.id,
                        received: host.signal_val(pre.inner@[i as int].notify.id),
                    }),
                }),
            )
        },
        None => {
            &&& post.inner@ == pre.inner@
            &&& forall|j: int|
                0 <= j < pre.inner@.len() ==> !prog::changed_ready(
                    host.signal_val((#[trigger] pre.inner@[j]).notify.id),
                    pre.inner@[j].notify.received,
                )
        },
    }
}

/// A completed poll of the multi-wait; `poll` reports which instance, if any,
/// was ready.
pub struct Notified {
    pub ready: Option<usize>,
}

impl Notified {
    /// Polls every tracked signal once, stopping at the first that advanced.
    #[verifier::loop_isolation(false)]
    pub fn new(notifiers: &mut Notifiers, host: &Host) -> (r: Notified)
        requires
            old(notifiers).wf(*host),
        ensures
            notified_post(*old(notifiers), *final(notifiers), *host, r),
    {
        let mut i: usize = 0;
        while i < notifiers.inner.len()
            invariant
                i <= notifiers.inner@.len(),
                notifiers.inner@ == old(notifiers).inner@,
                forall|j: int|
                    0 <= j < i ==> !prog::changed_ready(
                        host.signal_val((#[trigger] notifiers.inner@[j]).notify.id),
                        notifiers.inner@[j].notify.received,
                    ),
            decreases notifiers.inner@.len() - i,
        {
            let ghost pre = notifiers.inner@;
            let n = &mut notifiers.inner[i];
            if n.notify.changed(host) {
                proof {
                    assert(notifiers.inner@ =~= pre.update(i as int, notifiers.inner@[i as int]));
                }
                return Notified { ready: Some(i) };
            }
            proof {
                assert(notifiers.inner@[i as int] == pre[i as int]);
                assert(notifiers.inner@ =~= pre);
            }
            i += 1;
        }
        Notified { ready: None }
    }

    pub fn poll(&self) -> (r: Option<usize>)
        ensures
            r == self.ready,
    {
        self.ready
    }
}

/// Whether an instance loaded at `inserted` counts as crash-looping when it
/// terminates at `now`: it ran shorter than the minimum runtime.
pub open spec fn spec_crash_looped(inserted: ffi::c_systemtime, now: ffi::c_systemtime) -> bool {
    (now.secs as int) < inserted.secs + MIN_RUNTIME_SECS
}

/// What one supervisor reaction to an advanced lifecycle signal decided.
pub enum LifecycleStep {
    /// The signal moved but the instance still runs; nothing to do.
    Running,
    /// Termination was requested: the app just stopped being routable, while
    /// streams already in flight keep being served.
    Terminating,
    /// The plugin confirmed shutdown: bookkeeping is dropped, the caller may
    /// now schedule the library unload (after the in-flight-calls delay), and
    /// a crash-looping instance's path must wait before it is reloaded.
    Terminated { crash_looped: bool },
}

/// What one look at a configured file decided.
pub enum FileStep {
    /// The file is not tracked yet: the caller should load it and `register`
    /// the result.
    Unknown,
    /// Tracked and unchanged on disk; nothing to do.
    Unchanged,
    /// Tracked, but its content changed: the running instance (if any) was
    /// sent a terminate request. No replacement is loaded until the old
    /// instance is gone, so one name never has two live instances.
    Replaced,
}

/// The reload supervisor: tracks configured plugin files, terminates stale
/// instances and keeps the routing table in step with the lifecycle signals.
pub struct Supervisor {
    pub raw_apps: Vec<PluginFileRecord>,
    pub notifiers: Notifiers,
}

impl Supervisor {
    pub open spec fn paths_distinct(&self) -> bool {
        forall|i: int, j: int|
            0 <= i < j < self.raw_apps@.len() ==> (#[trigger] self.raw_apps@[i]).path@ != (
            #[trigger] self.raw_apps@[j]).path@
    }

    pub open spec fn wf(&self, host: Host) -> bool {
        &&& self.paths_distinct()
        &&& forall|i: int|
            0 <= i < self.raw_apps@.len() ==> (#[trigger] self.raw_apps@[i]).wf(host)
        &&& self.notifiers.wf(host)
    }

    pub open spec fn has_path(&self, path: Seq<char>) -> bool {
        exists|i: int|
            0 <= i < self.raw_apps@.len() && (#[trigger] self.raw_apps@[i]).path@ == path
    }

    pub fn new() -> (r: Self)
        ensures
            r.raw_apps@ == Seq::<PluginFileRecord>::empty(),
            r.notifiers.inner@ == Seq::<NotifiedApp>::empty(),
    {
        Self { raw_apps: Vec::new(), notifiers: Notifiers::new() }
    }

    /// One discovery step for one configured file with its current
    /// modification time. An unknown file asks the caller to load it; a known
    /// file whose content changed has its running instance terminated — and
    /// deliberately nothing loaded yet, so the name never has two live
    /// instances.
    #[verifier::loop_isolation(false)]
    pub fn see_file(&mut self, host: &mut Host, path: &str, modified: ffi::c_systemtime) -> (r:
        FileStep)
        requires
            old(self).wf(*old(host)),
            old(host).inv(),
        ensures
            final(host).inv(),
            final(self).wf(*final(host)),
            final(host).pipes == old(host).pipes,
            final(host).stream_queues == old(host).stream_queues,
            final(host).signals@.len() == old(host).signals@.len(),
            forall|i: int|
                0 <= i < old(host).signals@.len() ==> final(host).signals@[i] >= #[trigger] old(
                    host,
                ).signals@[i],
            final(self).notifiers.inner@ == old(self).notifiers.inner@,
            final(self).raw_apps@.len() == old(self).raw_apps@.len(),
            forall|i: int|
                0 <= i < old(self).raw_apps@.len() && (#[trigger] old(self).raw_apps@[i]).path@
                    != path@ ==> final(self).raw_apps@[i] == old(self).raw_apps@[i],
            forall|i: int|
                0 <= i < old(self).raw_apps@.len() && (#[trigger] old(self).raw_apps@[i]).path@
                    == path@ ==> {
                    let rec = final(self).raw_apps@[i];
                    &&& rec.path == old(self).raw_apps@[i].path
                    &&& rec.last_modified == old(self).raw_apps@[i].last_modified
                    &&& rec.inserted == old(self).raw_apps@[i].inserted
                    &&& (old(self).raw_apps@[i].last_modified == modified ==> rec == old(
                        self,
                    ).raw_apps@[i])
                    &&& (old(self).raw_apps@[i].last_modified != modified ==> rec.terminator
                        is None)
                    &&& (old(self).raw_apps@[i].last_modified != modified ==> (match old(
                        self,
                    ).raw_apps@[i].terminator {
                        Some(t) => final(host).signal_val(t.notify.id) >= TERMINATING,
                        None => true,
                    }))
                },
            r is Unknown <==> !old(self).has_path(path@),
            r is Unknown ==> final(self).raw_apps@ == old(self).raw_apps@ && final(host).signals
                == old(host).signals,
            r is Unchanged ==> exists|i: int|
                0 <= i < old(self).raw_apps@.len() && (#[trigger] old(self).raw_apps@[i]).path@
                    == path@ && old(self).raw_apps@[i].last_modified == modified,
            r is Replaced ==> exists|i: int|
                0 <= i < old(self).raw_apps@.len() && (#[trigger] old(self).raw_apps@[i]).path@
                    == path@ && old(self).raw_apps@[i].last_modified != modified,
    {
        let mut i: usize = 0;
        while i < self.raw_apps.len()
            invariant
                i <= self.raw_apps@.len(),
                self.raw_apps@ == old(self).raw_apps@,
                self.notifiers == old(self).notifiers,
                host == old(host),
                forall|j: int| 0 <= j < i ==> (#[trigger] self.raw_apps@[j]).path@ != path@,
            decreases self.raw_apps@.len() - i,
        {
            let found = str_eq(self.raw_apps[i].path.as_str(), path);
            if found {
                if self.raw_apps[i].last_modified == modified {
                    proof {
                        assert(self.raw_apps@[i as int].path@ == path@);
                    }
                    return FileStep::Unchanged;
                }
                let ghost idx = i as int;
                let rec = &mut self.raw_apps[i];
                let term = rec.terminator.take();
                proof {
                    assert(self.raw_apps@ =~= old(self).raw_apps@.update(
                        idx,
                        self.raw_apps@[idx],
                    ));
                }
                match term {
                    Some(t) => {
                        proof {
                            assert(old(self).raw_apps@[idx].wf(*host));
                        }
                        t.terminate(host);
                    },
                    None => {},
                }
                proof {
                    assert forall|k: int|
                        0 <= k < self.raw_apps@.len() implies (#[trigger] self.raw_apps@[k]).wf(
                        *host,
                    ) by {
                        assert(old(self).raw_apps@[k].wf(*old(host)));
                        if k != idx {
                            assert(self.raw_apps@[k] == old(self).raw_apps@[k]);
                        }
                    }
                    assert forall|k: int|
                        0 <= k < self.notifiers.inner@.len() implies (
                    #[trigger] self.notifiers.inner@[k]).notify.wf(*host) by {
                        assert(old(self).notifiers.inner@[k].notify.wf(*old(host)));
                    }
                }
                return FileStep::Replaced;
            }
            i += 1;
        }
        FileStep::Unknown
    }

    /// Registers a successful load: the handle becomes routable under its
    /// name at once, the file is tracked, and the instance's lifecycle signal
    /// joins the multi-wait.
    pub fn register(
        &mut self,
        host: &Host,
        apps: &mut Apps,
        lib: AppLib,
        path: String,
        modified: ffi::c_systemtime,
        now: ffi::c_systemtime,
    )
        requires
            old(self).wf(*host),
            old(apps).wf(),
            lib.terminator.wf(*host),
            lib.terminated.wf(*host),
            !old(self).has_path(path@),
        ensures
            final(self).wf(*host),
            final(apps).wf(),
            final(apps).contains_name(lib.name@),
            exists|i: int|
                0 <= i < final(apps).inner.inner@.len() && #[trigger] final(apps).inner.inner@[i]
                    == (App {
                    inner: AppInner {
                        name: lib.name,
                        js_entry: lib.js_entry,
                        css_entry: lib.css_entry,
                        connector: lib.connector,
                    },
                }),
            forall|i: int|
                0 <= i < old(apps).inner.inner@.len() && (#[trigger] old(
                    apps,
                ).inner.inner@[i]).inner.name@ != lib.name@ ==> final(apps).inner.inner@.contains(
                    old(apps).inner.inner@[i],
                ),
            final(self).raw_apps@.len() == old(self).raw_apps@.len() + 1,
            forall|i: int|
                0 <= i < old(self).raw_apps@.len() ==> final(self).raw_apps@[i] == #[trigger] old(
                    self,
                ).raw_apps@[i],
            final(self).raw_apps@.last().path@ == path@,
            final(self).raw_apps@.last().last_modified == modified,
            final(self).raw_apps@.last().inserted == now,
            final(self).raw_apps@.last().terminator == Some(lib.terminator),
            final(self).notifiers.inner@ == old(self).notifiers.inner@.push(
                (NotifiedApp { name: lib.name, file: path, notify: lib.terminated }),
            ),
    {
        apps.insert(
            App {
                inner: AppInner {
                    name: lib.name,
                    js_entry: lib.js_entry,
                    css_entry: lib.css_entry,
                    connector: lib.connector,
                },
            },
        );
        let file = path.clone();
        self.raw_apps.push(
            PluginFileRecord {
                path,
                last_modified: modified,
                inserted: now,
                terminator: Some(lib.terminator),
            },
        );
        self.notifiers.push(NotifiedApp { name: lib.name, file, notify: lib.terminated });
        proof {
            assert forall|a: int, b: int|
                0 <= a < b < self.raw_apps@.len() implies (#[trigger] self.raw_apps@[a]).path@ != (
            #[trigger] self.raw_apps@[b]).path@ by {
                if b < self.raw_apps@.len() - 1 {
                    assert(self.raw_apps@[a] == old(self).raw_apps@[a]);
                    assert(self.raw_apps@[b] == old(self).raw_apps@[b]);
                } else {
                    assert(self.raw_apps@[a] == old(self).raw_apps@[a]);
                    assert(!old(self).has_path(self.raw_apps@[b].path@));
                }
            }
        }
    }

    /// The supervisor's reaction to instance `idx`'s signal having advanced.
    /// At `TERMINATING` the app stops being routable at once; at `TERMINATED`
    /// its bookkeeping is dropped and the caller may schedule the unload —
    /// never earlier, so the library is never unloaded under a running
    /// plugin.
    #[verifier::loop_isolation(false)]
    pub fn on_notified(
        &mut self,
        host: &Host,
        apps: &mut Apps,
        idx: usize,
        now: ffi::c_systemtime,
    ) -> (r: LifecycleStep)
        requires
            old(self).wf(*host),
            old(apps).wf(),
            idx < old(self).notifiers.inner@.len(),
        ensures
            final(self).wf(*host),
            final(apps).wf(),
            r is Running <==> host.signal_val(old(self).notifiers.inner@[idx as int].notify.id)
                < TERMINATING,
            r is Terminating <==> host.signal_val(old(self).notifiers.inner@[idx as int].notify.id)
                == TERMINATING,
            (r matches LifecycleStep::Terminated { .. }) <==> host.signal_val(
                old(self).notifiers.inner@[idx as int].notify.id,
            ) >= TERMINATED,
            host.signal_val(old(self).notifiers.inner@[idx as int].notify.id) >= TERMINATING
                ==> !final(apps).contains_name(old(self).notifiers.inner@[idx as int].name@),
            forall|i: int|
                0 <= i < old(apps).inner.inner@.len() && (#[trigger] old(
                    apps,
                ).inner.inner@[i]).inner.name@ != old(self).notifiers.inner@[idx as int].name@
                    ==> final(apps).inner.inner@.contains(old(apps).inner.inner@[i]),
            r is Running ==> final(apps).inner.inner@ == old(apps).inner.inner@ && *final(self)
                == *old(self),
            r is Terminating ==> final(self).notifiers.inner@ == old(self).notifiers.inner@
                && final(self).raw_apps@ == old(self).raw_apps@,
            (r matches LifecycleStep::Terminated { .. }) ==> final(self).notifiers.inner@ == old(
                self,
            ).notifiers.inner@.update(idx as int, old(self).notifiers.inner@.last()).drop_last(),
            r matches LifecycleStep::Terminated { crash_looped } ==> forall|i: int|
                0 <= i < old(self).raw_apps@.len() && (#[trigger] old(self).raw_apps@[i]).path@
                    == old(self).notifiers.inner@[idx as int].file@ ==> crash_looped
                    == spec_crash_looped(old(self).raw_apps@[i].inserted, now),
    {
        let state = self.notifiers.get(idx).notify.val(host);
        if state == TERMINATING {
            let name = self.notifiers.get(idx).name;
            apps.remove(name);
            return LifecycleStep::Terminating;
        }
        if state >= TERMINATED {
            let app = self.notifiers.take(idx);
            apps.remove(app.name);
            let crash_looped = self.drop_record(host, app.file.as_str(), now);
            proof {
                assert forall|k: int|
                    0 <= k < self.notifiers.inner@.len() implies (
                #[trigger] self.notifiers.inner@[k]).notify.wf(*host) by {
                    if k == idx as int && k < old(self).notifiers.inner@.len() - 1 {
                        assert(self.notifiers.inner@[k] == old(self).notifiers.inner@[old(
                            self,
                        ).notifiers.inner@.len() - 1]);
                    } else {
                        assert(self.notifiers.inner@[k] == old(self).notifiers.inner@[k]);
                    }
                }
            }
            return LifecycleStep::Terminated { crash_looped };
        }
        LifecycleStep::Running
    }

    /// Drops the bookkeeping record of `path` and reports whether the
    /// instance it tracked crash-looped, terminating at `now`.
    #[verifier::loop_isolation(false)]
    fn drop_record(&mut self, host: &Host, path: &str, now: ffi::c_systemtime) -> (r: bool)
        requires
            old(self).wf(*host),
        ensures
            final(self).wf(*host),
            final(self).notifiers == old(self).notifiers,
            forall|i: int|
                0 <= i < final(self).raw_apps@.len() ==> (
                #[trigger] final(self).raw_apps@[i]).path@ != path@,
            forall|i: int|
                0 <= i < old(self).raw_apps@.len() && (#[trigger] old(self).raw_apps@[i]).path@
                    != path@ ==> final(self).raw_apps@.contains(old(self).raw_apps@[i]),
            forall|i: int|
                0 <= i < final(self).raw_apps@.len() ==> old(self).raw_apps@.contains(
                    #[trigger] final(self).raw_apps@[i],
                ),
            forall|i: int|
                0 <= i < old(self).raw_apps@.len() && (#[trigger] old(self).raw_apps@[i]).path@
                    == path@ ==> r == spec_crash_looped(old(self).raw_apps@[i].inserted, now),
    {
        let mut i: usize = 0;
        while i < self.raw_apps.len()
            invariant
                i <= self.raw_apps@.len(),
                self.raw_apps@ == old(self).raw_apps@,
                self.notifiers == old(self).notifiers,
                forall|j: int| 0 <= j < i ==> (#[trigger] self.raw_apps@[j]).path@ != path@,
            decreases self.raw_apps@.len() - i,
        {
            if str_eq(self.raw_apps[i].path.as_str(), path) {
                let ghost idx = i as int;
                let inserted = self.raw_apps[i].inserted;
                self.raw_apps.remove(i);
                let uptime = if now.secs >= inserted.secs {
                    now.secs - inserted.secs
                } else {
                    0
                };
                proof {
                    assert forall|a: int, b: int|
                        0 <= a < b < self.raw_apps@.len() implies (
                    #[trigger] self.raw_apps@[a]).path@ != (
                    #[trigger] self.raw_apps@[b]).path@ by {
                        let oa = if a < idx {
                            a
                        } else {
                            a + 1
                        };
                        let ob = if b < idx {
                            b
                        } else {
                            b + 1
                        };
                        assert(self.raw_apps@[a] == old(self).raw_apps@[oa]);
                        assert(self.raw_apps@[b] == old(self).raw_apps@[ob]);
                    }
                    assert forall|k: int|
                        0 <= k < self.raw_apps@.len() implies (#[trigger] self.raw_apps@[k]).path@
                        != path@ && self.raw_apps@[k].wf(*host) && old(self).raw_apps@.contains(
                        self.raw_apps@[k],
                    ) by {
                        if k < idx {
                            assert(self.raw_apps@[k] == old(self).raw_apps@[k]);
                        } else {
                            assert(self.raw_apps@[k] == old(self).raw_apps@[k + 1]);
                            assert(old(self).raw_apps@[idx].path@ == path@);
                        }
                        assert(old(self).raw_apps@.contains(self.raw_apps@[k]));
                    }
                    assert forall|k: int|
                        0 <= k < old(self).raw_apps@.len() && (#[trigger] old(
                            self,
                        ).raw_apps@[k]).path@ != path@ implies self.raw_apps@.contains(
                        old(self).raw_apps@[k],
                    ) by {
                        if k < idx {
                            assert(self.raw_apps@[k] == old(self).raw_apps@[k]);
                        } else {
                            assert(self.raw_apps@[k - 1] == old(self).raw_apps@[k]);
                        }
                    }
                    assert forall|k: int|
                        0 <= k < old(self).raw_apps@.len() && (#[trigger] old(
                            self,
                        ).raw_apps@[k]).path@ == path@ implies old(self).raw_apps@[k].inserted
                        == inserted by {
                        assert(k == idx);
                    }
                }
                return uptime < MIN_RUNTIME_SECS;
            }
            i += 1;
        }
        proof {
            assert forall|k: int|
                0 <= k < self.raw_apps@.len() implies old(self).raw_apps@.contains(
                #[trigger] self.raw_apps@[k],
            ) by {
                assert(self.raw_apps@[k] == old(self).raw_apps@[k]);
            }
        }
        false
    }
}

/// No duplicate names: a well-formed routing table never holds two entries
/// with the same name, and every operation above keeps it well formed.
pub proof fn lemma_no_duplicate_names(apps: Apps, i: int, j: int)
    requires
        apps.wf(),
        0 <= i < apps.inner.inner@.len(),
        0 <= j < apps.inner.inner@.len(),
        i != j,
    ensures
        apps.inner.inner@[i].inner.name@ != apps.inner.inner@[j].inner.name@,
{
}

} // verus!
