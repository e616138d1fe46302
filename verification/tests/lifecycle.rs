use plugin_host::apps::app_lib::{AppLib, RUNNING, TERMINATED, TERMINATING};
use plugin_host::apps::{Apps, FileStep, LifecycleStep, NotifiedApp, Notifiers, Supervisor};
use plugin_host::ffi::c_systemtime;
use plugin_host::host::Host;
use plugin_host::progress_channel::channel;
use plugin_host::server::Terminated;
use plugin_host::stream::{AcceptPoll, ReadPoll};
use plugin_host::users::session_store::Sessions;
use plugin_host::{plugin_init, Core};

fn at(secs: u64) -> c_systemtime {
    c_systemtime { secs, nanos: 0 }
}

/// Performs a full load handshake for a simulated plugin: the host prepares
/// the init record, the plugin's entry fills the app record, the host builds
/// the handle. Returns the handle, the plugin's own core and the confirmation
/// callback its runtime would fire on stop.
fn load(host: &mut Host, name: &'static str) -> (AppLib, Core, Terminated) {
    let store = Sessions::new();
    let (core, pending) = AppLib::prepare(host, "", store.to_c());
    let (app, plugin_core, terminated) = plugin_init(host, core, name, "", "");
    (AppLib::new(app, pending), plugin_core, terminated)
}

#[test]
fn test_notifiers() {
    let mut host = Host::new();
    let (tx, rx) = channel(&mut host, 0);

    let app = NotifiedApp { name: "hey", file: "hey".to_string(), notify: rx.clone() };

    let mut notifiers = Notifiers::new();
    notifiers.push(app);
    assert!(!notifiers.is_empty());

    // notify
    tx.send(&mut host, 1);
    let idx = notifiers.notified(&host).poll().expect("signal advanced");
    let a = notifiers.take(idx);
    notifiers.push(a);

    // nothing further advanced yet
    assert!(notifiers.notified(&host).poll().is_none());

    tx.send(&mut host, 2);
    let a = notifiers.notified(&host).poll().expect("signal advanced");
    assert_eq!(a, 0);
}

#[test]
fn lifecycle_ordering() {
    // Routable immediately after load; gone no later than Terminating;
    // unload allowed only at Terminated.
    let mut host = Host::new();
    let mut apps = Apps::new();
    let mut sup = Supervisor::new();

    let (lib, plugin_core, plugin_terminated) = load(&mut host, "demo");
    let rx = lib.terminated.clone();
    sup.register(&host, &mut apps, lib, "plugins/demo/demo.so".to_string(), at(1), at(10));

    // in the table right after the load
    assert!(apps.contains("demo"));
    assert_eq!(rx.val(&host), RUNNING);

    // the host asks for termination: the plugin sees the request, the
    // lifecycle signal reads Terminating, and the supervisor's reaction
    // removes the app from the table
    let step = sup.see_file(&mut host, "plugins/demo/demo.so", at(2));
    assert!(matches!(step, FileStep::Replaced));
    let mut plugin_core = plugin_core;
    assert!(plugin_core.on_terminate.on_terminate(&host));
    assert_eq!(rx.val(&host), TERMINATING);

    let idx = sup.notifiers.notified(&host).poll().expect("terminating observed");
    let step = sup.on_notified(&host, &mut apps, idx, at(20));
    assert!(matches!(step, LifecycleStep::Terminating));
    assert!(!apps.contains("demo"));

    // only the plugin's own confirmation reaches Terminated; then, and only
    // then, the supervisor reports that the library may be unloaded
    plugin_terminated.terminated(&mut host);
    assert_eq!(rx.val(&host), TERMINATED);
    let idx = sup.notifiers.notified(&host).poll().expect("terminated observed");
    let step = sup.on_notified(&host, &mut apps, idx, at(20));
    match step {
        LifecycleStep::Terminated { crash_looped } => assert!(!crash_looped),
        _ => panic!("expected the terminated reaction"),
    }
    assert!(sup.notifiers.is_empty());
}

#[test]
fn two_plugins_coexist() {
    // Two plugins with distinct names load; both routable; terminating one
    // leaves the other routable and functioning.
    let mut host = Host::new();
    let mut apps = Apps::new();
    let mut sup = Supervisor::new();

    let (alpha, _alpha_core, alpha_terminated) = load(&mut host, "alpha");
    let (beta, mut beta_core, _beta_terminated) = load(&mut host, "beta");
    sup.register(&host, &mut apps, alpha, "plugins/alpha/alpha.so".to_string(), at(1), at(5));
    sup.register(&host, &mut apps, beta, "plugins/beta/beta.so".to_string(), at(1), at(5));

    assert!(apps.contains("alpha"));
    assert!(apps.contains("beta"));
    assert_eq!(apps.to_api_apps().len(), 2);

    // terminate alpha through its changed file
    let step = sup.see_file(&mut host, "plugins/alpha/alpha.so", at(9));
    assert!(matches!(step, FileStep::Replaced));
    alpha_terminated.terminated(&mut host);
    let idx = sup.notifiers.notified(&host).poll().expect("alpha observed");
    sup.on_notified(&host, &mut apps, idx, at(60));

    assert!(!apps.contains("alpha"));
    assert!(apps.contains("beta"));

    // beta still serves traffic
    let beta_handle = apps.get("beta").expect("beta routable");
    let mut stream = beta_handle.inner.connector.connect(&mut host).unwrap();
    let mut server = match beta_core.listener.accept(&mut host) {
        AcceptPoll::Ready(s) => s,
        _ => panic!("beta did not receive the dial"),
    };
    stream.write(&mut host, b"still there?").unwrap();
    match server.poll_read(&mut host, 64) {
        ReadPoll::Data(d) => assert_eq!(d, b"still there?".to_vec()),
        _ => panic!("beta did not receive the bytes"),
    }
}

#[test]
fn hot_reload_single_live_entry() {
    // A plugin file is replaced while running: terminate, wait for
    // Terminated, then load the new content — one live entry throughout,
    // momentarily zero, never two.
    let mut host = Host::new();
    let mut apps = Apps::new();
    let mut sup = Supervisor::new();
    let file = "plugins/demo/demo.so";

    let (lib, _core1, terminated1) = load(&mut host, "demo");
    sup.register(&host, &mut apps, lib, file.to_string(), at(100), at(100));
    assert_eq!(apps.to_api_apps().len(), 1);

    // the file changed on disk: terminate, but do not load a replacement yet
    let step = sup.see_file(&mut host, file, at(200));
    assert!(matches!(step, FileStep::Replaced));
    assert_eq!(apps.to_api_apps().len(), 1);

    // a second scan of the same changed file does nothing further
    let step = sup.see_file(&mut host, file, at(200));
    assert!(matches!(step, FileStep::Replaced));

    // the old instance confirms; the supervisor drops it (uptime was long
    // enough, so no crash-loop delay)
    terminated1.terminated(&mut host);
    let idx = sup.notifiers.notified(&host).poll().expect("terminated observed");
    let step = sup.on_notified(&host, &mut apps, idx, at(300));
    match step {
        LifecycleStep::Terminated { crash_looped } => assert!(!crash_looped),
        _ => panic!("expected the terminated reaction"),
    }
    assert_eq!(apps.to_api_apps().len(), 0);

    // now the path is unknown again: the new content loads, exactly one entry
    let step = sup.see_file(&mut host, file, at(200));
    assert!(matches!(step, FileStep::Unknown));
    let (lib2, _core2, _terminated2) = load(&mut host, "demo");
    sup.register(&host, &mut apps, lib2, file.to_string(), at(200), at(301));
    assert!(apps.contains("demo"));
    assert_eq!(apps.to_api_apps().len(), 1);
}

#[test]
fn crash_loop_guard() {
    let mut host = Host::new();
    let mut apps = Apps::new();
    let mut sup = Supervisor::new();
    let file = "plugins/flaky/flaky.so";

    let (lib, _core, terminated) = load(&mut host, "flaky");
    sup.register(&host, &mut apps, lib, file.to_string(), at(50), at(1000));

    // the instance dies two seconds after its load: below the minimum runtime
    terminated.terminated(&mut host);
    let idx = sup.notifiers.notified(&host).poll().expect("terminated observed");
    let step = sup.on_notified(&host, &mut apps, idx, at(1002));
    match step {
        LifecycleStep::Terminated { crash_looped } => assert!(crash_looped),
        _ => panic!("expected the terminated reaction"),
    }
}

#[test]
fn unchanged_file_is_left_alone() {
    let mut host = Host::new();
    let mut apps = Apps::new();
    let mut sup = Supervisor::new();
    let file = "plugins/demo/demo.so";

    let (lib, _core, _terminated) = load(&mut host, "demo");
    let rx = lib.terminated.clone();
    sup.register(&host, &mut apps, lib, file.to_string(), at(7), at(7));

    assert!(matches!(sup.see_file(&mut host, file, at(7)), FileStep::Unchanged));
    assert!(apps.contains("demo"));
    assert_eq!(rx.val(&host), RUNNING);
}
