use plugin_host::apps::app_lib::AppLib;
use plugin_host::apps::route::AppsRoute;
use plugin_host::apps::{App, AppInner, Apps};
use plugin_host::host::Host;
use plugin_host::apps::route::upgrades;
use plugin_host::plugin_init;
use plugin_host::stream::{AcceptPoll, Connector, Listener, ReadPoll};
use plugin_host::users::session_store::Sessions;

fn dummy_app(host: &mut Host, name: &'static str) -> App {
    let (_listener, c_listener) = Listener::new(host);
    App {
        inner: AppInner {
            name,
            js_entry: "",
            css_entry: "",
            connector: Connector::new(c_listener.into_c()),
        },
    }
}

#[test]
fn no_duplicate_names() {
    // The routing table never holds two entries with one name.
    let mut host = Host::new();
    let mut apps = Apps::new();

    apps.insert(dummy_app(&mut host, "demo"));
    apps.insert(dummy_app(&mut host, "other"));
    assert_eq!(apps.to_api_apps().len(), 2);

    // inserting the same name again replaces, never duplicates
    apps.insert(dummy_app(&mut host, "demo"));
    let listed = apps.to_api_apps();
    assert_eq!(listed.len(), 2);
    let demo_count = listed.iter().filter(|a| a.key == "demo").count();
    assert_eq!(demo_count, 1);

    apps.remove("demo");
    assert!(!apps.contains("demo"));
    assert!(apps.contains("other"));
    assert_eq!(apps.to_api_apps().len(), 1);
}

#[test]
fn api_list_reports_empty_entries_as_absent() {
    let mut host = Host::new();
    let mut apps = Apps::new();
    let (_listener, c_listener) = Listener::new(&mut host);
    apps.insert(App {
        inner: AppInner {
            name: "withassets",
            js_entry: "main.js",
            css_entry: "",
            connector: Connector::new(c_listener.into_c()),
        },
    });

    let listed = apps.to_api_apps();
    assert_eq!(listed.len(), 1);
    assert_eq!(listed[0].key, "withassets");
    assert_eq!(listed[0].js_entry.as_deref(), Some("main.js"));
    assert_eq!(listed[0].css_entry, None);
}

#[test]
fn bridge_claims_only_routed_prefixes() {
    let mut host = Host::new();
    let mut apps = Apps::new();
    apps.insert(dummy_app(&mut host, "demo"));
    let route = AppsRoute;

    // a routed prefix with a present name is claimed
    assert!(route.claim("/api/demo/some/endpoint", &apps).is_some());
    assert!(route.claim("/assets/demo/app.js", &apps).is_some());
    assert!(route.claim("/api/demo", &apps).is_some());

    // unrouted prefixes and unknown names are declined
    assert!(route.claim("/demo/api", &apps).is_none());
    assert!(route.claim("/api/unknown/x", &apps).is_none());
    assert!(route.claim("/apidemo", &apps).is_none());
    assert!(route.claim("/", &apps).is_none());

    // the claimed handle is the routed app's
    let claimed = route.claim("/api/demo/x", &apps).unwrap();
    assert_eq!(claimed.inner.name, "demo");
}

#[test]
fn bridge_declines_after_name_disappears() {
    let mut host = Host::new();
    let mut apps = Apps::new();
    apps.insert(dummy_app(&mut host, "demo"));
    let route = AppsRoute;

    assert!(route.claim("/api/demo/x", &apps).is_some());
    apps.remove("demo");
    // the race with termination resolves as a decline, not a failure
    assert!(route.claim("/api/demo/x", &apps).is_none());
}

#[test]
fn demo_plugin_ping_pong() {
    // Load plugin "demo" exposing its acceptor; dial; exchange ping/pong;
    // half-close; the server read eventually returns no bytes.
    let mut host = Host::new();
    let store = Sessions::new();
    let (core, pending) = AppLib::prepare(&mut host, "", store.to_c());
    let (app, mut plugin_core, _terminated) = plugin_init(&mut host, core, "demo", "", "");
    let lib = AppLib::new(app, pending);
    assert_eq!(lib.name, "demo");

    let mut client = lib.connector.connect(&mut host).unwrap();
    let mut server = match plugin_core.listener.accept(&mut host) {
        AcceptPoll::Ready(s) => s,
        _ => panic!("dial did not reach the plugin"),
    };

    client.write(&mut host, b"ping").unwrap();
    match server.poll_read(&mut host, 64) {
        ReadPoll::Data(d) => assert_eq!(d, b"ping".to_vec()),
        _ => panic!("server read no data"),
    }

    server.write(&mut host, b"pong").unwrap();
    match client.poll_read(&mut host, 64) {
        ReadPoll::Data(d) => assert_eq!(d, b"pong".to_vec()),
        _ => panic!("client read no data"),
    }

    client.close_sender(&mut host);
    assert!(matches!(server.poll_read(&mut host, 64), ReadPoll::Eof));
}

#[test]
fn upgrade_decision() {
    assert!(upgrades(101));
    assert!(!upgrades(200));
    assert!(!upgrades(500));
}

#[test]
fn plugin_core_carries_config() {
    let mut host = Host::new();
    let store = Sessions::new();
    let (core, _pending) = AppLib::prepare(&mut host, "key = 'value'", store.to_c());
    let (_app, plugin_core, _terminated) = plugin_init(&mut host, core, "demo", "a.js", "a.css");
    assert_eq!(plugin_core.config, "key = 'value'");
    assert_eq!(plugin_core.version.major, 0);
    assert_eq!(plugin_core.version.minor, 1);
}
