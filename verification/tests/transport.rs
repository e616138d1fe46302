use plugin_host::host::Host;
use plugin_host::stream::{AcceptPoll, Connector, Listener, ReadPoll, CONCURRENT_WRITES_PER_STREAM};
use plugin_host::ErrorKind;

fn read_data(r: ReadPoll) -> Vec<u8> {
    match r {
        ReadPoll::Data(d) => d,
        ReadPoll::Eof => panic!("unexpected end of file"),
        ReadPoll::Pending => panic!("unexpected pending read"),
    }
}

#[test]
fn simple_read_write() {
    let mut host = Host::new();
    let (mut listener, c_listener) = Listener::new(&mut host);
    let connector = Connector::new(c_listener.into_c());

    let mut client = connector.connect(&mut host).unwrap();
    let mut server = match listener.accept(&mut host) {
        AcceptPoll::Ready(s) => s,
        _ => panic!("dialed stream not queued"),
    };

    client.write(&mut host, b"hey").unwrap();
    let got = read_data(server.poll_read(&mut host, 4096));
    server.write(&mut host, &got).unwrap();

    let v = read_data(client.poll_read(&mut host, 4096));
    assert_eq!(v, b"hey");

    client.close_sender(&mut host);
    assert!(matches!(server.poll_read(&mut host, 4096), ReadPoll::Eof));
}

#[test]
fn echo_round_trip_across_small_reads() {
    let mut host = Host::new();
    let (mut listener, c_listener) = Listener::new(&mut host);
    let connector = Connector::new(c_listener.into_c());

    let mut client = connector.connect(&mut host).unwrap();
    let mut server = match listener.accept(&mut host) {
        AcceptPoll::Ready(s) => s,
        _ => panic!("dialed stream not queued"),
    };

    client.write(&mut host, b"hello ").unwrap();
    client.write(&mut host, b"world").unwrap();

    // drain with a buffer smaller than the chunks: bytes arrive in order,
    // split but never reordered
    let mut all: Vec<u8> = Vec::new();
    loop {
        match server.poll_read(&mut host, 4) {
            ReadPoll::Data(d) => {
                assert!(d.len() <= 4);
                all.extend_from_slice(&d);
            }
            ReadPoll::Pending => break,
            ReadPoll::Eof => panic!("no half-close was sent"),
        }
    }
    assert_eq!(all, b"hello world");
}

#[test]
fn half_close_signaling() {
    let mut host = Host::new();
    let (mut listener, c_listener) = Listener::new(&mut host);
    let connector = Connector::new(c_listener.into_c());

    let mut client = connector.connect(&mut host).unwrap();
    let mut server = match listener.accept(&mut host) {
        AcceptPoll::Ready(s) => s,
        _ => panic!("dialed stream not queued"),
    };

    client.write(&mut host, b"tail").unwrap();
    client.close_sender(&mut host);

    // buffered data first, end-of-file only once drained
    assert_eq!(read_data(server.poll_read(&mut host, 2)), b"ta");
    assert_eq!(read_data(server.poll_read(&mut host, 16)), b"il");
    assert!(matches!(server.poll_read(&mut host, 16), ReadPoll::Eof));
    assert!(matches!(server.poll_read(&mut host, 16), ReadPoll::Eof));

    // a closed writer rejects further writes with Closed
    let err = client.write(&mut host, b"more").unwrap_err();
    assert_eq!(err.kind, ErrorKind::Closed);

    // close is idempotent
    client.close_sender(&mut host);

    // the other direction keeps working
    server.write(&mut host, b"back").unwrap();
    assert_eq!(read_data(client.poll_read(&mut host, 16)), b"back");
}

#[test]
fn bounded_backpressure_on_writes() {
    let mut host = Host::new();
    let (mut listener, c_listener) = Listener::new(&mut host);
    let connector = Connector::new(c_listener.into_c());

    let mut client = connector.connect(&mut host).unwrap();

    let mut i: usize = 0;
    while i < CONCURRENT_WRITES_PER_STREAM {
        client.write(&mut host, b"x").unwrap();
        i += 1;
    }
    // the channel is full: the send fails instead of blocking
    let err = client.write(&mut host, b"x").unwrap_err();
    assert_eq!(err.kind, ErrorKind::TooManyRequests);

    // draining one chunk makes room again
    let mut server = match listener.accept(&mut host) {
        AcceptPoll::Ready(s) => s,
        _ => panic!("dialed stream not queued"),
    };
    assert_eq!(read_data(server.poll_read(&mut host, 1)), b"x");
    client.write(&mut host, b"x").unwrap();
}

#[test]
fn refused_after_listener_closed() {
    let mut host = Host::new();
    let (mut listener, c_listener) = Listener::new(&mut host);
    let connector = Connector::new(c_listener.into_c());

    listener.close(&mut host);
    let err = match connector.connect(&mut host) {
        Ok(_) => panic!("dial into a torn-down listener must fail"),
        Err(e) => e,
    };
    assert_eq!(err.kind, ErrorKind::Refused);
}

#[test]
fn accept_reports_pending_and_closed() {
    let mut host = Host::new();
    let (mut listener, c_listener) = Listener::new(&mut host);
    let connector = Connector::new(c_listener.into_c());

    assert!(matches!(listener.accept(&mut host), AcceptPoll::Pending));
    let _client = connector.connect(&mut host).unwrap();
    assert!(matches!(listener.accept(&mut host), AcceptPoll::Ready(_)));
    listener.close(&mut host);
    assert!(matches!(listener.accept(&mut host), AcceptPoll::Closed));
}

#[test]
fn shared_connector_dials_same_listener() {
    let mut host = Host::new();
    let (mut listener, c_listener) = Listener::new(&mut host);
    let shared = Connector::new(c_listener.into_c()).into_shared();
    let copy = shared.clone();

    let mut a = shared.call(&mut host).unwrap();
    let mut b = copy.call(&mut host).unwrap();

    let mut sa = match listener.accept(&mut host) {
        AcceptPoll::Ready(s) => s,
        _ => panic!("first dial not queued"),
    };
    let mut sb = match listener.accept(&mut host) {
        AcceptPoll::Ready(s) => s,
        _ => panic!("second dial not queued"),
    };

    a.write(&mut host, b"first").unwrap();
    b.write(&mut host, b"second").unwrap();
    assert_eq!(read_data(sa.poll_read(&mut host, 64)), b"first");
    assert_eq!(read_data(sb.poll_read(&mut host, 64)), b"second");

    // the two streams are independent duplex connections
    sa.write(&mut host, b"one").unwrap();
    assert_eq!(read_data(a.poll_read(&mut host, 64)), b"one");
    assert!(matches!(b.poll_read(&mut host, 64), ReadPoll::Pending));
}
