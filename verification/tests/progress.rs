use plugin_host::host::Host;
use plugin_host::progress_channel::channel;

#[test]
fn progress_channel() {
    let mut host = Host::new();
    let (tx, mut rx) = channel(&mut host, 0);

    // wait after the fact
    tx.send(&mut host, 1);

    assert!(rx.changed(&host));
    assert_eq!(rx.val(&host), 1);
    assert_eq!(rx.received_val(), 1);

    // an observation started before the send completes right after it
    assert!(!rx.changed(&host));
    tx.send(&mut host, 2);
    assert!(rx.changed(&host));
    assert_eq!(rx.val(&host), 2);
    assert_eq!(rx.received_val(), 2);

    // a send that does not advance the value wakes nobody
    assert!(!tx.send(&mut host, 2));
    assert!(!rx.changed(&host));
    tx.send(&mut host, 3);
    assert!(rx.changed(&host));
    assert_eq!(rx.val(&host), 3);
    assert_eq!(rx.received_val(), 3);
}

#[test]
fn monotone_max_of_sends() {
    let mut host = Host::new();
    let (tx, mut rx) = channel(&mut host, 0);

    // out-of-order sends: the stored value is the running maximum
    assert!(tx.send(&mut host, 5));
    assert!(!tx.send(&mut host, 3));
    assert_eq!(tx.val(&host), 5);
    assert!(tx.send(&mut host, 7));
    assert_eq!(tx.val(&host), 7);

    // the observer sees only the supremum, never an intermediate value
    assert!(rx.changed(&host));
    assert_eq!(rx.received_val(), 7);
}

#[test]
fn no_missed_wakeup() {
    let mut host = Host::new();
    let (tx, mut rx) = channel(&mut host, 0);

    // the send happens strictly before the observation begins
    tx.send(&mut host, 4);

    // ... and the observation still completes immediately, with that value
    assert!(rx.changed(&host));
    assert_eq!(rx.received_val(), 4);
}

#[test]
fn observed_values_never_decrease() {
    let mut host = Host::new();
    let (tx, mut rx) = channel(&mut host, 2);

    assert!(!rx.changed(&host));
    tx.send(&mut host, 1);
    assert!(!rx.changed(&host));
    assert_eq!(rx.received_val(), 2);
    tx.send(&mut host, 9);
    assert!(rx.changed(&host));
    assert_eq!(rx.received_val(), 9);
}

#[test]
fn late_observer_completes_at_once() {
    let mut host = Host::new();
    let (tx, rx) = channel(&mut host, 0);
    tx.send(&mut host, 6);

    // a cursor reset below the stored value completes without a new send
    let mut late = rx.clone();
    late.set_received_val(0);
    assert!(late.changed(&host));
    assert_eq!(late.received_val(), 6);
}
