use orbitsim::svsc::channel;
use orbitsim::svsc::DeadGetterError;

#[test]
fn send_recv_value() {
    let (mut recv, send) = channel(12);
    assert_eq!(recv.latest(), &12);
    send.update(123).unwrap();
    assert_eq!(recv.latest(), &123);
}

#[test]
fn send_recv_option() {
    // ensure option values work nicely
    let (mut recv, send) = channel(None);
    assert_eq!(*recv.latest(), None);
    send.update(Some(234)).unwrap();
    assert_eq!(*recv.latest(), Some(234));
}

#[test]
fn error_writing_to_dead_reader() {
    let (val_get, val) = channel(0);
    drop(val_get);
    assert_eq!(val.update(123), Err(DeadGetterError(123)));
}

#[test]
fn is_alive() {
    let (val_get, val) = channel(0);
    assert!(!val.getter_is_dead());
    drop(val_get);
    assert!(val.getter_is_dead());
}

#[test]
fn latest_wins_after_many_updates() {
    // a burst of writes followed by one read yields the most recent write
    let (mut recv, send) = channel(0);
    for v in 1..=3 {
        send.update(v).unwrap();
    }
    assert_eq!(*recv.latest(), 3);
    assert_eq!(*recv.latest(), 3);
}

#[test]
fn coalescing_skips_intermediate_values() {
    // one read per batch of writes observes only the last of each batch
    let (mut recv, send) = channel(0);
    let mut observed = Vec::new();
    for batch in 0..4 {
        for v in 0..10 {
            send.update(batch * 10 + v).unwrap();
        }
        observed.push(*recv.latest());
    }
    assert_eq!(observed, vec![9, 19, 29, 39]);
}

#[test]
fn dead_getter_returns_value_and_probe_agrees() {
    let (getter, updater) = channel(String::from("first"));
    drop(getter);
    let back = updater.update(String::from("second"));
    assert_eq!(back, Err(DeadGetterError(String::from("second"))));
    assert!(updater.getter_is_dead());
}
