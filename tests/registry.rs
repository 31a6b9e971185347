use popol::descriptors::Descriptors;
use popol::events::{
    Events, POLLERR, POLLHUP, POLLIN, POLLNVAL, POLLOUT, POLLPRI, POLLWRBAND, READ, WRITE,
};
use popol::wait::{timeout_millis, wait, waker_fds, Error, Wait};
use popol::{Descriptor, Event};

fn registry(keys: &[&'static str]) -> Descriptors<&'static str> {
    let mut d = Descriptors::new();
    for (i, k) in keys.iter().enumerate() {
        d.register(*k, 10 + i as i32, READ);
    }
    d
}

fn ready(d: &Descriptors<&'static str>) -> Vec<(&'static str, Event)> {
    match wait(d, Ok(1)) {
        Ok(w) => w.iter(),
        Err(e) => panic!("unexpected error {:?}", e),
    }
}

#[test]
fn flags_match_libc() {
    assert_eq!(POLLIN, libc::POLLIN);
    assert_eq!(POLLPRI, libc::POLLPRI);
    assert_eq!(POLLOUT, libc::POLLOUT);
    assert_eq!(POLLERR, libc::POLLERR);
    assert_eq!(POLLHUP, libc::POLLHUP);
    assert_eq!(POLLNVAL, libc::POLLNVAL);
    assert_eq!(POLLWRBAND, libc::POLLWRBAND);
    assert_eq!(READ, libc::POLLIN | libc::POLLPRI);
    assert_eq!(WRITE, libc::POLLOUT | libc::POLLWRBAND);
}

#[test]
fn descriptor_set_and_unset() {
    let mut d = Descriptor::new(7, READ);
    assert_eq!(d.fd(), 7);
    assert_eq!(d.events(), 0x3);
    assert_eq!(d.revents(), 0);
    assert!(!d.is_waker());
    d.set(WRITE);
    assert_eq!(d.events(), 0x207);
    d.unset(POLLPRI | POLLWRBAND);
    assert_eq!(d.events(), 0x5);
    let w = Descriptor::waker(9);
    assert!(w.is_waker());
    assert_eq!(w.events(), READ);
}

#[test]
fn event_facets() {
    let mut d = Descriptor::new(3, READ | WRITE);
    d.set_revents(POLLIN);
    let e = Event::from(&d);
    assert!(e.readable && !e.writable && !e.hangup && !e.errored);
    d.set_revents(POLLPRI);
    assert!(Event::from(&d).readable);
    d.set_revents(POLLOUT);
    let e = Event::from(&d);
    assert!(!e.readable && e.writable && !e.hangup && !e.errored);
    d.set_revents(POLLERR);
    assert!(Event::from(&d).errored);
    d.set_revents(POLLNVAL);
    let e = Event::from(&d);
    assert!(e.errored && !e.hangup);
    d.set_revents(POLLHUP);
    let e = Event::from(&d);
    assert!(e.hangup && !e.errored && !e.readable);
    assert_eq!(e.descriptor.fd(), 3);
}

#[test]
fn quiet_registry_times_out() {
    let mut d = registry(&["reader0", "reader1", "reader2"]);
    d.set_readiness(&vec![0, 0, 0]);
    let w = wait(&d, Ok(0)).unwrap();
    assert!(w.is_empty());
    assert!(w.iter().is_empty());
    let w = wait(&d, Ok(1)).unwrap();
    assert!(!w.is_empty());
    assert!(w.iter().is_empty());
}

#[test]
fn one_byte_gives_one_readable_event() {
    let mut d = registry(&["reader0", "reader1", "reader2"]);
    d.set_readiness(&vec![0, POLLIN, 0]);
    let evs = ready(&d);
    assert_eq!(evs.len(), 1);
    assert_eq!(evs[0].0, "reader1");
    let e = evs[0].1;
    assert!(e.readable && !e.writable && !e.hangup && !e.errored);
    assert_eq!(e.descriptor.fd(), 11);
}

#[test]
fn three_keys_in_turn() {
    let mut d = registry(&["a", "b", "c"]);
    let keys = ["a", "b", "c"];
    for (n, key) in keys.iter().enumerate() {
        let mut revents: Vec<Events> = vec![0, 0, 0];
        revents[n] = POLLIN;
        d.set_readiness(&revents);
        let evs = ready(&d);
        assert_eq!(evs.len(), 1);
        assert_eq!(evs[0].0, *key);
        assert!(evs[0].1.readable);
    }
}

#[test]
fn events_come_in_registration_order() {
    let mut d = registry(&["a", "b", "c"]);
    d.set_readiness(&vec![POLLIN, 0, POLLIN | POLLHUP]);
    let evs = ready(&d);
    assert_eq!(evs.len(), 2);
    assert_eq!(evs[0].0, "a");
    assert_eq!(evs[1].0, "c");
    assert!(evs[1].1.hangup && evs[1].1.readable);
    assert!(waker_fds(&evs).is_empty());
}

#[test]
fn woken_waker_is_one_readable_event() {
    let mut d = registry(&["reader0"]);
    d.register_waker("w", 42);
    d.set_readiness(&vec![0, POLLIN]);
    let evs = ready(&d);
    assert_eq!(evs.len(), 1);
    assert_eq!(evs[0].0, "w");
    assert!(evs[0].1.readable);
    assert!(evs[0].1.descriptor.is_waker());
    assert_eq!(evs[0].1.descriptor.fd(), 42);
    assert_eq!(waker_fds(&evs), vec![42]);
    // Once drained, the waker reports nothing more.
    d.set_readiness(&vec![0, 0]);
    assert!(wait(&d, Ok(0)).unwrap().is_empty());
}

#[test]
fn waker_reporting_write_is_refused() {
    let mut d = registry(&["a", "b"]);
    d.register_waker("w", 5);
    d.set_readiness(&vec![POLLIN, 0, POLLIN | POLLOUT]);
    assert_eq!(wait(&d, Ok(2)).err(), Some(Error::BadWaker(2)));
    d.set_readiness(&vec![POLLIN, 0, POLLHUP]);
    assert_eq!(wait(&d, Ok(2)).err(), Some(Error::BadWaker(2)));
    d.set_readiness(&vec![0, 0, POLLIN | POLLERR]);
    assert_eq!(wait(&d, Ok(1)).err(), Some(Error::BadWaker(2)));
    d.set_readiness(&vec![0, 0, POLLPRI]);
    assert_eq!(wait(&d, Ok(1)).unwrap().iter().len(), 1);
}

#[test]
fn os_error_is_returned() {
    let d = registry(&["a"]);
    assert_eq!(wait(&d, Err(4)).err(), Some(Error::Os(4)));
}

#[test]
fn unregister_then_register_again() {
    let mut d = registry(&["a", "b", "c"]);
    d.unregister(&"a");
    assert_eq!(d.len(), 2);
    assert_eq!(d.keys(), &vec!["c", "b"]);
    d.set_readiness(&vec![POLLIN, POLLIN]);
    let evs = ready(&d);
    assert_eq!(evs.len(), 2);
    assert!(evs.iter().all(|(k, _)| *k != "a"));
    d.register("a", 99, WRITE);
    assert_eq!(d.len(), 3);
    let fresh = d.get_mut(&"a").unwrap();
    assert_eq!(fresh.fd(), 99);
    assert_eq!(fresh.events(), WRITE);
    assert_eq!(fresh.revents(), 0);
    // Unregistering an absent key changes nothing.
    d.unregister(&"zzz");
    assert_eq!(d.keys(), &vec!["c", "b", "a"]);
}

#[test]
fn duplicate_keys_remove_first_only() {
    let mut d = Descriptors::new();
    d.register("k", 1, READ);
    d.register("x", 2, READ);
    d.register("k", 3, READ);
    d.unregister(&"k");
    assert_eq!(d.keys(), &vec!["k", "x"]);
    assert_eq!(d.descriptors()[0].fd(), 3);
}

#[test]
fn hangup_regardless_of_interest() {
    let mut d = Descriptors::new();
    d.register("remote", 4, WRITE);
    d.set_readiness(&vec![POLLHUP]);
    let evs = ready(&d);
    assert_eq!(evs.len(), 1);
    assert_eq!(evs[0].0, "remote");
    assert!(evs[0].1.hangup);
}

#[test]
fn set_replaces_interest() {
    let mut d = registry(&["a", "b"]);
    assert!(d.set(&"b", WRITE));
    assert_eq!(d.descriptors()[1].events(), WRITE);
    assert!(!d.set(&"z", WRITE));
    let e = d.get_mut(&"a").unwrap();
    e.set(WRITE);
    assert_eq!(d.descriptors()[0].events(), READ | WRITE);
    assert!(d.get_mut(&"z").is_none());
}

#[test]
fn short_readiness_clears_the_rest() {
    let mut d = registry(&["a", "b", "c"]);
    d.set_readiness(&vec![POLLIN, POLLIN, POLLIN]);
    d.set_readiness(&vec![POLLOUT]);
    let r: Vec<Events> = d.descriptors().iter().map(|x| x.revents()).collect();
    assert_eq!(r, vec![POLLOUT, 0, 0]);
}

#[test]
fn timeout_saturates() {
    assert_eq!(timeout_millis(0), 0);
    assert_eq!(timeout_millis(1500), 1500);
    assert_eq!(timeout_millis(i32::MAX as u128), i32::MAX);
    assert_eq!(timeout_millis(u128::MAX), i32::MAX);
}

#[test]
fn with_capacity_starts_empty() {
    let d: Descriptors<u32> = Descriptors::with_capacity(8);
    assert_eq!(d.len(), 0);
    assert!(matches!(wait(&d, Ok(0)), Ok(Wait::Timeout)));
}
