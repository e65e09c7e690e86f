use route_cache::access::Node;
use route_cache::retain::{all_of, any_of, Const, MaxAccessAge, Retain};
use route_cache::{Clock, Now};

#[test]
fn always() {
    let clock = Clock::new(0);
    let node = Node::new(666u64, clock.now());
    assert!(Const::always().retain(&node, clock.now()));
}

#[test]
fn never() {
    let clock = Clock::new(0);
    let node = Node::new(666u64, clock.now());
    assert!(!Const::never().retain(&node, clock.now()));
}

#[test]
fn and() {
    let clock = Clock::new(0);
    let node = Node::new(666u64, clock.now());
    assert!(all_of(Const::always(), Const::always()).retain(&node, clock.now()));
    assert!(!all_of(Const::never(), Const::always()).retain(&node, clock.now()));
    assert!(!all_of(Const::always(), Const::never()).retain(&node, clock.now()));
    assert!(!all_of(Const::never(), Const::never()).retain(&node, clock.now()));
}

#[test]
fn or() {
    let clock = Clock::new(0);
    let node = Node::new(666u64, clock.now());
    assert!(any_of(Const::always(), Const::always()).retain(&node, clock.now()));
    assert!(any_of(Const::never(), Const::always()).retain(&node, clock.now()));
    assert!(any_of(Const::always(), Const::never()).retain(&node, clock.now()));
    assert!(!any_of(Const::never(), Const::never()).retain(&node, clock.now()));
}

#[test]
fn max_access_age() {
    let mut clock = Clock::new(0);
    let mag = MaxAccessAge::new(2);

    let t0 = clock.now();
    let node = Node::new(666u64, t0);

    assert!(mag.retain(&node, clock.now()));

    // Update the access time from the original.
    clock.advance(1);
    let access = node.access();
    assert_eq!(access.last_access(), t0);
    let node = access.release(clock.now());
    assert!(mag.retain(&node, clock.now()));

    // Advance until retain fails.
    clock.advance(1);
    assert!(mag.retain(&node, clock.now()));

    clock.advance(1);
    assert!(mag.retain(&node, clock.now()));

    clock.advance(1);
    assert!(!mag.retain(&node, clock.now()));
}
