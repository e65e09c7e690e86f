use route_cache::{Clock, Node, Now};

#[test]
fn last_access_updated_on_drop() {
    let mut clock = Clock::new(0);
    let t0 = clock.now();
    let node = Node::new(123u64, t0);

    clock.advance(1);
    let access = node.access();
    assert_eq!(access.last_access(), t0);
    let node = access.release(clock.now());

    let t1 = clock.now();
    assert_eq!(node.last_access(), t1);
    assert_ne!(t0, t1);
}

#[test]
fn access_exposes_value() {
    let node = Node::new(123u64, 4);
    let access = node.access();
    assert_eq!(*access.value(), 123);
    let node = access.release(9);
    assert_eq!(node.last_access(), 9);
}

#[test]
fn clock_reads_advance() {
    let mut clock = Clock::new(5);
    assert_eq!(clock.now(), 5);
    clock.advance(7);
    assert_eq!(clock.now(), 12);
}
