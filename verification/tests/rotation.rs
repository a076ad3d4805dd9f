use igen::rotation::{Rotation, Turn};

const MINUTE: i64 = 60;

#[test]
fn empty_rotation_asks_for_a_reload() {
    let mut rotation: Rotation<&str> = Rotation::new();
    assert_eq!(rotation.shown(), None);
    assert_eq!(rotation.waiting(), 0);
    assert_eq!(rotation.next(1000, 15 * MINUTE), Turn::Reload);
    assert_eq!(rotation.shown(), None);
}

#[test]
fn items_take_turns() {
    let mut rotation = Rotation::new();
    rotation.reload(vec!["a", "b", "c"]);
    assert_eq!(rotation.waiting(), 3);
    assert_eq!(rotation.next(1000, 15 * MINUTE), Turn::Serve);
    assert_eq!(rotation.shown(), Some(&"a"));
    assert_eq!(rotation.waiting(), 2);
    // shown for exactly the time allowed: still fresh
    assert_eq!(rotation.next(1000 + 15 * MINUTE, 15 * MINUTE), Turn::Serve);
    assert_eq!(rotation.shown(), Some(&"a"));
    assert_eq!(rotation.next(1001 + 15 * MINUTE, 15 * MINUTE), Turn::Serve);
    assert_eq!(rotation.shown(), Some(&"b"));
    assert_eq!(rotation.next(1002 + 15 * MINUTE, 15 * MINUTE), Turn::Serve);
    assert_eq!(rotation.shown(), Some(&"b"));
    assert_eq!(rotation.next(5000, 15 * MINUTE), Turn::Serve);
    assert_eq!(rotation.shown(), Some(&"c"));
    assert_eq!(rotation.waiting(), 0);
}

#[test]
fn used_up_rotation_asks_for_a_reload() {
    let mut rotation = Rotation::new();
    rotation.reload(vec![1]);
    assert_eq!(rotation.next(0, 10), Turn::Serve);
    assert_eq!(rotation.next(10, 10), Turn::Serve);
    assert_eq!(rotation.next(11, 10), Turn::Reload);
    // what was shown stays until something else can be
    assert_eq!(rotation.shown(), Some(&1));
    rotation.reload(vec![2, 3]);
    assert_eq!(rotation.shown(), Some(&1));
    assert_eq!(rotation.next(11, 10), Turn::Serve);
    assert_eq!(rotation.shown(), Some(&2));
    assert_eq!(rotation.waiting(), 1);
}

#[test]
fn reload_replaces_what_waits() {
    let mut rotation = Rotation::new();
    rotation.reload(vec![1, 2, 3]);
    rotation.reload(vec![7]);
    assert_eq!(rotation.waiting(), 1);
    assert_eq!(rotation.next(0, 0), Turn::Serve);
    assert_eq!(rotation.shown(), Some(&7));
}

#[test]
fn times_far_apart_do_not_overflow() {
    let mut rotation = Rotation::new();
    rotation.reload(vec![1, 2, 3]);
    assert_eq!(rotation.next(i64::MIN, 10), Turn::Serve);
    assert_eq!(rotation.next(i64::MAX, 10), Turn::Serve);
    assert_eq!(rotation.shown(), Some(&2));
    // a clock that went back: the item is taken as fresh
    assert_eq!(rotation.next(i64::MIN, 10), Turn::Serve);
    assert_eq!(rotation.shown(), Some(&2));
    assert_eq!(rotation.next(i64::MAX, i64::MIN), Turn::Serve);
    assert_eq!(rotation.shown(), Some(&3));
}
