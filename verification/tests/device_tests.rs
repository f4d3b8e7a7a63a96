use ollana::admin::{allow_output, disable_output, show_output};
use ollana::device::Device;

fn test_identity() -> String {
    "a".repeat(64)
}

fn peer_id(tag: &str) -> String {
    let mut id = tag.to_string();
    while id.len() < 64 {
        id.push('0');
    }
    id
}

#[test]
fn allow_twice_adds_once() {
    let mut device = Device::from_parts(test_identity(), Vec::new());
    let id = peer_id("b1");
    assert!(device.allow(id.clone()));
    assert!(!device.allow(id.clone()));
    let held: Vec<&String> = device.list().iter().filter(|x| **x == id).collect();
    assert_eq!(held.len(), 1);
}

#[test]
fn disable_twice_removes_once() {
    let mut device = Device::from_parts(test_identity(), vec![peer_id("b1"), peer_id("b2")]);
    let id = peer_id("b1");
    assert!(device.disable(id.clone()));
    assert!(!device.disable(id.clone()));
    assert!(!device.is_allowed(id));
    assert!(device.is_allowed(peer_id("b2")));
}

#[test]
fn is_allowed_is_membership() {
    let device = Device::from_parts(test_identity(), vec![peer_id("c1")]);
    assert!(device.is_allowed(peer_id("c1")));
    assert!(!device.is_allowed(peer_id("c2")));
}

#[test]
fn from_parts_drops_duplicates() {
    let device = Device::from_parts(
        test_identity(),
        vec![peer_id("d1"), peer_id("d2"), peer_id("d1")],
    );
    assert_eq!(device.list().len(), 2);
    assert_eq!(device.list()[0], peer_id("d1"));
    assert_eq!(device.list()[1], peer_id("d2"));
}

#[test]
fn allow_messages_match_the_outcome() {
    let id = peer_id("e1");
    assert_eq!(
        allow_output(true, &id),
        format!("Added Device ID: {}", id)
    );
    assert_eq!(
        allow_output(false, &id),
        "The given Device ID has been allowed already"
    );
}

#[test]
fn disable_messages_match_the_outcome() {
    let id = peer_id("e2");
    assert_eq!(
        disable_output(true, &id),
        format!("Removed Device ID: {}", id)
    );
    assert_eq!(
        disable_output(false, &id),
        "The given Device ID has not been allowed"
    );
}

#[test]
fn show_message_names_the_identity() {
    let id = test_identity();
    assert_eq!(show_output(&id), format!("Device ID: {}", id));
}

#[test]
fn admin_mutation_scenario() {
    // allow the same identity twice from a fresh store: the first run
    // reports the addition, the second reports it was already allowed
    let mut device = Device::from_parts(test_identity(), Vec::new());
    let id = peer_id("f1");
    let first = device.allow(id.clone());
    let first_line = allow_output(first, &id);
    let second = device.allow(id.clone());
    let second_line = allow_output(second, &id);
    assert_eq!(first_line, format!("Added Device ID: {}", id));
    assert_eq!(second_line, "The given Device ID has been allowed already");
}
