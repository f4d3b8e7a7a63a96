use ollana::device::Device;
use ollana::endpoint::Endpoint;
use ollana::manager::{evaluate_candidate, Manager};

fn ep(n: u32) -> Endpoint {
    Endpoint::new(n, 11435)
}

fn test_identity() -> String {
    "a".repeat(64)
}

fn peer_id(tag: &str) -> String {
    let mut id = tag.to_string();
    while id.len() < 64 {
        id.push('0');
    }
    id
}

#[test]
fn first_eligible_server_becomes_active() {
    let mut manager = Manager::new();
    assert!(manager.needs_checks(ep(1)));
    let eff = manager.handle_add(ep(1), true);
    assert_eq!(eff.stop, None);
    assert_eq!(eff.start, Some(ep(1)));
    assert_eq!(manager.active_server(), None);
    manager.proxy_started(ep(1));
    assert_eq!(manager.active_server(), Some(ep(1)));
    assert!(!manager.needs_checks(ep(1)));
}

#[test]
fn ineligible_server_is_ignored() {
    let mut manager = Manager::new();
    let eff = manager.handle_add(ep(9), false);
    assert_eq!(eff.start, None);
    assert_eq!(eff.stop, None);
    assert!(manager.needs_checks(ep(9)));
    assert_eq!(manager.active_server(), None);
}

#[test]
fn second_server_queues_behind_the_active_one() {
    let mut manager = Manager::new();
    manager.handle_add(ep(1), true);
    manager.proxy_started(ep(1));
    let eff = manager.handle_add(ep(2), true);
    assert_eq!(eff.start, None);
    assert_eq!(manager.active_server(), Some(ep(1)));
}

#[test]
fn failover_promotes_the_next_candidate() {
    let mut manager = Manager::new();
    manager.handle_add(ep(1), true);
    manager.proxy_started(ep(1));
    manager.handle_add(ep(2), true);
    // the liveness task lost server 1
    let eff = manager.handle_remove(ep(1));
    assert_eq!(eff.stop, Some(ep(1)));
    assert_eq!(eff.start, Some(ep(2)));
    assert_eq!(manager.active_server(), None);
    manager.proxy_started(ep(2));
    assert_eq!(manager.active_server(), Some(ep(2)));
}

#[test]
fn removing_an_unknown_server_changes_nothing() {
    let mut manager = Manager::new();
    manager.handle_add(ep(1), true);
    manager.proxy_started(ep(1));
    let eff = manager.handle_remove(ep(7));
    assert_eq!(eff.stop, None);
    assert_eq!(eff.start, None);
    assert_eq!(manager.active_server(), Some(ep(1)));
}

#[test]
fn removing_the_last_server_leaves_no_tunnel() {
    let mut manager = Manager::new();
    manager.handle_add(ep(1), true);
    manager.proxy_started(ep(1));
    let eff = manager.handle_remove(ep(1));
    assert_eq!(eff.stop, Some(ep(1)));
    assert_eq!(eff.start, None);
    assert_eq!(manager.active_server(), None);
}

#[test]
fn duplicate_add_is_ignored() {
    let mut manager = Manager::new();
    manager.handle_add(ep(1), true);
    manager.proxy_started(ep(1));
    let eff = manager.handle_add(ep(1), true);
    assert_eq!(eff.start, None);
    assert_eq!(manager.active_server(), Some(ep(1)));
}

#[test]
fn stale_ready_report_is_ignored() {
    let mut manager = Manager::new();
    manager.handle_add(ep(1), true);
    manager.proxy_started(ep(2));
    assert_eq!(manager.active_server(), None);
    manager.proxy_started(ep(1));
    assert_eq!(manager.active_server(), Some(ep(1)));
}

#[test]
fn candidate_needs_handshake_allowance_and_probe() {
    let device = Device::from_parts(test_identity(), vec![peer_id("b1")]);
    assert!(evaluate_candidate(&device, &Some(peer_id("b1")), true));
    assert!(!evaluate_candidate(&device, &Some(peer_id("b1")), false));
    assert!(!evaluate_candidate(&device, &Some(peer_id("b2")), true));
    assert!(!evaluate_candidate(&device, &None, true));
}
