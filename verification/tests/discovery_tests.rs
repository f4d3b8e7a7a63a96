use ollana::constants::{
    DEFAULT_CLIENT_BROADCAST_INTERVAL_SECS, OLLANA_SERVER_DEFAULT_DISCOVERY_PORT,
    OLLANA_SERVER_PROXY_DEFAULT_PORT,
};
use ollana::discovery::{magic_payload, ClientDiscovery, ServerDiscovery};
use ollana::endpoint::{endpoint_url, Endpoint};
use ollana::manager::ManagerCommand;

const MAGIC: [u8; 4] = [0x4c, 0x41, 0x4e, 0x41];

#[test]
fn magic_is_lana_big_endian() {
    assert_eq!(magic_payload(), MAGIC.to_vec());
    assert_eq!(u32::from_be_bytes(MAGIC), 0x4c414e41);
}

#[test]
fn server_echoes_magic_while_alive() {
    let server = ServerDiscovery::new();
    assert!(server.alive);
    assert_eq!(server.handle_datagram(&MAGIC), Some(MAGIC.to_vec()));
}

#[test]
fn server_is_silent_while_upstream_is_down() {
    let mut server = ServerDiscovery::new();
    server.on_probe_result(false);
    assert_eq!(server.handle_datagram(&MAGIC), None);
    server.on_probe_result(true);
    assert_eq!(server.handle_datagram(&MAGIC), Some(MAGIC.to_vec()));
}

#[test]
fn wrong_magic_never_elicits_a_reply() {
    let server = ServerDiscovery::new();
    assert_eq!(server.handle_datagram(&[0x4c, 0x41, 0x4e, 0x42]), None);
    assert_eq!(server.handle_datagram(&[]), None);
    assert_eq!(server.handle_datagram(&[0x4c, 0x41, 0x4e]), None);
}

#[test]
fn client_adds_the_sender_on_magic() {
    let client = ClientDiscovery::new();
    let ip: u32 = 0xc0a80017; // 192.168.0.23
    assert_eq!(
        client.handle_datagram(&MAGIC, ip),
        Some(ManagerCommand::Add(Endpoint::new(
            ip,
            OLLANA_SERVER_PROXY_DEFAULT_PORT
        )))
    );
}

#[test]
fn client_drops_wrong_magic() {
    let client = ClientDiscovery::new();
    assert_eq!(client.handle_datagram(&[0x41, 0x41, 0x41, 0x41], 1), None);
    assert_eq!(client.handle_datagram(&[0x4c], 1), None);
}

#[test]
fn client_broadcast_cadence_and_target() {
    let client = ClientDiscovery::new();
    assert_eq!(client.server_port, OLLANA_SERVER_DEFAULT_DISCOVERY_PORT);
    assert_eq!(
        client.broadcast_interval_secs,
        DEFAULT_CLIENT_BROADCAST_INTERVAL_SECS
    );
    assert_eq!(client.broadcast_payload(), MAGIC.to_vec());
}

#[test]
fn magic_prefix_is_enough() {
    // a datagram longer than four bytes is judged by its first four
    let server = ServerDiscovery::new();
    assert_eq!(
        server.handle_datagram(&[0x4c, 0x41, 0x4e, 0x41, 0xff]),
        Some(MAGIC.to_vec())
    );
}

#[test]
fn endpoint_url_is_dotted_decimal() {
    let ep = Endpoint::new(0xc0a80017, 11435);
    assert_eq!(endpoint_url(true, ep), "https://192.168.0.23:11435");
    assert_eq!(endpoint_url(false, ep), "http://192.168.0.23:11435");
    let low = Endpoint::new(0x7f000001, 80);
    assert_eq!(endpoint_url(false, low), "http://127.0.0.1:80");
}

#[test]
fn endpoint_url_covers_the_extremes() {
    let top = Endpoint::new(0xffffffff, 65535);
    assert_eq!(endpoint_url(true, top), "https://255.255.255.255:65535");
    let zero = Endpoint::new(0, 0);
    assert_eq!(endpoint_url(false, zero), "http://0.0.0.0:0");
}
