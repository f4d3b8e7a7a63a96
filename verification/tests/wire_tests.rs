use ollana::device::Device;
use ollana::error::OllanaError;
use ollana::ollama::{parse_version_response, probe_response_ok};
use ollana::ollana::{check_authorization_response, render_authorization_body, AuthorizationResponse};
use ollana::proxy::{
    authorize_response, compose_forward_url, denial_response, is_authorized, ChunkRelay,
};
use ollana::{detect_mode, Mode};

fn test_identity() -> String {
    "a".repeat(64)
}

fn peer_id(tag: &str) -> String {
    let mut id = tag.to_string();
    while id.len() < 64 {
        id.push('0');
    }
    id
}

#[test]
fn authorization_body_is_canonical_json() {
    let resp = AuthorizationResponse::new(test_identity());
    let body = render_authorization_body(&resp);
    assert_eq!(body, format!("{{\"device_id\":\"{}\"}}", test_identity()));
}

#[test]
fn handshake_accepts_the_peer_identity() {
    let id = peer_id("b1");
    let body = format!("{{\"device_id\":\"{}\"}}", id);
    match check_authorization_response(200, &body) {
        Ok(Some(resp)) => assert_eq!(resp.device_id, id),
        _ => panic!("expected the peer identity"),
    }
}

#[test]
fn handshake_reads_denial_from_401() {
    let body = "we do not allow you".to_string();
    match check_authorization_response(401, &body) {
        Ok(None) => {}
        _ => panic!("expected a clean denial"),
    }
}

#[test]
fn handshake_rejects_a_malformed_body() {
    let body = "not json at all".to_string();
    match check_authorization_response(200, &body) {
        Err(OllanaError::Parse) => {}
        _ => panic!("expected a parse error"),
    }
}

#[test]
fn handshake_tolerates_whitespace() {
    let id = peer_id("b2");
    let body = format!("{{ \"device_id\" : \"{}\" }}", id);
    match check_authorization_response(200, &body) {
        Ok(Some(resp)) => assert_eq!(resp.device_id, id),
        _ => panic!("expected the peer identity"),
    }
}

#[test]
fn probe_needs_2xx_and_a_version() {
    let good = "{\"version\":\"0.5.7\"}".to_string();
    assert!(probe_response_ok(200, &good));
    assert!(probe_response_ok(299, &good));
    assert!(!probe_response_ok(500, &good));
    assert!(!probe_response_ok(199, &good));
    assert!(!probe_response_ok(200, &"{}".to_string()));
    let version = parse_version_response(200, &good).expect("probe should pass");
    assert_eq!(version.version, "0.5.7");
}

#[test]
fn gate_admits_the_probe_path_without_a_header() {
    let device = Device::from_parts(test_identity(), Vec::new());
    assert!(is_authorized(&"/api/version".to_string(), &None, &device));
    assert!(!is_authorized(&"/api/generate".to_string(), &None, &device));
}

#[test]
fn gate_checks_the_header_against_the_allow_list() {
    let device = Device::from_parts(test_identity(), vec![peer_id("c1")]);
    assert!(is_authorized(
        &"/api/generate".to_string(),
        &Some(peer_id("c1")),
        &device
    ));
    assert!(!is_authorized(
        &"/api/generate".to_string(),
        &Some(peer_id("c2")),
        &device
    ));
}

#[test]
fn authorize_endpoint_answers_with_identity_or_denial() {
    let device = Device::from_parts(test_identity(), Vec::new());
    let ok = authorize_response(&device, true);
    assert_eq!(ok.status, 200);
    assert_eq!(ok.body, format!("{{\"device_id\":\"{}\"}}", test_identity()));
    let denied = authorize_response(&device, false);
    assert_eq!(denied.status, 401);
    assert_eq!(denied.body, "Device is not authorized");
    let default_denial = denial_response();
    assert_eq!(default_denial.status, 401);
    assert_eq!(default_denial.body, "Device is not authorized");
}

#[test]
fn forward_url_keeps_path_and_query() {
    let with_query = compose_forward_url(
        "https://192.168.0.23:11435",
        "/api/generate",
        &Some("stream=true".to_string()),
    );
    assert_eq!(
        with_query,
        "https://192.168.0.23:11435/api/generate?stream=true"
    );
    let without_query = compose_forward_url("http://127.0.0.1:11434", "/api/version", &None);
    assert_eq!(without_query, "http://127.0.0.1:11434/api/version");
}

#[test]
fn relay_hands_chunks_out_in_order() {
    let mut relay = ChunkRelay::new();
    relay.push_chunk(vec![1, 2, 3]);
    relay.push_chunk(vec![]);
    relay.push_chunk(vec![4]);
    assert_eq!(relay.take_chunk(), Some(vec![1, 2, 3]));
    assert_eq!(relay.take_chunk(), Some(vec![]));
    assert_eq!(relay.take_chunk(), Some(vec![4]));
    assert_eq!(relay.take_chunk(), None);
}

#[test]
fn mode_follows_the_initial_probe() {
    assert_eq!(detect_mode(true), Mode::Server);
    assert_eq!(detect_mode(false), Mode::Client);
}

#[test]
fn error_messages_are_terse() {
    assert_eq!(OllanaError::Parse.message(), "parse error");
    assert_eq!(OllanaError::Io.message(), "IO error");
    assert_eq!(OllanaError::Network.message(), "network error");
    assert_eq!(OllanaError::TlsConfig.message(), "TLS configuration error");
    assert_eq!(OllanaError::NotAuthorized.message(), "device is not authorized");
    assert_eq!(OllanaError::NotFound.message(), "not found");
    assert_eq!(OllanaError::InvalidState.message(), "invalid state");
}
