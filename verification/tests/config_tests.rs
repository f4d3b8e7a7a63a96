use ollana::args::ServeArgs;
use ollana::text::is_plain;
use ollana::certs::Certs;
use ollana::config::{parse_allowed, render_allowed};

fn peer_id(tag: &str) -> String {
    let mut id = tag.to_string();
    while id.len() < 64 {
        id.push('0');
    }
    id
}

#[test]
fn renders_the_canonical_form() {
    let ids = vec!["a1".to_string(), "b2".to_string()];
    assert_eq!(render_allowed(&ids), "allowed = [\"a1\",\"b2\"]\n");
    let empty: Vec<String> = Vec::new();
    assert_eq!(render_allowed(&empty), "allowed = []\n");
}

#[test]
fn parses_what_it_renders() {
    let ids = vec![peer_id("a1"), peer_id("b2"), peer_id("c3")];
    let text = render_allowed(&ids);
    assert_eq!(parse_allowed(&text), Some(ids));
    let empty: Vec<String> = Vec::new();
    assert_eq!(parse_allowed(&render_allowed(&empty)), Some(Vec::new()));
}

#[test]
fn parses_a_hand_edited_file() {
    let text = "allowed = [\n    \"x1\",\n    \"y2\",\n]\n";
    assert_eq!(
        parse_allowed(text),
        Some(vec!["x1".to_string(), "y2".to_string()])
    );
    assert_eq!(
        parse_allowed("  allowed=[\"z\"]  "),
        Some(vec!["z".to_string()])
    );
}

#[test]
fn rejects_other_shapes() {
    assert_eq!(parse_allowed(""), None);
    assert_eq!(parse_allowed("denied = [\"a\"]"), None);
    assert_eq!(parse_allowed("allowed = [\"a\""), None);
    assert_eq!(parse_allowed("allowed = [\"a\\\"b\"]"), None);
    assert_eq!(parse_allowed("allowed = [\"a\"] trailing"), None);
}

#[test]
fn cert_store_lays_out_the_data_directory() {
    let certs = Certs::new("/var/lib/ollana".to_string());
    assert_eq!(certs.client_cert_path(), "/var/lib/ollana/client_cert.pem");
    assert_eq!(certs.client_key_path(), "/var/lib/ollana/client_key.pem");
    assert_eq!(certs.server_cert_path(), "/var/lib/ollana/server_cert.pem");
    assert_eq!(certs.server_key_path(), "/var/lib/ollana/server_key.pem");
    assert_eq!(
        certs.http_server_cert_path(),
        "/var/lib/ollana/http_server_cert.pem"
    );
    assert_eq!(
        certs.http_server_key_path(),
        "/var/lib/ollana/http_server_key.pem"
    );
}

#[test]
fn pid_file_needs_daemon_mode() {
    let plain = ServeArgs { daemon: false, pid_file: None, log_file: None };
    assert!(plain.validate());
    let with_pid = ServeArgs {
        daemon: false,
        pid_file: Some("/run/ollana.pid".to_string()),
        log_file: None,
    };
    assert!(!with_pid.validate());
    let daemonized = ServeArgs {
        daemon: true,
        pid_file: Some("/run/ollana.pid".to_string()),
        log_file: None,
    };
    assert!(daemonized.validate());
}

#[test]
fn plain_text_has_no_quoting() {
    assert!(is_plain("abcdef0123"));
    assert!(is_plain(""));
    assert!(!is_plain("a\"b"));
    assert!(!is_plain("a\\b"));
}
