//! Well-known addresses and ports of the fabric.

use vstd::prelude::*;

verus! {

/// Port of the local upstream inference server.
pub const OLLAMA_DEFAULT_PORT: u16 = 11434;

/// Port the server proxy serves HTTPS on.
pub const OLLANA_SERVER_PROXY_DEFAULT_PORT: u16 = 11435;

/// Port the client proxy binds on localhost; the upstream's well-known port,
/// so local applications reach the tunnel transparently.
pub const OLLANA_CLIENT_PROXY_DEFAULT_PORT: u16 = 11434;

/// Fixed UDP port the discovery protocol uses.
pub const OLLANA_SERVER_DEFAULT_DISCOVERY_PORT: u16 = 11436;

/// Seconds between two discovery broadcasts of a client.
pub const DEFAULT_CLIENT_BROADCAST_INTERVAL_SECS: u64 = 5;

/// Seconds between two liveness probes, on either role.
pub const DEFAULT_LIVENESS_INTERVAL_SECS: u64 = 10;

/// Address of the local upstream inference server.
pub fn ollama_default_address() -> (r: &'static str)
    ensures
        r@ == "127.0.0.1"@,
{
    "127.0.0.1"
}

/// Address the server proxy binds on: all interfaces.
pub fn ollana_server_proxy_default_address() -> (r: &'static str)
    ensures
        r@ == "0.0.0.0"@,
{
    "0.0.0.0"
}

/// Address the client proxy binds on: localhost only.
pub fn ollana_client_proxy_default_address() -> (r: &'static str)
    ensures
        r@ == "127.0.0.1"@,
{
    "127.0.0.1"
}

/// Name of the HTTP header that carries a device identity.
pub fn device_id_header_name() -> (r: &'static str)
    ensures
        r@ == "X-Ollana-Device-Id"@,
{
    "X-Ollana-Device-Id"
}

} // verus!
