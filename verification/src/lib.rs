//! A peer-to-peer LAN fabric that redirects requests meant for a local
//! inference HTTP endpoint toward a compatible peer when no local upstream is
//! running.
//!
//! The crate holds the control plane of the daemon: device identity
//! derivation, the persisted allow-list, discovery datagram framing and
//! gating, the handshake and probe response interpretation, the authorization
//! rule of the server proxy, and the client-side manager state machine.
//! Network and file plumbing around these decisions lives outside the
//! library.

use vstd::prelude::*;

pub mod admin;
pub mod args;
pub mod certs;
pub mod config;
pub mod constants;
pub mod device;
pub mod discovery;
pub mod endpoint;
pub mod error;
pub mod identity;
pub mod json;
pub mod manager;
pub mod ollama;
pub mod ollana;
pub mod proxy;
pub mod seqs;
pub mod text;

verus! {

/// The role a daemon takes at startup: a serving host has the upstream
/// running locally, a client host tunnels to a discovered peer.
#[derive(Clone, Copy, PartialEq, Eq, Structural, Debug)]
pub enum Mode {
    Client,
    Server,
}

/// Decides the daemon's role from the result of the initial upstream probe.
pub fn detect_mode(probe_ok: bool) -> (m: Mode)
    ensures
        m == (if probe_ok {
            Mode::Server
        } else {
            Mode::Client
        }),
{
    if probe_ok {
        Mode::Server
    } else {
        Mode::Client
    }
}

} // verus!
