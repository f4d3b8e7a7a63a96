//! The discovery protocol: single 4-byte UDP datagrams framed by a magic
//! number.
//!
//! A client broadcasts the magic periodically; a server echoes it back to the
//! sender, but only while its local upstream is alive. A server whose
//! upstream died falls silent instead of sending a goodbye, so clients
//! naturally lose candidates that stop answering.

use vstd::prelude::*;

use crate::constants::{
    DEFAULT_CLIENT_BROADCAST_INTERVAL_SECS, DEFAULT_LIVENESS_INTERVAL_SECS,
    OLLANA_SERVER_DEFAULT_DISCOVERY_PORT, OLLANA_SERVER_PROXY_DEFAULT_PORT,
};
use crate::endpoint::Endpoint;
use crate::manager::ManagerCommand;

verus! {

/// The wire form of the discovery magic: the big-endian bytes of
/// 0x4C414E41, ASCII "LANA".
pub open spec fn magic_bytes() -> Seq<u8> {
    seq![0x4cu8, 0x41u8, 0x4eu8, 0x41u8]
}

/// A datagram frames a discovery message iff its first four bytes are the
/// magic.
pub open spec fn is_magic_datagram(d: Seq<u8>) -> bool {
    d.len() >= 4 && d.subrange(0, 4) == magic_bytes()
}

/// The payload of a discovery broadcast or reply.
pub fn magic_payload() -> (r: Vec<u8>)
    ensures
        r@ == magic_bytes(),
{
    let mut v: Vec<u8> = Vec::new();
    v.push(0x4c);
    v.push(0x41);
    v.push(0x4e);
    v.push(0x41);
    proof {
        assert(v@ =~= magic_bytes());
    }
    v
}

/// Checks the framing of a received datagram.
pub fn datagram_is_magic(data: &[u8]) -> (r: bool)
    ensures
        r == is_magic_datagram(data@),
{
    if data.len() < 4 {
        return false;
    }
    let ok = data[0] == 0x4c && data[1] == 0x41 && data[2] == 0x4e && data[3] == 0x41;
    proof {
        let m = magic_bytes();
        let p = data@.subrange(0, 4);
        assert(p[0] == data@[0] && p[1] == data@[1] && p[2] == data@[2] && p[3] == data@[3]);
        assert(m[0] == 0x4cu8 && m[1] == 0x41u8 && m[2] == 0x4eu8 && m[3] == 0x41u8);
        if ok {
            assert(p =~= m);
        }
    }
    ok
}

/// The reply a server owes to a received datagram, given its liveness flag:
/// the magic echoed back iff the flag is set and the datagram frames a
/// discovery message; silence otherwise.
pub open spec fn server_reply_model(alive: bool, d: Seq<u8>) -> Option<Seq<u8>> {
    if alive && is_magic_datagram(d) {
        Some(magic_bytes())
    } else {
        None
    }
}

/// The command a client derives from a received datagram: add the sender,
/// under the well-known server proxy port, iff the datagram frames a
/// discovery reply.
pub open spec fn client_event_model(d: Seq<u8>, sender_ip: u32) -> Option<ManagerCommand> {
    if is_magic_datagram(d) {
        Some(ManagerCommand::Add(Endpoint { ip: sender_ip, port: OLLANA_SERVER_PROXY_DEFAULT_PORT }))
    } else {
        None
    }
}

/// The server side of discovery: the bound UDP port, the cadence of the
/// upstream liveness probe, and the flag mirroring its last result.
pub struct ServerDiscovery {
    pub port: u16,
    pub liveness_interval_secs: u64,
    pub alive: bool,
}

impl ServerDiscovery {
    /// A fresh server discovery: the fixed port, the default probe cadence,
    /// and the liveness flag initially set.
    pub fn new() -> (s: ServerDiscovery)
        ensures
            s.port == OLLANA_SERVER_DEFAULT_DISCOVERY_PORT,
            s.liveness_interval_secs == DEFAULT_LIVENESS_INTERVAL_SECS,
            s.alive,
    {
        ServerDiscovery {
            port: OLLANA_SERVER_DEFAULT_DISCOVERY_PORT,
            liveness_interval_secs: DEFAULT_LIVENESS_INTERVAL_SECS,
            alive: true,
        }
    }

    /// Records the result of an upstream liveness probe: the flag mirrors the
    /// last observed state.
    pub fn on_probe_result(&mut self, ok: bool)
        ensures
            final(self).alive == ok,
            final(self).port == old(self).port,
            final(self).liveness_interval_secs == old(self).liveness_interval_secs,
    {
        self.alive = ok;
    }

    /// Decides the reply to a received datagram: the magic echoed to the
    /// sender iff the upstream is alive and the framing matches.
    pub fn handle_datagram(&self, data: &[u8]) -> (reply: Option<Vec<u8>>)
        ensures
            reply.deep_view() == server_reply_model(self.alive, data@),
    {
        if self.alive && datagram_is_magic(data) {
            Some(magic_payload())
        } else {
            None
        }
    }
}

/// The client side of discovery: the destination port of broadcasts and
/// their cadence.
pub struct ClientDiscovery {
    pub server_port: u16,
    pub broadcast_interval_secs: u64,
}

impl ClientDiscovery {
    /// A fresh client discovery aimed at the fixed discovery port, with the
    /// default broadcast cadence.
    pub fn new() -> (c: ClientDiscovery)
        ensures
            c.server_port == OLLANA_SERVER_DEFAULT_DISCOVERY_PORT,
            c.broadcast_interval_secs == DEFAULT_CLIENT_BROADCAST_INTERVAL_SECS,
    {
        ClientDiscovery {
            server_port: OLLANA_SERVER_DEFAULT_DISCOVERY_PORT,
            broadcast_interval_secs: DEFAULT_CLIENT_BROADCAST_INTERVAL_SECS,
        }
    }

    /// The payload broadcast on every tick.
    pub fn broadcast_payload(&self) -> (r: Vec<u8>)
        ensures
            r@ == magic_bytes(),
    {
        magic_payload()
    }

    /// Derives the manager command from a received datagram: the sender
    /// joins the candidates, under the well-known server proxy port, iff the
    /// framing matches; anything else is dropped.
    pub fn handle_datagram(&self, data: &[u8], sender_ip: u32) -> (cmd: Option<ManagerCommand>)
        ensures
            cmd == client_event_model(data@, sender_ip),
    {
        if datagram_is_magic(data) {
            Some(
                ManagerCommand::Add(
                    Endpoint::new(sender_ip, OLLANA_SERVER_PROXY_DEFAULT_PORT),
                ),
            )
        } else {
            None
        }
    }
}

/// Law: discovery framing. A datagram whose first four bytes are not the
/// magic never elicits a reply from a server — whatever its liveness flag —
/// and never yields an add command on a client.
pub proof fn lemma_discovery_framing(d: Seq<u8>, alive: bool, sender_ip: u32)
    requires
        !is_magic_datagram(d),
    ensures
        server_reply_model(alive, d) is None,
        client_event_model(d, sender_ip) is None,
{
}

/// Law: liveness gate. While the upstream probe fails, the server answers no
/// datagram at all; once a successful probe is recorded, the next matching
/// datagram is answered with the magic.
pub proof fn lemma_liveness_gate(d: Seq<u8>)
    ensures
        server_reply_model(false, d) is None,
        is_magic_datagram(d) ==> server_reply_model(true, d) == Some(magic_bytes()),
{
}

} // verus!
