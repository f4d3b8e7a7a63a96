//! The decisions shared by the two streaming proxies: the authorization
//! rule of the server proxy, the responses of the authorize endpoint, the
//! target URL of a forwarded request, and the in-order relay of body chunks.
//!
//! The surrounding process owns the sockets and TLS; it extracts the path,
//! query and identity header of each request, asks these functions what to
//! do, and streams the chunks the relay hands back.

use vstd::prelude::*;

use crate::device::Device;
use crate::ollana::{render_authorization_body, spec_authorization_body, AuthorizationResponse};

verus! {

/// The authorization rule of the server proxy: the probe path is always
/// admitted; any other request needs an identity header naming an allowed
/// device.
pub open spec fn spec_authorized(
    path: Seq<char>,
    header: Option<Seq<char>>,
    allowed: Seq<Seq<char>>,
) -> bool {
    path == "/api/version"@ || (match header {
        Some(id) => allowed.contains(id),
        None => false,
    })
}

/// Decides one request by the authorization rule.
pub fn is_authorized(path: &String, header: &Option<String>, device: &Device) -> (r: bool)
    ensures
        r == spec_authorized(path@, header.deep_view(), device.allowed.deep_view()),
{
    let probe_path = String::from_str("/api/version");
    if path.eq(&probe_path) {
        true
    } else {
        match header {
            Some(id) => device.is_allowed(id.clone()),
            None => false,
        }
    }
}

/// A decided response: a status and a full body.
pub struct ProxyResponse {
    pub status: u16,
    pub body: String,
}

/// The response of the authorize endpoint: 200 with our identity as a JSON
/// body when the request is admitted, else 401 with a terse text body.
pub fn authorize_response(device: &Device, authorized: bool) -> (r: ProxyResponse)
    ensures
        authorized ==> r.status == 200 && r.body@ == spec_authorization_body(device.id@),
        !authorized ==> r.status == 401 && r.body@ == "Device is not authorized"@,
{
    if authorized {
        let payload = AuthorizationResponse::new(device.id.clone());
        ProxyResponse { status: 200, body: render_authorization_body(&payload) }
    } else {
        ProxyResponse { status: 401, body: String::from_str("Device is not authorized") }
    }
}

/// The denial of the default forwarder: 401 with the terse text body.
pub fn denial_response() -> (r: ProxyResponse)
    ensures
        r.status == 401,
        r.body@ == "Device is not authorized"@,
{
    ProxyResponse { status: 401, body: String::from_str("Device is not authorized") }
}

/// The URL a forwarded request is sent to: the target base, then the
/// original path, then the original query when one was present.
pub open spec fn spec_forward_url(base: Seq<char>, path: Seq<char>, query: Option<Seq<char>>)
    -> Seq<char> {
    base + path + (match query {
        Some(q) => seq!['?'] + q,
        None => Seq::empty(),
    })
}

/// Composes the forwarding URL from the target base and the original
/// request's path and query.
pub fn compose_forward_url(base: &str, path: &str, query: &Option<String>) -> (r: String)
    ensures
        r@ == spec_forward_url(base@, path@, query.deep_view()),
{
    let mut r = String::from_str(base);
    r.append(path);
    match query {
        Some(q) => {
            r.append("?");
            r.append(q.as_str());
            proof {
                reveal_strlit("?");
                assert(r@ =~= spec_forward_url(base@, path@, query.deep_view()));
            }
        },
        None => {
            proof {
                assert(r@ =~= spec_forward_url(base@, path@, query.deep_view()));
            }
        },
    }
    r
}

/// An in-order relay of body chunks between the two sides of a proxy: what
/// the pump between the request payload and the outgoing body preserves.
pub struct ChunkRelay {
    pub queued: Vec<Vec<u8>>,
}

impl ChunkRelay {
    /// An empty relay.
    pub fn new() -> (r: ChunkRelay)
        ensures
            r.queued.deep_view() == Seq::<Seq<u8>>::empty(),
    {
        let relay = ChunkRelay { queued: Vec::new() };
        proof {
            assert(relay.queued.deep_view() =~~= Seq::<Seq<u8>>::empty());
        }
        relay
    }

    /// Queues one received chunk behind the earlier ones.
    pub fn push_chunk(&mut self, chunk: Vec<u8>)
        ensures
            final(self).queued.deep_view() == old(self).queued.deep_view().push(chunk@),
    {
        let ghost dv = self.queued.deep_view();
        let ghost cv = chunk@;
        self.queued.push(chunk);
        proof {
            assert(self.queued.deep_view() =~~= dv.push(cv));
        }
    }

    /// Hands out the oldest queued chunk, when one is waiting.
    pub fn take_chunk(&mut self) -> (r: Option<Vec<u8>>)
        ensures
            match r {
                Some(c) => old(self).queued.deep_view().len() > 0 && c@ == old(
                    self,
                ).queued.deep_view()[0] && final(self).queued.deep_view() == old(
                    self,
                ).queued.deep_view().drop_first(),
                None => old(self).queued.deep_view().len() == 0 && final(self).queued.deep_view()
                    == old(self).queued.deep_view(),
            },
    {
        let ghost dv = self.queued.deep_view();
        if self.queued.len() == 0 {
            None
        } else {
            let chunk = self.queued.remove(0);
            proof {
                assert(self.queued.deep_view() =~~= dv.drop_first());
                assert(chunk@ =~~= dv[0]);
            }
            Some(chunk)
        }
    }
}

/// The contents of a relay after a sequence of chunks was pushed.
pub open spec fn relay_push_all(s: Seq<Seq<u8>>, cs: Seq<Seq<u8>>) -> Seq<Seq<u8>>
    decreases cs.len(),
{
    if cs.len() == 0 {
        s
    } else {
        relay_push_all(s.push(cs.first()), cs.drop_first())
    }
}

/// Pushing appends: the relay holds the earlier chunks followed by the
/// pushed ones.
pub proof fn lemma_relay_push_all(s: Seq<Seq<u8>>, cs: Seq<Seq<u8>>)
    ensures
        relay_push_all(s, cs) == s + cs,
    decreases cs.len(),
{
    if cs.len() == 0 {
        assert(relay_push_all(s, cs) =~= s + cs);
    } else {
        lemma_relay_push_all(s.push(cs.first()), cs.drop_first());
        assert(s.push(cs.first()) + cs.drop_first() =~= s + cs);
    }
}

/// Law: streaming order. Chunks pushed into an empty relay are held in
/// exactly the order and content they arrived in, so draining the relay
/// hands each chunk out unchanged and in order.
pub proof fn lemma_relay_fifo(cs: Seq<Seq<u8>>)
    ensures
        relay_push_all(Seq::empty(), cs) == cs,
        forall|k: int| 0 <= k < cs.len() ==> relay_push_all(Seq::empty(), cs)[k] == cs[k],
{
    lemma_relay_push_all(Seq::empty(), cs);
    assert(Seq::empty() + cs =~= cs);
}

/// Law: authorization predicate. A request without the identity header is
/// denied, unless its path is exactly the probe path; nothing else admits
/// it.
pub proof fn lemma_gate_requires_header(path: Seq<char>, allowed: Seq<Seq<char>>)
    ensures
        spec_authorized(path, None, allowed) == (path == "/api/version"@),
{
}

} // verus!
