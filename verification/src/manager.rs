//! The client-side manager: a state machine over an insertion-ordered queue
//! of discovered servers and an at-most-one active tunnel.
//!
//! The surrounding process feeds it commands one at a time — discovered
//! servers to add, lost servers to remove — and performs the proxy effects a
//! transition returns: stopping the proxy of a lost server, starting one
//! toward a promoted server. The active slot is only recorded once the
//! started proxy reports ready, so a failed bind leaves the slot free for the
//! next attempt.

use vstd::prelude::*;

use crate::constants::DEFAULT_LIVENESS_INTERVAL_SECS;
use crate::device::Device;
use crate::endpoint::Endpoint;
use crate::seqs::{lemma_no_dups_push, lemma_remove_value_no_dups, no_dups, remove_value};

verus! {

/// A command into the manager's queue: a discovered server, or a server whose
/// liveness was lost.
#[derive(Clone, Copy, PartialEq, Eq, Structural, Debug)]
pub enum ManagerCommand {
    Add(Endpoint),
    Remove(Endpoint),
}

/// What the surrounding process must do after a transition: stop the proxy of
/// a dropped server, then start a proxy toward a promoted one and report back
/// with `proxy_started` once it is ready.
#[derive(Clone, Copy, PartialEq, Eq, Structural, Debug)]
pub struct ProxyEffect {
    pub stop: Option<Endpoint>,
    pub start: Option<Endpoint>,
}

/// The manager's state, as contracts see it.
pub ghost struct ManagerModel {
    pub servers: Seq<Endpoint>,
    pub active: Option<Endpoint>,
}

impl ManagerModel {
    /// The manager's invariants: the queue holds no server twice; when a
    /// tunnel is active, its server is the queue head; an empty queue has no
    /// active tunnel.
    pub open spec fn wf(self) -> bool {
        &&& no_dups(self.servers)
        &&& match self.active {
            Some(e) => self.servers.len() > 0 && self.servers[0] == e,
            None => true,
        }
    }
}

/// What adding a server does: an ineligible or already-known server changes
/// nothing; otherwise it is appended, and when no tunnel is active a proxy
/// toward the queue head is requested.
pub open spec fn add_transition(m: ManagerModel, server: Endpoint, eligible: bool) -> (
    ManagerModel,
    ProxyEffect,
) {
    if !eligible || m.servers.contains(server) {
        (m, ProxyEffect { stop: None, start: None })
    } else {
        let m2 = ManagerModel { servers: m.servers.push(server), active: m.active };
        if m.active is None {
            (m2, ProxyEffect { stop: None, start: Some(m2.servers[0]) })
        } else {
            (m2, ProxyEffect { stop: None, start: None })
        }
    }
}

/// What removing a server does: it leaves the queue; the active tunnel is
/// stopped iff it pointed at the removed server; when no tunnel remains and
/// the queue is non-empty, a proxy toward the new head is requested.
pub open spec fn remove_transition(m: ManagerModel, server: Endpoint) -> (
    ManagerModel,
    ProxyEffect,
) {
    let servers2 = remove_value(m.servers, server);
    let stopped = m.active == Some(server);
    let active2: Option<Endpoint> = if stopped {
        None
    } else {
        m.active
    };
    let start: Option<Endpoint> = if active2 is None && servers2.len() > 0 {
        Some(servers2[0])
    } else {
        None
    };
    (
        ManagerModel { servers: servers2, active: active2 },
        ProxyEffect {
            stop: if stopped {
                Some(server)
            } else {
                None
            },
            start,
        },
    )
}

/// What a ready report does: the server becomes the active tunnel iff no
/// tunnel is active and the server is still the queue head; a stale report
/// changes nothing.
pub open spec fn started_transition(m: ManagerModel, server: Endpoint) -> ManagerModel {
    if m.active is None && m.servers.len() > 0 && m.servers[0] == server {
        ManagerModel { servers: m.servers, active: Some(server) }
    } else {
        m
    }
}

/// Removing a value keeps the head of a duplicate-free sequence when the head
/// is another value.
proof fn lemma_remove_value_keeps_head(s: Seq<Endpoint>, x: Endpoint)
    requires
        s.len() > 0,
        s[0] != x,
    ensures
        remove_value(s, x).len() > 0,
        remove_value(s, x)[0] == s[0],
    decreases s.len(),
{
    if s.len() == 1 {
        assert(s.drop_last().len() == 0);
        assert(remove_value(s.drop_last(), x) == s.drop_last());
        assert(s.last() == s[0]);
        assert(remove_value(s, x) == s.drop_last().push(s[0]));
        assert(remove_value(s, x)[0] == s[0]);
    } else {
        assert(s.drop_last()[0] == s[0]);
        lemma_remove_value_keeps_head(s.drop_last(), x);
    }
}

/// In a duplicate-free sequence whose head is the value, removal drops
/// exactly the head.
proof fn lemma_remove_value_unique_head(s: Seq<Endpoint>, x: Endpoint)
    requires
        no_dups(s),
        s.len() > 0,
        s[0] == x,
    ensures
        remove_value(s, x) == s.subrange(1, s.len() as int),
    decreases s.len(),
{
    if s.len() == 1 {
        assert(s.drop_last().len() == 0);
        assert(remove_value(s.drop_last(), x) == s.drop_last());
        assert(s.last() == s[0]);
        assert(remove_value(s, x) == s.drop_last());
        assert(remove_value(s, x) =~= s.subrange(1, 1));
    } else {
        assert(no_dups(s.drop_last()));
        assert(s.drop_last()[0] == x);
        lemma_remove_value_unique_head(s.drop_last(), x);
        assert(s.last() != x);
        assert(remove_value(s, x) =~= s.subrange(1, s.len() as int)) by {
            assert(remove_value(s, x) == remove_value(s.drop_last(), x).push(s.last()));
            assert(remove_value(s.drop_last(), x) == s.drop_last().subrange(
                1,
                s.len() - 1,
            ));
            assert forall|i: int| 0 <= i < s.len() - 1 implies remove_value(s, x)[i] == s.subrange(
                1,
                s.len() as int,
            )[i] by {
                if i < s.len() - 2 {
                    assert(s.drop_last().subrange(1, s.len() - 1)[i] == s[i + 1]);
                }
            }
        }
    }
}

/// The manager itself: the queue, the active slot, and the cadence of the
/// per-server liveness probe.
pub struct Manager {
    pub servers: Vec<Endpoint>,
    pub active: Option<Endpoint>,
    pub liveness_interval_secs: u64,
}

impl View for Manager {
    type V = ManagerModel;

    open spec fn view(&self) -> ManagerModel {
        ManagerModel { servers: self.servers@, active: self.active }
    }
}

/// Does the queue hold the endpoint?
fn contains_endpoint(v: &Vec<Endpoint>, e: Endpoint) -> (r: bool)
    ensures
        r == v@.contains(e),
{
    let mut i: usize = 0;
    while i < v.len()
        invariant
            0 <= i <= v.len(),
            forall|k: int| 0 <= k < i ==> v@[k] != e,
        decreases v.len() - i,
    {
        if v[i] == e {
            assert(v@.contains(e));
            return true;
        }
        i += 1;
    }
    assert(!v@.contains(e)) by {
        if v@.contains(e) {
            let k = choose|k: int| 0 <= k < v@.len() && v@[k] == e;
            assert(v@[k] != e);
        }
    }
    false
}

impl Manager {
    /// A fresh manager: empty queue, no active tunnel, default probe cadence.
    pub fn new() -> (m: Manager)
        ensures
            m@.wf(),
            m@.servers == Seq::<Endpoint>::empty(),
            m@.active is None,
            m.liveness_interval_secs == DEFAULT_LIVENESS_INTERVAL_SECS,
    {
        Manager {
            servers: Vec::new(),
            active: None,
            liveness_interval_secs: DEFAULT_LIVENESS_INTERVAL_SECS,
        }
    }

    /// Must the surrounding process run the handshake and probe for this
    /// server? Only a server not yet in the queue is worth checking.
    pub fn needs_checks(&self, server: Endpoint) -> (r: bool)
        ensures
            r == !self@.servers.contains(server),
    {
        !contains_endpoint(&self.servers, server)
    }

    /// Handles an add command. `eligible` is the verdict of
    /// `evaluate_candidate` on the handshake and probe the surrounding
    /// process ran.
    pub fn handle_add(&mut self, server: Endpoint, eligible: bool) -> (eff: ProxyEffect)
        requires
            old(self)@.wf(),
        ensures
            final(self)@.wf(),
            final(self)@ == add_transition(old(self)@, server, eligible).0,
            eff == add_transition(old(self)@, server, eligible).1,
            final(self).liveness_interval_secs == old(self).liveness_interval_secs,
    {
        let ghost m = self@;
        if !eligible || contains_endpoint(&self.servers, server) {
            ProxyEffect { stop: None, start: None }
        } else {
            proof {
                lemma_no_dups_push(m.servers, server);
            }
            self.servers.push(server);
            if self.active.is_none() {
                let head = self.servers[0];
                ProxyEffect { stop: None, start: Some(head) }
            } else {
                ProxyEffect { stop: None, start: None }
            }
        }
    }

    /// Handles a remove command: drops the server from the queue, stops its
    /// tunnel when it was the active one, and asks for a proxy toward the new
    /// head when one is due.
    pub fn handle_remove(&mut self, server: Endpoint) -> (eff: ProxyEffect)
        requires
            old(self)@.wf(),
        ensures
            final(self)@.wf(),
            final(self)@ == remove_transition(old(self)@, server).0,
            eff == remove_transition(old(self)@, server).1,
            final(self).liveness_interval_secs == old(self).liveness_interval_secs,
    {
        let ghost m = self@;
        let ghost dv = self.servers@;

        // Drop every occurrence of the server from the queue.
        let mut out: Vec<Endpoint> = Vec::new();
        let mut i: usize = 0;
        assert(out@ =~= remove_value(dv.take(0), server));
        while i < self.servers.len()
            invariant
                0 <= i <= self.servers.len(),
                dv == self.servers@,
                out@ == remove_value(dv.take(i as int), server),
            decreases self.servers.len() - i,
        {
            let ghost pre = out@;
            assert(dv.take(i + 1).drop_last() =~= dv.take(i as int));
            assert(dv.take(i + 1).last() == dv[i as int]);
            if self.servers[i] != server {
                out.push(self.servers[i]);
                assert(out@ =~= pre.push(dv[i as int]));
            }
            i += 1;
        }
        assert(dv.take(dv.len() as int) =~= dv);
        proof {
            lemma_remove_value_no_dups(dv, server);
        }
        self.servers = out;

        // Stop the active tunnel iff it pointed at the removed server.
        let stopped: bool = match self.active {
            Some(active) => active == server,
            None => false,
        };
        let stop: Option<Endpoint> = if stopped {
            self.active = None;
            Some(server)
        } else {
            None
        };

        // When no tunnel remains and candidates do, promote the new head.
        let start: Option<Endpoint> = if self.active.is_none() && self.servers.len() > 0 {
            Some(self.servers[0])
        } else {
            None
        };

        proof {
            if self.active is Some {
                let e = self.active->Some_0;
                assert(m.servers[0] == e);
                lemma_remove_value_keeps_head(m.servers, server);
            }
        }
        ProxyEffect { stop, start }
    }

    /// Records a proxy's ready report: the server becomes the active tunnel
    /// iff no tunnel is active and it is still the queue head.
    pub fn proxy_started(&mut self, server: Endpoint)
        requires
            old(self)@.wf(),
        ensures
            final(self)@.wf(),
            final(self)@ == started_transition(old(self)@, server),
            final(self).liveness_interval_secs == old(self).liveness_interval_secs,
    {
        if self.active.is_none() && self.servers.len() > 0 {
            if self.servers[0] == server {
                self.active = Some(server);
            }
        }
    }

    /// The server of the active tunnel, when one is running.
    pub fn active_server(&self) -> (r: Option<Endpoint>)
        ensures
            r == self@.active,
    {
        self.active
    }
}

/// Decides whether a discovered server may join the candidate queue: the
/// handshake must have yielded the peer's identity, that identity must be in
/// our allow-list, and the probe of the peer's upstream must have succeeded.
pub fn evaluate_candidate(device: &Device, handshake: &Option<String>, probe_ok: bool) -> (r: bool)
    ensures
        r == (match handshake.deep_view() {
            Some(idv) => device.allowed.deep_view().contains(idv) && probe_ok,
            None => false,
        }),
{
    match handshake {
        Some(id) => {
            let known = device.is_allowed(id.clone());
            known && probe_ok
        },
        None => false,
    }
}

/// Law: failover. With candidate queue `[a, b, ...]` and `a` active, the
/// remove command for `a` stops `a`'s tunnel and requests a proxy toward `b`
/// in the same transition; once that proxy reports ready, `b` is the active
/// tunnel. The queue meanwhile holds exactly the old tail.
pub proof fn lemma_failover(m: ManagerModel, a: Endpoint, b: Endpoint)
    requires
        m.wf(),
        m.servers.len() >= 2,
        m.servers[0] == a,
        m.servers[1] == b,
        m.active == Some(a),
    ensures
        remove_transition(m, a).1.stop == Some(a),
        remove_transition(m, a).1.start == Some(b),
        remove_transition(m, a).0.servers == m.servers.subrange(1, m.servers.len() as int),
        started_transition(remove_transition(m, a).0, b).active == Some(b),
        started_transition(remove_transition(m, a).0, b).servers == m.servers.subrange(
            1,
            m.servers.len() as int,
        ),
{
    lemma_remove_value_unique_head(m.servers, a);
    assert(remove_value(m.servers, a)[0] == b);
}

} // verus!
