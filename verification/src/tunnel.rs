//! Tunnel bookkeeping: which local ports forward where, batch groups, and
//! the display aggregation of grouped tunnels.
//!
//! The manager owns only data. Spawning the forwarding process, probing a
//! port's real bindability and waiting for process exit are the caller's
//! job; every close operation hands back the records whose processes the
//! caller must reap, so nothing is ever silently dropped.

use vstd::prelude::*;

use crate::server::Server;
use crate::text::{chars_vec, dec_str, find_char, parse_u64_spec, str_eq, string_from_chars, u64_dec_chars};

verus! {

/// Default local port range scanned for a free port.
pub const DEFAULT_PORT_START: u16 = 8000;

pub const DEFAULT_PORT_END: u16 = 8100;

/// One tracked port forward: `local_port` on this machine forwards to
/// `remote_host:remote_port` through the host named `server_host`.
#[derive(Debug)]
pub struct Tunnel {
    pub local_port: u16,
    pub remote_host: String,
    pub remote_port: u16,
    pub server_host: String,
    /// Shared id for tunnels opened as one batch; `None` for individual
    /// tunnels.
    pub group_id: Option<u32>,
}

impl Clone for Tunnel {
    fn clone(&self) -> (r: Self)
        ensures
            r == *self,
    {
        Tunnel {
            local_port: self.local_port,
            remote_host: self.remote_host.clone(),
            remote_port: self.remote_port,
            server_host: self.server_host.clone(),
            group_id: self.group_id,
        }
    }
}

/// A row of the tunnel list: one tunnel, or one collapsed batch.
#[derive(Debug)]
pub enum TunnelDisplayItem {
    Single { local_port: u16, remote_host: String, remote_port: u16, server_host: String },
    Group {
        group_id: u32,
        local_port_start: u16,
        local_port_end: u16,
        remote_host: String,
        remote_port_start: u16,
        remote_port_end: u16,
        server_host: String,
        count: usize,
    },
}

impl Clone for TunnelDisplayItem {
    fn clone(&self) -> (r: Self)
        ensures
            r == *self,
    {
        match self {
            TunnelDisplayItem::Single { local_port, remote_host, remote_port, server_host } => {
                TunnelDisplayItem::Single {
                    local_port: *local_port,
                    remote_host: remote_host.clone(),
                    remote_port: *remote_port,
                    server_host: server_host.clone(),
                }
            },
            TunnelDisplayItem::Group {
                group_id,
                local_port_start,
                local_port_end,
                remote_host,
                remote_port_start,
                remote_port_end,
                server_host,
                count,
            } => {
                TunnelDisplayItem::Group {
                    group_id: *group_id,
                    local_port_start: *local_port_start,
                    local_port_end: *local_port_end,
                    remote_host: remote_host.clone(),
                    remote_port_start: *remote_port_start,
                    remote_port_end: *remote_port_end,
                    server_host: server_host.clone(),
                    count: *count,
                }
            },
        }
    }
}

/// The tunnel list is kept strictly sorted by local port, so ports are
/// unique.
pub open spec fn tunnels_sorted(s: Seq<Tunnel>) -> bool {
    forall|i: int, j: int|
        0 <= i < j < s.len() ==> (#[trigger] s[i].local_port) < (#[trigger] s[j].local_port)
}

/// Tracks every live tunnel, keyed by unique local port.
#[derive(Debug)]
pub struct TunnelManager {
    pub tunnels: Vec<Tunnel>,
    /// Bounds of the range scanned for a free local port.
    pub port_start: u16,
    pub port_end: u16,
    /// The next batch id `next_group_id` will hand out.
    pub group_counter: u32,
}

impl Default for TunnelManager {
    fn default() -> (r: Self)
        ensures
            r.wf(),
            r.tunnels@ == Seq::<Tunnel>::empty(),
            r.port_start == DEFAULT_PORT_START,
            r.port_end == DEFAULT_PORT_END,
            r.group_counter == 1,
    {
        TunnelManager::new()
    }
}

/// Some tracked tunnel uses local port `p`.
pub open spec fn has_port(tm: TunnelManager, p: u16) -> bool {
    exists|i: int| 0 <= i < tm.tunnels@.len() && (#[trigger] tm.tunnels@[i].local_port) == p
}

/// The tunnel on local port `p`; meaningful only where `has_port` holds.
pub open spec fn tunnel_at(tm: TunnelManager, p: u16) -> Tunnel {
    tm.tunnels@[choose|i: int|
        0 <= i < tm.tunnels@.len() && (#[trigger] tm.tunnels@[i].local_port) == p]
}

/// Port-uniqueness law: in a well-formed manager — and every operation
/// below keeps the manager well formed — no two live tunnels share a
/// local port.
pub proof fn lemma_ports_unique(tm: TunnelManager)
    requires
        tm.wf(),
    ensures
        forall|i: int, j: int|
            0 <= i < j < tm.tunnels@.len() ==> (#[trigger] tm.tunnels@[i].local_port) != (
            #[trigger] tm.tunnels@[j].local_port),
{
}

/// In a well-formed manager, looking a port up yields the entry that
/// carries it.
pub proof fn lemma_tunnel_at(tm: TunnelManager, a: int)
    requires
        tm.wf(),
        0 <= a < tm.tunnels@.len(),
    ensures
        tunnel_at(tm, tm.tunnels@[a].local_port) == tm.tunnels@[a],
{
    let p = tm.tunnels@[a].local_port;
    assert(has_port(tm, p)) by {
        assert(tm.tunnels@[a].local_port == p);
    }
    let w = choose|w: int| 0 <= w < tm.tunnels@.len() && (#[trigger] tm.tunnels@[w].local_port) == p;
    if w < a {
        assert(tm.tunnels@[w].local_port < tm.tunnels@[a].local_port);
    }
    if a < w {
        assert(tm.tunnels@[a].local_port < tm.tunnels@[w].local_port);
    }
    assert(w == a);
}

impl TunnelManager {
    /// The tracked list is strictly sorted by local port.
    pub open spec fn wf(&self) -> bool {
        tunnels_sorted(self.tunnels@)
    }

    /// An empty manager over the default port range.
    pub fn new() -> (r: Self)
        ensures
            r.wf(),
            r.tunnels@ == Seq::<Tunnel>::empty(),
            r.port_start == DEFAULT_PORT_START,
            r.port_end == DEFAULT_PORT_END,
            r.group_counter == 1,
    {
        TunnelManager {
            tunnels: Vec::new(),
            port_start: DEFAULT_PORT_START,
            port_end: DEFAULT_PORT_END,
            group_counter: 1,
        }
    }

    /// Hands out the next batch id; ids grow strictly, so two batches
    /// never share one.
    pub fn next_group_id(&mut self) -> (r: u32)
        requires
            old(self).group_counter < u32::MAX,
        ensures
            r == old(self).group_counter,
            final(self).group_counter == old(self).group_counter + 1,
            final(self).tunnels@ == old(self).tunnels@,
            final(self).port_start == old(self).port_start,
            final(self).port_end == old(self).port_end,
    {
        let id = self.group_counter;
        self.group_counter = self.group_counter + 1;
        id
    }

    /// How many tunnels are tracked.
    pub fn count(&self) -> (r: usize)
        ensures
            r == self.tunnels@.len(),
    {
        self.tunnels.len()
    }

    /// Whether local port `p` is already tracked.
    pub fn contains_port(&self, p: u16) -> (r: bool)
        ensures
            r == has_port(*self, p),
    {
        let mut i: usize = 0;
        while i < self.tunnels.len()
            invariant
                0 <= i <= self.tunnels@.len(),
                forall|j: int| 0 <= j < i ==> (#[trigger] self.tunnels@[j].local_port) != p,
            decreases self.tunnels@.len() - i,
        {
            if self.tunnels[i].local_port == p {
                proof {
                    assert(self.tunnels@[i as int].local_port == p);
                }
                return true;
            }
            i = i + 1;
        }
        false
    }

    /// The first untracked port at or after `min_port` in the configured
    /// range, if any; whether the operating system will actually let it be
    /// bound is for the caller to probe, retrying from the successor of a
    /// port that fails.
    pub fn find_available_port(&self, min_port: u16) -> (r: Option<u16>)
        ensures
            (match r {
                Some(p) => {
                    &&& self.port_start <= p && min_port <= p && p <= self.port_end
                    &&& !has_port(*self, p)
                    &&& forall|q: u16|
                        self.port_start <= q && min_port <= q && q < p ==> has_port(*self, q)
                },
                None => forall|q: u16|
                    self.port_start <= q && min_port <= q && q <= self.port_end ==> has_port(
                        *self,
                        q,
                    ),
            }),
    {
        let mut p: u16 = if min_port > self.port_start {
            min_port
        } else {
            self.port_start
        };
        if p > self.port_end {
            return None;
        }
        loop
            invariant
                self.port_start <= p,
                min_port <= p,
                p <= self.port_end,
                forall|q: u16|
                    self.port_start <= q && min_port <= q && q < p ==> has_port(*self, q),
            decreases self.port_end - p,
        {
            if !self.contains_port(p) {
                return Some(p);
            }
            if p == self.port_end {
                return None;
            }
            p = p + 1;
        }
    }

    /// Starts tracking `t`, whose local port must be free.
    pub fn register_tunnel(&mut self, t: Tunnel)
        requires
            old(self).wf(),
            !has_port(*old(self), t.local_port),
        ensures
            final(self).wf(),
            final(self).port_start == old(self).port_start,
            final(self).port_end == old(self).port_end,
            final(self).group_counter == old(self).group_counter,
            final(self).tunnels@.len() == old(self).tunnels@.len() + 1,
            forall|p: u16|
                #[trigger] has_port(*final(self), p) == (has_port(*old(self), p) || p
                    == t.local_port),
            tunnel_at(*final(self), t.local_port) == t,
            forall|p: u16|
                p != t.local_port && has_port(*old(self), p) ==> (#[trigger] tunnel_at(
                    *final(self),
                    p,
                )) == tunnel_at(*old(self), p),
    {
        let ghost tpre = *self;
        let mut i: usize = 0;
        while i < self.tunnels.len() && self.tunnels[i].local_port < t.local_port
            invariant
                0 <= i <= self.tunnels@.len(),
                tpre == *old(self),
                tpre.wf(),
                !has_port(tpre, t.local_port),
                *self == tpre,
                forall|j: int| 0 <= j < i ==> (#[trigger] self.tunnels@[j].local_port) < t.local_port,
            decreases self.tunnels@.len() - i,
        {
            i = i + 1;
        }
        proof {
            if i < self.tunnels@.len() {
                assert(self.tunnels@[i as int].local_port >= t.local_port);
                assert(self.tunnels@[i as int].local_port != t.local_port) by {
                    if self.tunnels@[i as int].local_port == t.local_port {
                        assert(has_port(tpre, t.local_port));
                    }
                }
            }
        }
        self.tunnels.insert(i, t);
        proof {
            let pre = tpre.tunnels@;
            let post = self.tunnels@;
            assert(post == pre.insert(i as int, t));
            pre.insert_ensures(i as int, t);
            assert forall|a: int| 0 <= a < i implies (#[trigger] post[a]) == pre[a] by {
                assert(pre.insert(i as int, t)[a] == pre[a]);
            }
            assert forall|a: int| i < a < post.len() implies (#[trigger] post[a]) == pre[a - 1] by {
                assert(pre.insert(i as int, t)[a] == pre[a - 1]);
            }
            assert(post[i as int] == t);
            // strict sorting is preserved around the insertion point
            assert forall|a: int, b: int|
                0 <= a < b < post.len() implies (#[trigger] post[a].local_port) < (
            #[trigger] post[b].local_port) by {
                if b < i as int {
                    assert(pre[a].local_port < pre[b].local_port);
                } else if a > i as int {
                    assert(pre[a - 1].local_port < pre[b - 1].local_port);
                } else if a == i as int {
                    // everything after the insertion point is >= t's port and not equal
                    assert(pre[b - 1].local_port >= t.local_port);
                    assert(pre[b - 1].local_port != t.local_port) by {
                        if pre[b - 1].local_port == t.local_port {
                            assert(has_port(tpre, t.local_port));
                        }
                    }
                } else if b == i as int {
                    assert(pre[a].local_port < t.local_port);
                } else {
                    // a < i < b
                    assert(pre[a].local_port < t.local_port);
                    assert(pre[b - 1].local_port >= t.local_port);
                    assert(pre[b - 1].local_port != t.local_port) by {
                        if pre[b - 1].local_port == t.local_port {
                            assert(has_port(tpre, t.local_port));
                        }
                    }
                }
            }
            assert forall|p: u16| #[trigger] has_port(*self, p) == (has_port(tpre, p) || p
                == t.local_port) by {
                if has_port(tpre, p) {
                    let j = choose|j: int|
                        0 <= j < pre.len() && (#[trigger] pre[j].local_port) == p;
                    if j < i as int {
                        assert(post[j].local_port == p);
                    } else {
                        assert(post[j + 1].local_port == p);
                    }
                }
                if p == t.local_port {
                    assert(post[i as int].local_port == p);
                }
                if has_port(*self, p) && p != t.local_port {
                    let j = choose|j: int|
                        0 <= j < post.len() && (#[trigger] post[j].local_port) == p;
                    if j < i as int {
                        assert(pre[j].local_port == p);
                    } else {
                        assert(j != i as int);
                        assert(pre[j - 1].local_port == p);
                    }
                }
            }
            assert(has_port(*self, t.local_port)) by {
                assert(post[i as int].local_port == t.local_port);
            }
            assert(tunnel_at(*self, t.local_port) == t) by {
                lemma_tunnel_at(*self, i as int);
            }
            assert forall|p: u16| p != t.local_port && has_port(tpre, p) implies (
            #[trigger] tunnel_at(*self, p)) == tunnel_at(tpre, p) by {
                let k = choose|k: int|
                    0 <= k < pre.len() && (#[trigger] pre[k].local_port) == p;
                lemma_tunnel_at(tpre, k);
                if k < i as int {
                    assert(post[k].local_port == p);
                    lemma_tunnel_at(*self, k);
                } else {
                    assert(post[k + 1].local_port == p);
                    lemma_tunnel_at(*self, k + 1);
                }
            }
        }
    }

    /// Stops tracking the tunnel on `port` and returns its record so the
    /// caller can terminate the process and wait for it; an untracked port
    /// is not an error and changes nothing.
    pub fn close_tunnel(&mut self, port: u16) -> (r: Option<Tunnel>)
        requires
            old(self).wf(),
        ensures
            final(self).wf(),
            final(self).port_start == old(self).port_start,
            final(self).port_end == old(self).port_end,
            final(self).group_counter == old(self).group_counter,
            !has_port(*old(self), port) ==> r is None && *final(self) == *old(self),
            has_port(*old(self), port) ==> {
                &&& r == Some(tunnel_at(*old(self), port))
                &&& final(self).tunnels@.len() == old(self).tunnels@.len() - 1
                &&& forall|p: u16|
                    #[trigger] has_port(*final(self), p) == (has_port(*old(self), p) && p != port)
                &&& forall|p: u16|
                    p != port && has_port(*old(self), p) ==> (#[trigger] tunnel_at(
                        *final(self),
                        p,
                    )) == tunnel_at(*old(self), p)
            },
    {
        let ghost tpre = *self;
        let mut i: usize = 0;
        while i < self.tunnels.len()
            invariant
                0 <= i <= self.tunnels@.len(),
                tpre == *old(self),
                tpre.wf(),
                *self == tpre,
                forall|j: int| 0 <= j < i ==> (#[trigger] self.tunnels@[j].local_port) != port,
            decreases self.tunnels@.len() - i,
        {
            if self.tunnels[i].local_port == port {
                let t = self.tunnels.remove(i);
                proof {
                    let pre = tpre.tunnels@;
                    let post = self.tunnels@;
                    pre.remove_ensures(i as int);
                    assert(post == pre.remove(i as int));
                    assert forall|a: int| 0 <= a < i implies (#[trigger] post[a]) == pre[a] by {
                        assert(pre.remove(i as int)[a] == pre[a]);
                    }
                    assert forall|a: int| i <= a < post.len() implies (#[trigger] post[a]) == pre[a
                        + 1] by {
                        assert(pre.remove(i as int)[a] == pre[a + 1]);
                    }
                    assert(pre[i as int].local_port == port);
                    assert(has_port(tpre, port)) by {
                        assert(pre[i as int].local_port == port);
                    }
                    assert(t == tunnel_at(tpre, port)) by {
                        lemma_tunnel_at(tpre, i as int);
                    }
                    assert forall|a: int, b: int|
                        0 <= a < b < post.len() implies (#[trigger] post[a].local_port) < (
                    #[trigger] post[b].local_port) by {
                        if b < i as int {
                            assert(pre[a].local_port < pre[b].local_port);
                        } else if a >= i as int {
                            assert(pre[a + 1].local_port < pre[b + 1].local_port);
                        } else {
                            assert(pre[a].local_port < pre[b + 1].local_port);
                        }
                    }
                    assert forall|p: u16| #[trigger] has_port(*self, p) == (has_port(tpre, p) && p
                        != port) by {
                        if has_port(tpre, p) && p != port {
                            let j = choose|j: int|
                                0 <= j < pre.len() && (#[trigger] pre[j].local_port) == p;
                            assert(j != i as int);
                            if j < i as int {
                                assert(post[j].local_port == p);
                            } else {
                                assert(post[j - 1].local_port == p);
                            }
                        }
                        if has_port(*self, p) {
                            let j = choose|j: int|
                                0 <= j < post.len() && (#[trigger] post[j].local_port) == p;
                            if j < i as int {
                                assert(pre[j].local_port == p);
                                assert(p != port) by {
                                    if p == port {
                                        assert(pre[j].local_port < pre[i as int].local_port);
                                    }
                                }
                            } else {
                                assert(pre[j + 1].local_port == p);
                                assert(p != port) by {
                                    if p == port {
                                        assert(
                                            pre[i as int].local_port < pre[j + 1].local_port);
                                    }
                                }
                            }
                        }
                    }
                    assert forall|p: u16| p != port && has_port(tpre, p) implies (
                    #[trigger] tunnel_at(*self, p)) == tunnel_at(tpre, p) by {
                        let k = choose|k: int|
                            0 <= k < pre.len() && (#[trigger] pre[k].local_port) == p;
                        lemma_tunnel_at(tpre, k);
                        assert(k != i as int);
                        if k < i as int {
                            assert(post[k].local_port == p);
                            lemma_tunnel_at(*self, k);
                        } else {
                            assert(post[k - 1].local_port == p);
                            lemma_tunnel_at(*self, k - 1);
                        }
                    }
                }
                return Some(t);
            }
            i = i + 1;
        }
        None
    }

    /// Stops tracking every tunnel and returns all records, so the caller
    /// can terminate and reap every process: afterwards nothing is
    /// tracked.
    pub fn close_all(&mut self) -> (r: Vec<Tunnel>)
        requires
            old(self).wf(),
        ensures
            final(self).wf(),
            final(self).port_start == old(self).port_start,
            final(self).port_end == old(self).port_end,
            final(self).group_counter == old(self).group_counter,
            final(self).tunnels@.len() == 0,
            r@ == old(self).tunnels@,
    {
        let mut out: Vec<Tunnel> = Vec::new();
        let ghost tpre = *self;
        while self.tunnels.len() > 0
            invariant
                tpre == *old(self),
                out@ + self.tunnels@ == tpre.tunnels@,
                self.port_start == tpre.port_start,
                self.port_end == tpre.port_end,
                self.group_counter == tpre.group_counter,
            decreases self.tunnels@.len(),
        {
            let t = self.tunnels.remove(0);
            proof {
                assert(out@.push(t) + self.tunnels@ =~= tpre.tunnels@);
            }
            out.push(t);
        }
        proof {
            assert(out@ =~= tpre.tunnels@);
        }
        out
    }
}

/// The tunnels that belong to batch `g`.
pub open spec fn gid_pred(g: u32) -> spec_fn(Tunnel) -> bool {
    |t: Tunnel| t.group_id == Some(g)
}

/// The tunnels that do not belong to batch `g`.
pub open spec fn not_gid_pred(g: u32) -> spec_fn(Tunnel) -> bool {
    |t: Tunnel| t.group_id != Some(g)
}

/// The tunnels opened through the host named `h`.
pub open spec fn host_pred(h: Seq<char>) -> spec_fn(Tunnel) -> bool {
    |t: Tunnel| t.server_host@ == h
}

/// The tunnels opened through a host other than `h`.
pub open spec fn not_host_pred(h: Seq<char>) -> spec_fn(Tunnel) -> bool {
    |t: Tunnel| t.server_host@ != h
}

/// `p` occurs in `ports`.
pub open spec fn port_in(ports: Seq<u16>, p: u16) -> bool {
    exists|i: int| 0 <= i < ports.len() && (#[trigger] ports[i]) == p
}

/// The tunnels whose local port is not listed in `ports`.
pub open spec fn not_dead_pred(ports: Seq<u16>) -> spec_fn(Tunnel) -> bool {
    |t: Tunnel| !port_in(ports, t.local_port)
}

/// Filtering an empty sequence yields an empty sequence.
pub proof fn lemma_filter_empty(pred: spec_fn(Tunnel) -> bool)
    ensures
        Seq::<Tunnel>::empty().filter(pred) == Seq::<Tunnel>::empty(),
{
    reveal(Seq::filter);
}

/// How `filter` acts on a `push`.
pub proof fn lemma_filter_push(s: Seq<Tunnel>, pred: spec_fn(Tunnel) -> bool, e: Tunnel)
    ensures
        s.push(e).filter(pred) == (if pred(e) {
            s.filter(pred).push(e)
        } else {
            s.filter(pred)
        }),
{
    reveal(Seq::filter);
    assert(s.push(e).drop_last() =~= s);
    assert(s.push(e).last() == e);
}

/// Filtering a strictly port-sorted sequence whose ports all lie under
/// `b` keeps it strictly sorted under `b`.
pub proof fn lemma_filter_sorted(s: Seq<Tunnel>, pred: spec_fn(Tunnel) -> bool, b: int)
    requires
        tunnels_sorted(s),
        forall|i: int| 0 <= i < s.len() ==> (#[trigger] s[i].local_port) < b,
    ensures
        tunnels_sorted(s.filter(pred)),
        forall|i: int| 0 <= i < s.filter(pred).len() ==> (#[trigger] s.filter(pred)[i].local_port)
            < b,
    decreases s.len(),
{
    reveal(Seq::filter);
    if s.len() == 0 {
    } else {
        let s0 = s.drop_last();
        let e = s.last();
        assert(tunnels_sorted(s0)) by {
            assert(forall|i: int, j: int|
                0 <= i < j < s0.len() ==> (#[trigger] s0[i].local_port) < (
                #[trigger] s0[j].local_port));
        }
        assert(forall|i: int| 0 <= i < s0.len() ==> (#[trigger] s0[i].local_port) < e.local_port);
        lemma_filter_sorted(s0, pred, e.local_port as int);
        let f0 = s0.filter(pred);
        if pred(e) {
            let f = f0.push(e);
            assert(s.filter(pred) == f);
            assert forall|i: int, j: int|
                0 <= i < j < f.len() implies (#[trigger] f[i].local_port) < (
            #[trigger] f[j].local_port) by {
                if j < f.len() - 1 {
                    assert(f0[i].local_port < f0[j].local_port);
                } else {
                    assert(f0[i].local_port < e.local_port);
                }
            }
            assert forall|i: int| 0 <= i < f.len() implies (#[trigger] f[i].local_port) < b by {
                if i < f.len() - 1 {
                    assert(f0[i].local_port < e.local_port);
                }
                assert(e.local_port < b) by {
                    assert(s[s.len() - 1].local_port < b);
                }
            }
        } else {
            assert forall|i: int| 0 <= i < f0.len() implies (#[trigger] f0[i].local_port) < b by {
                assert(f0[i].local_port < e.local_port);
                assert(s[s.len() - 1].local_port < b);
            }
        }
    }
}

impl TunnelManager {
    /// Splits the tracked list into those satisfying a batch-id test and
    /// the rest, keeping the rest tracked; the removed records come back
    /// for the caller to reap.
    fn remove_group_matches(&mut self, gid: u32) -> (r: Vec<Tunnel>)
        requires
            old(self).wf(),
        ensures
            final(self).wf(),
            final(self).port_start == old(self).port_start,
            final(self).port_end == old(self).port_end,
            final(self).group_counter == old(self).group_counter,
            r@ == old(self).tunnels@.filter(gid_pred(gid)),
            final(self).tunnels@ == old(self).tunnels@.filter(not_gid_pred(gid)),
    {
        let ghost tpre = *self;
        let ghost s = tpre.tunnels@;
        let mut kept: Vec<Tunnel> = Vec::new();
        let mut removed: Vec<Tunnel> = Vec::new();
        proof {
            assert(s.take(0) =~= Seq::<Tunnel>::empty());
            lemma_filter_empty(gid_pred(gid));
            lemma_filter_empty(not_gid_pred(gid));
        }
        let mut i: usize = 0;
        while i < self.tunnels.len()
            invariant
                0 <= i <= s.len(),
                tpre == *old(self),
                tpre.wf(),
                *self == tpre,
                s == tpre.tunnels@,
                kept@ == s.take(i as int).filter(not_gid_pred(gid)),
                removed@ == s.take(i as int).filter(gid_pred(gid)),
            decreases s.len() - i,
        {
            let t = self.tunnels[i].clone();
            proof {
                assert(s.take(i + 1) =~= s.take(i as int).push(s[i as int]));
                lemma_filter_push(s.take(i as int), gid_pred(gid), s[i as int]);
                lemma_filter_push(s.take(i as int), not_gid_pred(gid), s[i as int]);
                assert(gid_pred(gid)(s[i as int]) == (s[i as int].group_id == Some(gid)));
                assert(not_gid_pred(gid)(s[i as int]) == (s[i as int].group_id != Some(gid)));
            }
            let is_match = match t.group_id {
                Some(g) => g == gid,
                None => false,
            };
            if is_match {
                removed.push(t);
            } else {
                kept.push(t);
            }
            i = i + 1;
        }
        proof {
            assert(s.take(i as int) =~= s);
            lemma_filter_sorted(s, not_gid_pred(gid), 65536);
        }
        self.tunnels = kept;
        removed
    }

    /// Closes every tunnel of batch `gid`, handing their records back; the
    /// count closed is the length of the result.
    pub fn close_group(&mut self, gid: u32) -> (r: Vec<Tunnel>)
        requires
            old(self).wf(),
        ensures
            final(self).wf(),
            final(self).port_start == old(self).port_start,
            final(self).port_end == old(self).port_end,
            final(self).group_counter == old(self).group_counter,
            r@ == old(self).tunnels@.filter(gid_pred(gid)),
            final(self).tunnels@ == old(self).tunnels@.filter(not_gid_pred(gid)),
    {
        self.remove_group_matches(gid)
    }

    /// Closes every tunnel opened through the host named `host`, handing
    /// their records back.
    pub fn close_server_tunnels(&mut self, host: &str) -> (r: Vec<Tunnel>)
        requires
            old(self).wf(),
        ensures
            final(self).wf(),
            final(self).port_start == old(self).port_start,
            final(self).port_end == old(self).port_end,
            final(self).group_counter == old(self).group_counter,
            r@ == old(self).tunnels@.filter(host_pred(host@)),
            final(self).tunnels@ == old(self).tunnels@.filter(not_host_pred(host@)),
    {
        let ghost tpre = *self;
        let ghost s = tpre.tunnels@;
        let mut kept: Vec<Tunnel> = Vec::new();
        let mut removed: Vec<Tunnel> = Vec::new();
        proof {
            assert(s.take(0) =~= Seq::<Tunnel>::empty());
            lemma_filter_empty(host_pred(host@));
            lemma_filter_empty(not_host_pred(host@));
        }
        let mut i: usize = 0;
        while i < self.tunnels.len()
            invariant
                0 <= i <= s.len(),
                tpre == *old(self),
                tpre.wf(),
                *self == tpre,
                s == tpre.tunnels@,
                kept@ == s.take(i as int).filter(not_host_pred(host@)),
                removed@ == s.take(i as int).filter(host_pred(host@)),
            decreases s.len() - i,
        {
            let t = self.tunnels[i].clone();
            proof {
                assert(s.take(i + 1) =~= s.take(i as int).push(s[i as int]));
                lemma_filter_push(s.take(i as int), host_pred(host@), s[i as int]);
                lemma_filter_push(s.take(i as int), not_host_pred(host@), s[i as int]);
                assert(host_pred(host@)(s[i as int]) == (s[i as int].server_host@ == host@));
                assert(not_host_pred(host@)(s[i as int]) == (s[i as int].server_host@ != host@));
            }
            if str_eq(t.server_host.as_str(), host) {
                removed.push(t);
            } else {
                kept.push(t);
            }
            i = i + 1;
        }
        proof {
            assert(s.take(i as int) =~= s);
            lemma_filter_sorted(s, not_host_pred(host@), 65536);
        }
        self.tunnels = kept;
        removed
    }

    /// Drops the records of tunnels whose forwarding process has exited,
    /// as reported by the caller through `dead_ports`; their processes are
    /// already gone, so nothing is handed back.
    pub fn cleanup_dead(&mut self, dead_ports: &Vec<u16>)
        requires
            old(self).wf(),
        ensures
            final(self).wf(),
            final(self).port_start == old(self).port_start,
            final(self).port_end == old(self).port_end,
            final(self).group_counter == old(self).group_counter,
            final(self).tunnels@ == old(self).tunnels@.filter(not_dead_pred(dead_ports@)),
    {
        let ghost tpre = *self;
        let ghost s = tpre.tunnels@;
        let mut kept: Vec<Tunnel> = Vec::new();
        proof {
            assert(s.take(0) =~= Seq::<Tunnel>::empty());
            lemma_filter_empty(not_dead_pred(dead_ports@));
        }
        let mut i: usize = 0;
        while i < self.tunnels.len()
            invariant
                0 <= i <= s.len(),
                tpre == *old(self),
                tpre.wf(),
                *self == tpre,
                s == tpre.tunnels@,
                kept@ == s.take(i as int).filter(not_dead_pred(dead_ports@)),
            decreases s.len() - i,
        {
            let t = self.tunnels[i].clone();
            proof {
                assert(s.take(i + 1) =~= s.take(i as int).push(s[i as int]));
                lemma_filter_push(s.take(i as int), not_dead_pred(dead_ports@), s[i as int]);
            }
            let mut dead = false;
            let mut k: usize = 0;
            while k < dead_ports.len()
                invariant
                    0 <= k <= dead_ports@.len(),
                    t.local_port == s[i as int].local_port,
                    dead == exists|j: int|
                        0 <= j < k && (#[trigger] dead_ports@[j]) == t.local_port,
                decreases dead_ports@.len() - k,
            {
                if dead_ports[k] == t.local_port {
                    dead = true;
                    proof {
                        assert(dead_ports@[k as int] == t.local_port);
                    }
                }
                k = k + 1;
            }
            proof {
                assert(dead == port_in(dead_ports@, s[i as int].local_port));
                assert(not_dead_pred(dead_ports@)(s[i as int]) == !port_in(
                    dead_ports@,
                    s[i as int].local_port,
                ));
            }
            if !dead {
                kept.push(t);
            }
            i = i + 1;
        }
        proof {
            assert(s.take(i as int) =~= s);
            lemma_filter_sorted(s, not_dead_pred(dead_ports@), 65536);
        }
        self.tunnels = kept;
    }

    /// Copies of the tunnels opened through the host named `host`.
    pub fn get_server_tunnels(&self, host: &str) -> (r: Vec<Tunnel>)
        ensures
            r@ == self.tunnels@.filter(host_pred(host@)),
    {
        let ghost s = self.tunnels@;
        let mut out: Vec<Tunnel> = Vec::new();
        proof {
            assert(s.take(0) =~= Seq::<Tunnel>::empty());
            lemma_filter_empty(host_pred(host@));
        }
        let mut i: usize = 0;
        while i < self.tunnels.len()
            invariant
                0 <= i <= s.len(),
                s == self.tunnels@,
                out@ == s.take(i as int).filter(host_pred(host@)),
            decreases s.len() - i,
        {
            proof {
                assert(s.take(i + 1) =~= s.take(i as int).push(s[i as int]));
                lemma_filter_push(s.take(i as int), host_pred(host@), s[i as int]);
                assert(host_pred(host@)(s[i as int]) == (s[i as int].server_host@ == host@));
            }
            let t = self.tunnels[i].clone();
            if str_eq(t.server_host.as_str(), host) {
                out.push(t);
            }
            i = i + 1;
        }
        proof {
            assert(s.take(i as int) =~= s);
        }
        out
    }
}

/// The local port a display row is sorted by: its own port for a single
/// tunnel, the lowest member port for a batch.
pub open spec fn first_port(it: TunnelDisplayItem) -> u16 {
    match it {
        TunnelDisplayItem::Single { local_port, .. } => local_port,
        TunnelDisplayItem::Group { local_port_start, .. } => local_port_start,
    }
}

/// The row is the collapsed rendering of batch `g`.
pub open spec fn is_group_for(it: TunnelDisplayItem, g: u32) -> bool {
    match it {
        TunnelDisplayItem::Group { group_id, .. } => group_id == g,
        _ => false,
    }
}

/// The row renders a single, ungrouped tunnel.
pub open spec fn is_single(it: TunnelDisplayItem) -> bool {
    it matches TunnelDisplayItem::Single { .. }
}

/// The smallest remote port among `ms`; meaningful only for non-empty
/// `ms`.
pub open spec fn min_remote(ms: Seq<Tunnel>) -> u16
    decreases ms.len(),
{
    if ms.len() <= 1 {
        ms[0].remote_port
    } else {
        let m = min_remote(ms.drop_last());
        if ms.last().remote_port < m {
            ms.last().remote_port
        } else {
            m
        }
    }
}

/// The largest remote port among `ms`; meaningful only for non-empty
/// `ms`.
pub open spec fn max_remote(ms: Seq<Tunnel>) -> u16
    decreases ms.len(),
{
    if ms.len() <= 1 {
        ms[0].remote_port
    } else {
        let m = max_remote(ms.drop_last());
        if ms.last().remote_port > m {
            ms.last().remote_port
        } else {
            m
        }
    }
}

/// What makes one display row faithful to the tracked list `s`: a single
/// row is one ungrouped tunnel verbatim, and a batch row carries the
/// member count, the span from lowest to highest member local port, the
/// span from smallest to largest member remote port, and the hosts of the
/// lowest-port member.
pub open spec fn item_ok(s: Seq<Tunnel>, it: TunnelDisplayItem) -> bool {
    match it {
        TunnelDisplayItem::Single { local_port, remote_host, remote_port, server_host } => {
            exists|i: int|
                0 <= i < s.len() && (#[trigger] s[i]) == (Tunnel {
                    local_port,
                    remote_host,
                    remote_port,
                    server_host,
                    group_id: None,
                })
        },
        TunnelDisplayItem::Group {
            group_id,
            local_port_start,
            local_port_end,
            remote_host,
            remote_port_start,
            remote_port_end,
            server_host,
            count,
        } => {
            let ms = s.filter(gid_pred(group_id));
            &&& ms.len() >= 1
            &&& count == ms.len()
            &&& local_port_start == ms[0].local_port
            &&& local_port_end == ms.last().local_port
            &&& remote_host == ms[0].remote_host
            &&& server_host == ms[0].server_host
            &&& remote_port_start == min_remote(ms)
            &&& remote_port_end == max_remote(ms)
        },
    }
}

/// A non-empty filtering has a member satisfying the test.
pub proof fn lemma_filter_member(s: Seq<Tunnel>, pred: spec_fn(Tunnel) -> bool)
    requires
        s.filter(pred).len() > 0,
    ensures
        exists|i: int| 0 <= i < s.len() && pred(#[trigger] s[i]),
    decreases s.len(),
{
    reveal(Seq::filter);
    if s.len() > 0 {
        if pred(s.last()) {
            assert(pred(s[s.len() - 1]));
        } else {
            lemma_filter_member(s.drop_last(), pred);
            let i = choose|i: int| 0 <= i < s.drop_last().len() && pred(#[trigger] s.drop_last()[i]);
            assert(pred(s[i]));
        }
    }
}

/// Filtering keeps nothing when nothing satisfies the test.
pub proof fn lemma_filter_none(s: Seq<Tunnel>, pred: spec_fn(Tunnel) -> bool)
    requires
        forall|j: int| 0 <= j < s.len() ==> !pred(#[trigger] s[j]),
    ensures
        s.filter(pred) == Seq::<Tunnel>::empty(),
    decreases s.len(),
{
    reveal(Seq::filter);
    if s.len() > 0 {
        assert(!pred(s[s.len() - 1]));
        lemma_filter_none(s.drop_last(), pred);
    }
}

impl TunnelManager {
    /// The rows of the tunnel list: tunnels sharing a batch id collapse
    /// into one row spanning their port ranges with a member count, other
    /// tunnels render individually, and rows come sorted ascending by
    /// their first local port.
    #[verifier::rlimit(50)]
    pub fn get_display_items(&self) -> (r: Vec<TunnelDisplayItem>)
        requires
            self.wf(),
        ensures
            r@.len() == row_count(self.tunnels@, 0),
            forall|a: int| 0 <= a < r@.len() ==> item_ok(self.tunnels@, #[trigger] r@[a]),
            forall|a: int, b: int|
                0 <= a < b < r@.len() ==> first_port(#[trigger] r@[a]) < first_port(
                    #[trigger] r@[b],
                ),
            forall|i: int|
                0 <= i < self.tunnels@.len() && (#[trigger] self.tunnels@[i].group_id) is None
                    ==> exists|a: int|
                    0 <= a < r@.len() && is_single(#[trigger] r@[a]) && first_port(r@[a])
                        == self.tunnels@[i].local_port,
            forall|i: int|
                0 <= i < self.tunnels@.len() && (#[trigger] self.tunnels@[i].group_id) is Some
                    ==> exists|a: int|
                    0 <= a < r@.len() && is_group_for(
                        #[trigger] r@[a],
                        self.tunnels@[i].group_id->0,
                    ),
    {
        let ghost s = self.tunnels@;
        let mut items: Vec<TunnelDisplayItem> = Vec::new();
        let mut i: usize = 0;
        while i < self.tunnels.len()
            invariant
                0 <= i <= s.len(),
                s == self.tunnels@,
                self.wf(),
                items@.len() + row_count(s, i as int) == row_count(s, 0),
                forall|a: int| 0 <= a < items@.len() ==> item_ok(s, #[trigger] items@[a]),
                forall|a: int|
                    0 <= a < items@.len() ==> exists|j: int|
                        0 <= j < i && first_port(#[trigger] items@[a]) == s[j].local_port,
                forall|a: int, b: int|
                    0 <= a < b < items@.len() ==> first_port(#[trigger] items@[a]) < first_port(
                        #[trigger] items@[b],
                    ),
                forall|j: int|
                    0 <= j < i && (#[trigger] s[j].group_id) is None ==> exists|a: int|
                        0 <= a < items@.len() && is_single(#[trigger] items@[a]) && first_port(
                            items@[a],
                        ) == s[j].local_port,
                forall|j: int|
                    0 <= j < i && (#[trigger] s[j].group_id) is Some ==> exists|a: int|
                        0 <= a < items@.len() && is_group_for(
                            #[trigger] items@[a],
                            s[j].group_id->0,
                        ),
            decreases s.len() - i,
        {
            let g_opt = self.tunnels[i].group_id;
            let ghost items_pre = items@;
            match g_opt {
                None => {
                    let t = self.tunnels[i].clone();
                    let it = TunnelDisplayItem::Single {
                        local_port: t.local_port,
                        remote_host: t.remote_host,
                        remote_port: t.remote_port,
                        server_host: t.server_host,
                    };
                    proof {
                        assert(item_ok(s, it)) by {
                            assert(s[i as int] == (Tunnel {
                                local_port: s[i as int].local_port,
                                remote_host: s[i as int].remote_host,
                                remote_port: s[i as int].remote_port,
                                server_host: s[i as int].server_host,
                                group_id: None,
                            }));
                        }
                        assert(first_port(it) == s[i as int].local_port);
                    }
                    items.push(it);
                },
                Some(g) => {
                    // is this the batch's first appearance?
                    let mut seen = false;
                    let mut k: usize = 0;
                    while k < i
                        invariant
                            0 <= k <= i <= s.len(),
                            s == self.tunnels@,
                            seen == exists|j: int|
                                0 <= j < k && (#[trigger] s[j].group_id) == Some(g),
                        decreases i - k,
                    {
                        let other = self.tunnels[k].group_id;
                        let m = match other {
                            Some(h) => h == g,
                            None => false,
                        };
                        if m {
                            seen = true;
                            proof {
                                assert(s[k as int].group_id == Some(g));
                            }
                        }
                        k = k + 1;
                    }
                    if !seen {
                        // gather the batch's members, which all lie at or
                        // after this position
                        let mut cnt: usize = 0;
                        let mut min_r: u16 = 0;
                        let mut max_r: u16 = 0;
                        let mut last_local: u16 = 0;
                        let mut j: usize = i;
                        proof {
                            assert(s.subrange(i as int, i as int) =~= Seq::<Tunnel>::empty());
                            lemma_filter_empty(gid_pred(g));
                        }
                        while j < self.tunnels.len()
                            invariant
                                i <= j <= s.len(),
                                s == self.tunnels@,
                                i < s.len(),
                                s[i as int].group_id == Some(g),
                                cnt == s.subrange(i as int, j as int).filter(gid_pred(g)).len(),
                                cnt <= j - i,
                                cnt > 0 ==> {
                                    let ms = s.subrange(i as int, j as int).filter(gid_pred(g));
                                    &&& ms[0] == s[i as int]
                                    &&& min_r == min_remote(ms)
                                    &&& max_r == max_remote(ms)
                                    &&& last_local == ms.last().local_port
                                },
                                j > i ==> cnt > 0,
                            decreases s.len() - j,
                        {
                            let ghost ms_pre = s.subrange(i as int, j as int).filter(gid_pred(g));
                            proof {
                                assert(s.subrange(i as int, j + 1) =~= s.subrange(
                                    i as int,
                                    j as int,
                                ).push(s[j as int]));
                                lemma_filter_push(
                                    s.subrange(i as int, j as int),
                                    gid_pred(g),
                                    s[j as int],
                                );
                            }
                            let tj_gid = self.tunnels[j].group_id;
                            let m = match tj_gid {
                                Some(h) => h == g,
                                None => false,
                            };
                            if m {
                                let rp = self.tunnels[j].remote_port;
                                let lp = self.tunnels[j].local_port;
                                if cnt == 0 {
                                    min_r = rp;
                                    max_r = rp;
                                } else {
                                    if rp < min_r {
                                        min_r = rp;
                                    }
                                    if rp > max_r {
                                        max_r = rp;
                                    }
                                }
                                last_local = lp;
                                cnt = cnt + 1;
                                proof {
                                    let ms = s.subrange(i as int, j + 1).filter(gid_pred(g));
                                    assert(ms == ms_pre.push(s[j as int]));
                                    assert(ms.drop_last() =~= ms_pre);
                                    if ms_pre.len() == 0 {
                                        assert(j == i);
                                        assert(ms[0] == s[i as int]);
                                    }
                                }
                            } else {
                                proof {
                                    assert(s.subrange(i as int, j + 1).filter(gid_pred(g))
                                        == ms_pre);
                                }
                            }
                            j = j + 1;
                        }
                        proof {
                            assert(s.subrange(i as int, j as int) =~= s.skip(i as int));
                        }
                        let first = self.tunnels[i].clone();
                        let it = TunnelDisplayItem::Group {
                            group_id: g,
                            local_port_start: first.local_port,
                            local_port_end: last_local,
                            remote_host: first.remote_host,
                            remote_port_start: min_r,
                            remote_port_end: max_r,
                            server_host: first.server_host,
                            count: cnt,
                        };
                        proof {
                            let ms_all = s.filter(gid_pred(g));
                            let ms_suf = s.skip(i as int).filter(gid_pred(g));
                            assert(s =~= s.take(i as int) + s.skip(i as int));
                            Seq::<Tunnel>::filter_distributes_over_add(
                                s.take(i as int),
                                s.skip(i as int),
                                gid_pred(g),
                            );
                            assert forall|q: int|
                                0 <= q < s.take(i as int).len() implies !gid_pred(g)(
                                #[trigger] s.take(i as int)[q]) by {
                                assert(s[q].group_id != Some(g));
                            }
                            lemma_filter_none(s.take(i as int), gid_pred(g));
                            assert(ms_all =~= ms_suf);
                            assert(cnt > 0) by {
                                assert(gid_pred(g)(s[i as int]));
                            }
                            assert(item_ok(s, it));
                            assert(first_port(it) == s[i as int].local_port);
                            assert(is_group_for(it, g));
                        }
                        items.push(it);
                    }
                },
            }
            proof {
                // row-count bookkeeping: a row was appended exactly at a
                // row start
                assert(row_count(s, i as int) == (if is_row_start(s, i as int) {
                    1int
                } else {
                    0int
                }) + row_count(s, i + 1));
                if s[i as int].group_id is None {
                    assert(is_row_start(s, i as int));
                    assert(items@.len() == items_pre.len() + 1);
                } else {
                    let g1 = s[i as int].group_id->0;
                    if exists|q: int| 0 <= q < i && (#[trigger] s[q].group_id) == Some(g1) {
                        assert(!is_row_start(s, i as int));
                        assert(items@.len() == items_pre.len());
                    } else {
                        assert(is_row_start(s, i as int)) by {
                            assert forall|q: int| 0 <= q < i implies (#[trigger] s[q].group_id)
                                != s[i as int].group_id by {
                                if s[q].group_id == Some(g1) {
                                    assert(false);
                                }
                            }
                        }
                        assert(items@.len() == items_pre.len() + 1);
                    }
                }
                // the invariants survive the step, whether or not a row
                // was appended
                assert forall|a: int| 0 <= a < items@.len() implies item_ok(
                    s,
                    #[trigger] items@[a],
                ) by {
                    if a < items_pre.len() {
                        assert(items@[a] == items_pre[a]);
                    }
                }
                assert forall|a: int| 0 <= a < items@.len() implies exists|j: int|
                    0 <= j < i + 1 && first_port(#[trigger] items@[a]) == s[j].local_port by {
                    if a < items_pre.len() {
                        assert(items@[a] == items_pre[a]);
                        let j = choose|j: int|
                            0 <= j < i && first_port(items_pre[a]) == s[j].local_port;
                        assert(0 <= j < i + 1 && first_port(items@[a]) == s[j].local_port);
                    } else {
                        assert(0 <= i < i + 1 && first_port(items@[a]) == s[i as int].local_port);
                    }
                }
                assert forall|a: int, b: int|
                    0 <= a < b < items@.len() implies first_port(#[trigger] items@[a]) < first_port(
                    #[trigger] items@[b]) by {
                    if b < items_pre.len() {
                        assert(items@[a] == items_pre[a] && items@[b] == items_pre[b]);
                    } else if items@.len() > items_pre.len() && b == items_pre.len() {
                        assert(items@[a] == items_pre[a]);
                        let j = choose|j: int|
                            0 <= j < i && first_port(items_pre[a]) == s[j].local_port;
                        assert(s[j].local_port < s[i as int].local_port);
                    }
                }
                assert forall|j: int|
                    0 <= j < i + 1 && (#[trigger] s[j].group_id) is None implies exists|a: int|
                    0 <= a < items@.len() && is_single(#[trigger] items@[a]) && first_port(
                        items@[a],
                    ) == s[j].local_port by {
                    if j < i {
                        let a = choose|a: int|
                            0 <= a < items_pre.len() && is_single(items_pre[a]) && first_port(
                                items_pre[a],
                            ) == s[j].local_port;
                        assert(items@[a] == items_pre[a]);
                        assert(0 <= a < items@.len() && is_single(items@[a]) && first_port(
                            items@[a],
                        ) == s[j].local_port);
                    } else {
                        let a = items@.len() - 1;
                        assert(0 <= a < items@.len() && is_single(items@[a]) && first_port(
                            items@[a],
                        ) == s[j].local_port);
                    }
                }
                assert forall|j: int|
                    0 <= j < i + 1 && (#[trigger] s[j].group_id) is Some implies exists|a: int|
                    0 <= a < items@.len() && is_group_for(
                        #[trigger] items@[a],
                        s[j].group_id->0,
                    ) by {
                    if j < i {
                        let a = choose|a: int|
                            0 <= a < items_pre.len() && is_group_for(
                                items_pre[a],
                                s[j].group_id->0,
                            );
                        assert(items@[a] == items_pre[a]);
                        assert(0 <= a < items@.len() && is_group_for(
                            items@[a],
                            s[j].group_id->0,
                        ));
                    } else {
                        let g0 = s[j].group_id->0;
                        if exists|q: int| 0 <= q < i && (#[trigger] s[q].group_id) == Some(g0) {
                            let q = choose|q: int|
                                0 <= q < i && (#[trigger] s[q].group_id) == Some(g0);
                            let a = choose|a: int|
                                0 <= a < items_pre.len() && is_group_for(
                                    items_pre[a],
                                    s[q].group_id->0,
                                );
                            assert(items@[a] == items_pre[a]);
                            assert(0 <= a < items@.len() && is_group_for(items@[a], g0));
                        } else {
                            let a = items@.len() - 1;
                            assert(0 <= a < items@.len() && is_group_for(items@[a], g0));
                        }
                    }
                }
            }
            i = i + 1;
        }
        items
    }

    /// How many rows the tunnel list renders (a batch counts once).
    pub fn display_count(&self) -> (r: usize)
        requires
            self.wf(),
        ensures
            r == row_count(self.tunnels@, 0),
    {
        self.get_display_items().len()
    }
}

/// Position `i` starts a display row: it holds an ungrouped tunnel, or
/// the first tunnel of its batch.
pub open spec fn is_row_start(s: Seq<Tunnel>, i: int) -> bool {
    s[i].group_id is None || forall|j: int| 0 <= j < i ==> (#[trigger] s[j].group_id) != s[i].group_id
}

/// How many display rows the tunnels from position `i` on contribute.
pub open spec fn row_count(s: Seq<Tunnel>, i: int) -> int
    decreases s.len() - i,
{
    if i < 0 || i >= s.len() {
        0
    } else {
        (if is_row_start(s, i) {
            1int
        } else {
            0int
        }) + row_count(s, i + 1)
    }
}

/// The remote host named by a tunnel-spec text: what stands before the
/// first `':'`, or "localhost" when there is none.
pub open spec fn spec_remote_host(s: Seq<char>) -> Seq<char> {
    if find_char(s, ':') == s.len() {
        "localhost"@
    } else {
        s.take(find_char(s, ':'))
    }
}

/// The port text of a tunnel-spec: what stands after the first `':'`, or
/// the whole text when there is none.
pub open spec fn spec_port_text(s: Seq<char>) -> Seq<char> {
    if find_char(s, ':') == s.len() {
        s
    } else {
        s.skip(find_char(s, ':') + 1)
    }
}

/// A port field parsed as `u16::from_str` would, defaulting to 0.
pub open spec fn port_or_zero(s: Seq<char>) -> u16 {
    match parse_u64_spec(s) {
        Some(v) => if v <= u16::MAX {
            v as u16
        } else {
            0
        },
        None => 0,
    }
}

/// The remote ports a tunnel-spec names: a `start-end` text with
/// `0 < start <= end` names the whole inclusive range, a single positive
/// port names itself, and anything else names nothing.
pub open spec fn spec_ports(s: Seq<char>) -> Seq<u16> {
    let p = spec_port_text(s);
    if find_char(p, '-') != p.len() {
        let start = port_or_zero(p.take(find_char(p, '-')));
        let end = port_or_zero(p.skip(find_char(p, '-') + 1));
        if start > 0 && end >= start {
            Seq::new((end - start + 1) as nat, |i: int| (start + i) as u16)
        } else {
            Seq::empty()
        }
    } else {
        let v = port_or_zero(p);
        if v > 0 {
            seq![v]
        } else {
            Seq::empty()
        }
    }
}

fn parse_port_field(v: &Vec<char>) -> (r: u16)
    ensures
        r == port_or_zero(v@),
{
    match crate::text::parse_u64_opt(v) {
        Some(n) => {
            if n <= u16::MAX as u64 {
                n as u16
            } else {
                0
            }
        },
        None => 0,
    }
}

fn find_char_exec(v: &Vec<char>, c: char) -> (r: usize)
    ensures
        r == crate::text::find_char(v@, c),
        r <= v@.len(),
{
    let mut i: usize = 0;
    while i < v.len()
        invariant
            0 <= i <= v@.len(),
            forall|j: int| 0 <= j < i ==> v@[j] != c,
        decreases v@.len() - i,
    {
        if v[i] == c {
            proof {
                crate::text::lemma_find_char(v@, c, i as int);
            }
            return i;
        }
        i = i + 1;
    }
    proof {
        crate::text::lemma_find_char(v@, c, i as int);
    }
    i
}

/// Parses the tunnel-spec text a user enters: `port`, `start-end`,
/// `host:port` or `host:start-end`; the host defaults to "localhost" and
/// a malformed port part yields no ports.
pub fn parse_tunnel_spec(text: &str) -> (r: (String, Vec<u16>))
    ensures
        r.0@ == spec_remote_host(text@),
        r.1@ == spec_ports(text@),
{
    let chars = chars_vec(text);
    let colon = find_char_exec(&chars, ':');
    let (host, port_text) = if colon == chars.len() {
        ("localhost".to_owned(), chars)
    } else {
        let h = crate::text::subvec(&chars, 0, colon);
        let p = crate::text::subvec(&chars, colon + 1, chars.len());
        proof {
            assert(h@ =~= spec_remote_host(text@));
            assert(p@ =~= spec_port_text(text@));
        }
        (string_from_chars(&h), p)
    };
    let dash = find_char_exec(&port_text, '-');
    let mut ports: Vec<u16> = Vec::new();
    if dash != port_text.len() {
        let sv = crate::text::subvec(&port_text, 0, dash);
        let ev = crate::text::subvec(&port_text, dash + 1, port_text.len());
        proof {
            assert(sv@ =~= spec_port_text(text@).take(find_char(spec_port_text(text@), '-')));
            assert(ev@ =~= spec_port_text(text@).skip(find_char(spec_port_text(text@), '-') + 1));
        }
        let start = parse_port_field(&sv);
        let end = parse_port_field(&ev);
        if start > 0 && end >= start {
            let mut p: u16 = start;
            loop
                invariant_except_break
                    start <= p <= end,
                    0 < start,
                    ports@.len() == p - start,
                    forall|i: int| 0 <= i < ports@.len() ==> (#[trigger] ports@[i]) == start + i,
                ensures
                    ports@.len() == end - start + 1,
                    forall|i: int| 0 <= i < ports@.len() ==> (#[trigger] ports@[i]) == start + i,
                decreases end - p,
            {
                ports.push(p);
                if p == end {
                    break ;
                }
                p = p + 1;
            }
            proof {
                assert(ports@ =~= Seq::new((end - start + 1) as nat, |i: int| (start + i) as u16));
            }
        }
    } else {
        proof {
            assert(port_text@ =~= spec_port_text(text@));
        }
        let v = parse_port_field(&port_text);
        if v > 0 {
            ports.push(v);
            proof {
                assert(ports@ =~= seq![v]);
            }
        }
    }
    proof {
        if spec_ports(text@).len() == 0 {
            assert(ports@ =~= spec_ports(text@));
        }
    }
    (host, ports)
}

/// The `local:host:port` forwarding triple handed to the forwarding
/// process.
pub open spec fn forward_spec(lp: u16, rh: Seq<char>, rp: u16) -> Seq<char> {
    dec_str(lp as int) + ":"@ + rh + ":"@ + dec_str(rp as int)
}

/// The argument list of a forwarding process for `server`: no remote
/// command, one local forward, batch mode with keep-alives, then the
/// optional login, port and identity-file flags, and finally the host.
pub open spec fn tunnel_args_spec(server: Server, lp: u16, rh: Seq<char>, rp: u16) -> Seq<
    Seq<char>,
> {
    let base = seq![
        "-N"@,
        "-L"@,
        forward_spec(lp, rh, rp),
        "-o"@,
        "BatchMode=yes"@,
        "-o"@,
        "ExitOnForwardFailure=yes"@,
        "-o"@,
        "ServerAliveInterval=30"@,
        "-o"@,
        "ServerAliveCountMax=3"@,
    ];
    let with_user = if server.user is Some {
        base + seq!["-l"@, server.user->0@]
    } else {
        base
    };
    let with_port = if server.port != 22 {
        with_user + seq!["-p"@, dec_str(server.port as int)]
    } else {
        with_user
    };
    let with_id = if server.identity_file is Some {
        with_port + seq!["-i"@, server.identity_file->0@]
    } else {
        with_port
    };
    with_id.push(server.host@)
}

/// Builds the argument list for the forwarding process that the caller
/// spawns.
pub fn build_tunnel_args(server: &Server, remote_host: &str, remote_port: u16, local_port: u16) -> (
    r: Vec<String>)
    ensures
        r@.map_values(|s: String| s@) == tunnel_args_spec(
            *server,
            local_port,
            remote_host@,
            remote_port,
        ),
{
    let mut args: Vec<String> = Vec::new();
    args.push("-N".to_owned());
    args.push("-L".to_owned());
    let mut fwd = u64_dec_chars(local_port as u64);
    fwd.push(':');
    let rh = chars_vec(remote_host);
    crate::text::append_chars(&mut fwd, &rh);
    fwd.push(':');
    let rp = u64_dec_chars(remote_port as u64);
    crate::text::append_chars(&mut fwd, &rp);
    proof {
        reveal_strlit(":");
        assert(local_port as u64 as int == local_port as int);
        assert(remote_port as u64 as int == remote_port as int);
        assert(fwd@ =~= forward_spec(local_port, remote_host@, remote_port));
    }
    args.push(string_from_chars(&fwd));
    args.push("-o".to_owned());
    args.push("BatchMode=yes".to_owned());
    args.push("-o".to_owned());
    args.push("ExitOnForwardFailure=yes".to_owned());
    args.push("-o".to_owned());
    args.push("ServerAliveInterval=30".to_owned());
    args.push("-o".to_owned());
    args.push("ServerAliveCountMax=3".to_owned());
    match &server.user {
        Some(u) => {
            args.push("-l".to_owned());
            args.push(u.clone());
        },
        None => {},
    }
    if server.port != 22 {
        args.push("-p".to_owned());
        args.push(u64_to_string_port(server.port));
    }
    match &server.identity_file {
        Some(idf) => {
            args.push("-i".to_owned());
            args.push(idf.clone());
        },
        None => {},
    }
    args.push(server.host.clone());
    proof {
        assert(args@.map_values(|s: String| s@) =~= tunnel_args_spec(
            *server,
            local_port,
            remote_host@,
            remote_port,
        ));
    }
    args
}

/// The decimal rendering of a port number.
fn u64_to_string_port(p: u16) -> (r: String)
    ensures
        r@ == dec_str(p as int),
{
    let v = u64_dec_chars(p as u64);
    string_from_chars(&v)
}

} // verus!
