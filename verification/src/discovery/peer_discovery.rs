//! Finding and keeping track of network peers.
//!
//! Peers are tracked under a unique identifier with an address,
//! capabilities, and liveness data; discovery protocols feed new peers in,
//! and peers that stay silent past the timeout are pruned.

use crate::shared::error::ProtocolError;
use crate::shared::utils::{str_eq, timestamp_millis};
use vstd::prelude::*;

verus! {

/// A known network peer.
#[derive(Debug)]
pub struct PeerInfo {
    /// Peer identifier.
    pub peer_id: String,
    /// Where the peer can be reached.
    pub address: String,
    /// Capabilities the peer advertises.
    pub capabilities: Vec<String>,
    /// When the peer was last seen, milliseconds.
    pub last_seen: u64,
    /// Measured latency to the peer, if known, milliseconds.
    pub latency_ms: Option<u64>,
    /// The peer's version.
    pub version: String,
}

/// Ways of discovering peers.
#[derive(Clone, Copy, Debug, PartialEq, Eq, Structural)]
pub enum DiscoveryProtocol {
    /// Local multicast.
    Multicast,
    /// A distributed hash table.
    DHT,
    /// A fixed list of bootstrap nodes.
    Bootstrap,
    /// Peers added by hand.
    Manual,
}

/// Configuration for peer discovery.
#[derive(Debug)]
pub struct DiscoveryConfig {
    /// The protocols to discover peers with.
    pub protocols: Vec<DiscoveryProtocol>,
    /// Most peers kept at once.
    pub max_peers: usize,
    /// How often discovery runs, milliseconds.
    pub discovery_interval_ms: u64,
    /// How long a peer may stay silent before it is pruned, milliseconds.
    pub peer_timeout_ms: u64,
    /// Addresses of the bootstrap nodes.
    pub bootstrap_nodes: Vec<String>,
}

impl Default for DiscoveryConfig {
    /// Bootstrap and DHT discovery, at most 100 peers, a 30-second
    /// interval, a five-minute peer timeout, and no bootstrap nodes.
    fn default() -> (r: Self)
        ensures
            r.protocols@ == seq![DiscoveryProtocol::Bootstrap, DiscoveryProtocol::DHT],
            r.max_peers == 100,
            r.discovery_interval_ms == 30000,
            r.peer_timeout_ms == 300000,
            r.bootstrap_nodes@ == Seq::<String>::empty(),
    {
        let mut protocols: Vec<DiscoveryProtocol> = Vec::new();
        protocols.push(DiscoveryProtocol::Bootstrap);
        protocols.push(DiscoveryProtocol::DHT);
        proof {
            assert(protocols@ =~= seq![DiscoveryProtocol::Bootstrap, DiscoveryProtocol::DHT]);
        }
        DiscoveryConfig {
            protocols,
            max_peers: 100,
            discovery_interval_ms: 30000,
            peer_timeout_ms: 300000,
            bootstrap_nodes: Vec::new(),
        }
    }
}

/// Whether a peer with identifier `id` is known.
pub open spec fn has_peer(s: Seq<PeerInfo>, id: Seq<char>) -> bool {
    exists|i: int| 0 <= i < s.len() && (#[trigger] s[i]).peer_id@ == id
}

/// The index of the peer with identifier `id`.
pub open spec fn peer_idx(s: Seq<PeerInfo>, id: Seq<char>) -> int {
    choose|i: int| 0 <= i < s.len() && (#[trigger] s[i]).peer_id@ == id
}

/// The peer with identifier `id`.
pub open spec fn peer_at(s: Seq<PeerInfo>, id: Seq<char>) -> PeerInfo {
    s[peer_idx(s, id)]
}

/// No two peers share an identifier.
pub open spec fn unique_peer_ids(s: Seq<PeerInfo>) -> bool {
    forall|i: int, j: int|
        0 <= i < s.len() && 0 <= j < s.len() && i != j ==> (#[trigger] s[i]).peer_id@ != (
        #[trigger] s[j]).peer_id@
}

/// Whether two peer records agree in every observable field.
pub open spec fn peer_matches(a: PeerInfo, b: PeerInfo) -> bool {
    &&& a.peer_id@ == b.peer_id@
    &&& a.address@ == b.address@
    &&& a.capabilities@ == b.capabilities@
    &&& a.last_seen == b.last_seen
    &&& a.latency_ms == b.latency_ms
    &&& a.version@ == b.version@
}

/// Whether the peer advertises a capability reading `cap`.
pub open spec fn peer_has_cap(p: PeerInfo, cap: Seq<char>) -> bool {
    exists|j: int| 0 <= j < p.capabilities@.len() && (#[trigger] p.capabilities@[j])@ == cap
}

/// The peers of `s` that advertise a capability reading `cap`.
pub open spec fn peers_with_cap(s: Seq<PeerInfo>, cap: Seq<char>) -> Seq<PeerInfo> {
    s.filter(|p: PeerInfo| peer_has_cap(p, cap))
}

/// Whether the peer was seen within the timeout, as seen at `now`.
pub open spec fn peer_fresh(p: PeerInfo, timeout_ms: u64, now: u64) -> bool {
    now - p.last_seen < timeout_ms
}

/// The peers of `s` still fresh at time `now`.
pub open spec fn fresh_peers(s: Seq<PeerInfo>, timeout_ms: u64, now: u64) -> Seq<PeerInfo> {
    s.filter(|p: PeerInfo| peer_fresh(p, timeout_ms, now))
}

proof fn lemma_cap_filter_push(s: Seq<PeerInfo>, x: PeerInfo, cap: Seq<char>)
    ensures
        peer_has_cap(x, cap) ==> peers_with_cap(s.push(x), cap) == peers_with_cap(s, cap).push(x),
        !peer_has_cap(x, cap) ==> peers_with_cap(s.push(x), cap) == peers_with_cap(s, cap),
{
    reveal_with_fuel(Seq::filter, 2);
    assert(s.push(x).drop_last() =~= s);
}

proof fn lemma_fresh_peer_push(s: Seq<PeerInfo>, x: PeerInfo, timeout_ms: u64, now: u64)
    ensures
        peer_fresh(x, timeout_ms, now) ==> fresh_peers(s.push(x), timeout_ms, now) == fresh_peers(
            s,
            timeout_ms,
            now,
        ).push(x),
        !peer_fresh(x, timeout_ms, now) ==> fresh_peers(s.push(x), timeout_ms, now) == fresh_peers(
            s,
            timeout_ms,
            now,
        ),
{
    reveal_with_fuel(Seq::filter, 2);
    assert(s.push(x).drop_last() =~= s);
}

/// With unique ids, an index holding `id` is *the* index of `id`.
proof fn lemma_peer_idx_is(s: Seq<PeerInfo>, id: Seq<char>, i: int)
    requires
        unique_peer_ids(s),
        0 <= i < s.len(),
        s[i].peer_id@ == id,
    ensures
        has_peer(s, id),
        peer_idx(s, id) == i,
{
    assert(has_peer(s, id));
    let j = peer_idx(s, id);
    assert(0 <= j < s.len() && s[j].peer_id@ == id);
}

/// A name for the bootstrap peer discovered at position `i`.
///
/// Relies on std's string formatting; the name is a function of the
/// position alone.
#[verifier::external_body]
fn bootstrap_peer_name(i: usize) -> String {
    format!("bootstrap-{}", i)
}

/// Finds and keeps track of network peers.
pub struct PeerDiscovery {
    config: DiscoveryConfig,
    known_peers: Vec<PeerInfo>,
    active_discoveries: Vec<DiscoveryProtocol>,
    discovery_enabled: bool,
}

impl PeerDiscovery {
    /// The known peers, in discovery order.
    pub closed spec fn peers_seq(self) -> Seq<PeerInfo> {
        self.known_peers@
    }

    /// The protocols currently running.
    pub closed spec fn active_seq(self) -> Seq<DiscoveryProtocol> {
        self.active_discoveries@
    }

    /// Whether discovery is switched on.
    pub closed spec fn enabled_spec(self) -> bool {
        self.discovery_enabled
    }

    /// Most peers kept at once.
    pub closed spec fn max_peers_spec(self) -> usize {
        self.config.max_peers
    }

    /// How long a peer may stay silent before it is pruned, milliseconds.
    pub closed spec fn peer_timeout_spec(self) -> u64 {
        self.config.peer_timeout_ms
    }

    /// Well-formedness: peer identifiers are unique.
    pub open spec fn wf(self) -> bool {
        unique_peer_ids(self.peers_seq())
    }

    /// Creates a discovery service that knows no peers and is switched off.
    pub fn new(config: DiscoveryConfig) -> (r: Self)
        ensures
            r.wf(),
            r.peers_seq() == Seq::<PeerInfo>::empty(),
            r.active_seq() == Seq::<DiscoveryProtocol>::empty(),
            !r.enabled_spec(),
            r.max_peers_spec() == config.max_peers,
            r.peer_timeout_spec() == config.peer_timeout_ms,
    {
        PeerDiscovery {
            config,
            known_peers: Vec::new(),
            active_discoveries: Vec::new(),
            discovery_enabled: false,
        }
    }

    /// The index of the peer with identifier `peer_id`, if known.
    fn find_peer(&self, peer_id: &str) -> (r: Option<usize>)
        ensures
            match r {
                Some(i) => i < self.peers_seq().len() && self.peers_seq()[i as int].peer_id@
                    == peer_id@,
                None => !has_peer(self.peers_seq(), peer_id@),
            },
    {
        let n = self.known_peers.len();
        for i in 0..n
            invariant
                n == self.known_peers@.len(),
                forall|k: int| 0 <= k < i ==> (#[trigger] self.known_peers@[k]).peer_id@ != peer_id@,
        {
            if str_eq(self.known_peers[i].peer_id.as_str(), peer_id) {
                return Some(i);
            }
        }
        None
    }

    /// Takes in a discovered peer: a peer under a known identifier is
    /// replaced, a new one appended. Refused with `QueueFull` when the peer
    /// limit is reached.
    pub fn add_peer(&mut self, peer: PeerInfo) -> (r: Result<(), ProtocolError>)
        requires
            old(self).wf(),
        ensures
            final(self).wf(),
            final(self).enabled_spec() == old(self).enabled_spec(),
            final(self).active_seq() == old(self).active_seq(),
            final(self).max_peers_spec() == old(self).max_peers_spec(),
            final(self).peer_timeout_spec() == old(self).peer_timeout_spec(),
            old(self).peers_seq().len() >= old(self).max_peers_spec() ==> r == Err::<
                (),
                ProtocolError,
            >(ProtocolError::QueueFull) && *final(self) == *old(self),
            old(self).peers_seq().len() < old(self).max_peers_spec() && has_peer(
                old(self).peers_seq(),
                peer.peer_id@,
            ) ==> r == Ok::<(), ProtocolError>(()) && final(self).peers_seq() == old(self).peers_seq().update(peer_idx(old(self).peers_seq(), peer.peer_id@), peer),
            old(self).peers_seq().len() < old(self).max_peers_spec() && !has_peer(
                old(self).peers_seq(),
                peer.peer_id@,
            ) ==> r == Ok::<(), ProtocolError>(()) && final(self).peers_seq() == old(self).peers_seq().push(peer),
    {
        if self.known_peers.len() >= self.config.max_peers {
            return Err(ProtocolError::QueueFull);
        }
        let found = self.find_peer(peer.peer_id.as_str());
        match found {
            Some(i) => {
                proof {
                    lemma_peer_idx_is(self.known_peers@, peer.peer_id@, i as int);
                }
                let ghost prev = self.known_peers@;
                self.known_peers.remove(i);
                self.known_peers.insert(i, peer);
                proof {
                    assert(self.known_peers@ =~= prev.update(i as int, peer));
                }
            },
            None => {
                self.known_peers.push(peer);
            },
        }
        Ok(())
    }

    /// Forgets a peer; refused with `NotFound` when no peer carries the
    /// identifier.
    pub fn remove_peer(&mut self, peer_id: &str) -> (r: Result<(), ProtocolError>)
        requires
            old(self).wf(),
        ensures
            final(self).wf(),
            final(self).enabled_spec() == old(self).enabled_spec(),
            final(self).active_seq() == old(self).active_seq(),
            final(self).max_peers_spec() == old(self).max_peers_spec(),
            final(self).peer_timeout_spec() == old(self).peer_timeout_spec(),
            !has_peer(old(self).peers_seq(), peer_id@) ==> r == Err::<(), ProtocolError>(
                ProtocolError::NotFound,
            ) && *final(self) == *old(self),
            has_peer(old(self).peers_seq(), peer_id@) ==> r == Ok::<(), ProtocolError>(()) && final(self).peers_seq() == old(self).peers_seq().remove(
                peer_idx(old(self).peers_seq(), peer_id@),
            ),
    {
        let found = self.find_peer(peer_id);
        match found {
            None => Err(ProtocolError::NotFound),
            Some(i) => {
                proof {
                    lemma_peer_idx_is(self.known_peers@, peer_id@, i as int);
                }
                self.known_peers.remove(i);
                Ok(())
            },
        }
    }

    /// Notes that a peer was just seen with the given latency; its
    /// last-seen time comes from the wall clock. Refused with `NotFound`
    /// when no peer carries the identifier.
    pub fn update_peer(&mut self, peer_id: &str, latency_ms: u64) -> (r: Result<(), ProtocolError>)
        requires
            old(self).wf(),
        ensures
            final(self).wf(),
            final(self).enabled_spec() == old(self).enabled_spec(),
            final(self).active_seq() == old(self).active_seq(),
            final(self).max_peers_spec() == old(self).max_peers_spec(),
            final(self).peer_timeout_spec() == old(self).peer_timeout_spec(),
            !has_peer(old(self).peers_seq(), peer_id@) ==> r == Err::<(), ProtocolError>(
                ProtocolError::NotFound,
            ) && *final(self) == *old(self),
            has_peer(old(self).peers_seq(), peer_id@) ==> {
                let pi = peer_idx(old(self).peers_seq(), peer_id@);
                let p = old(self).peers_seq()[pi];
                let q = final(self).peers_seq()[pi];
                &&& r == Ok::<(), ProtocolError>(())
                &&& final(self).peers_seq().len() == old(self).peers_seq().len()
                &&& (forall|k: int|
                    0 <= k < old(self).peers_seq().len() && k != pi
                        ==> #[trigger] final(self).peers_seq()[k] == old(self).peers_seq()[k])
                &&& q == PeerInfo { last_seen: q.last_seen, latency_ms: Some(latency_ms), ..p }
            },
    {
        let found = self.find_peer(peer_id);
        match found {
            None => Err(ProtocolError::NotFound),
            Some(i) => {
                proof {
                    lemma_peer_idx_is(self.known_peers@, peer_id@, i as int);
                }
                let ghost prev = self.known_peers@;
                let now = timestamp_millis();
                let mut p = self.known_peers.remove(i);
                p.last_seen = now;
                p.latency_ms = Some(latency_ms);
                self.known_peers.insert(i, p);
                proof {
                    assert(self.known_peers@ =~= prev.update(
                        i as int,
                        PeerInfo { last_seen: now, latency_ms: Some(latency_ms), ..prev[i as int] },
                    ));
                }
                Ok(())
            },
        }
    }

    /// Copies a peer record; the copy agrees with the original in every
    /// field.
    fn clone_peer(p: &PeerInfo) -> (c: PeerInfo)
        ensures
            peer_matches(c, *p),
    {
        let m = p.capabilities.len();
        let mut capabilities: Vec<String> = Vec::new();
        for u in 0..m
            invariant
                m == p.capabilities@.len(),
                capabilities@.len() == u,
                forall|k: int| 0 <= k < u ==> #[trigger] capabilities@[k] == p.capabilities@[k],
        {
            capabilities.push(p.capabilities[u].clone());
        }
        proof {
            assert(capabilities@ =~= p.capabilities@);
        }
        PeerInfo {
            peer_id: p.peer_id.clone(),
            address: p.address.clone(),
            capabilities,
            last_seen: p.last_seen,
            latency_ms: p.latency_ms,
            version: p.version.clone(),
        }
    }

    /// All known peers, in discovery order, as copies.
    pub fn get_peers(&self) -> (r: Vec<PeerInfo>)
        ensures
            r@.len() == self.peers_seq().len(),
            forall|k: int|
                0 <= k < r@.len() ==> peer_matches(#[trigger] r@[k], self.peers_seq()[k]),
    {
        let n = self.known_peers.len();
        let mut out: Vec<PeerInfo> = Vec::new();
        for i in 0..n
            invariant
                n == self.known_peers@.len(),
                out@.len() == i,
                forall|k: int|
                    0 <= k < i ==> peer_matches(#[trigger] out@[k], self.known_peers@[k]),
        {
            out.push(Self::clone_peer(&self.known_peers[i]));
        }
        out
    }

    /// The known peers that advertise the capability, in discovery order,
    /// as copies.
    pub fn get_peers_by_capability(&self, capability: &str) -> (r: Vec<PeerInfo>)
        ensures
            r@.len() == peers_with_cap(self.peers_seq(), capability@).len(),
            forall|k: int|
                0 <= k < r@.len() ==> peer_matches(
                    #[trigger] r@[k],
                    peers_with_cap(self.peers_seq(), capability@)[k],
                ),
    {
        let n = self.known_peers.len();
        let mut out: Vec<PeerInfo> = Vec::new();
        for i in 0..n
            invariant
                n == self.known_peers@.len(),
                out@.len() == peers_with_cap(
                    self.known_peers@.subrange(0, i as int),
                    capability@,
                ).len(),
                forall|k: int|
                    0 <= k < out@.len() ==> peer_matches(
                        #[trigger] out@[k],
                        peers_with_cap(self.known_peers@.subrange(0, i as int), capability@)[k],
                    ),
        {
            proof {
                assert(self.known_peers@.subrange(0, i + 1) =~= self.known_peers@.subrange(
                    0,
                    i as int,
                ).push(self.known_peers@[i as int]));
                lemma_cap_filter_push(
                    self.known_peers@.subrange(0, i as int),
                    self.known_peers@[i as int],
                    capability@,
                );
            }
            let offers = !Self::lacks_cap(&self.known_peers[i], capability);
            if offers {
                let c = Self::clone_peer(&self.known_peers[i]);
                let ghost before = out@;
                out.push(c);
                proof {
                    assert(peer_matches(out@.last(), self.known_peers@[i as int]));
                    assert(forall|k: int| 0 <= k < before.len() ==> #[trigger] out@[k] == before[k]);
                }
            }
        }
        proof {
            assert(self.known_peers@.subrange(0, n as int) =~= self.known_peers@);
        }
        out
    }

    /// Whether the peer advertises no capability reading `cap`.
    fn lacks_cap(p: &PeerInfo, cap: &str) -> (r: bool)
        ensures
            r == !peer_has_cap(*p, cap@),
    {
        let m = p.capabilities.len();
        for u in 0..m
            invariant
                m == p.capabilities@.len(),
                forall|k: int| 0 <= k < u ==> (#[trigger] p.capabilities@[k])@ != cap@,
        {
            if str_eq(p.capabilities[u].as_str(), cap) {
                proof {
                    let gu = u as int;
                    assert((p.capabilities@[gu])@ == cap@);
                }
                return false;
            }
        }
        true
    }

    /// Forgets every peer not seen within the timeout before `now`.
    pub fn prune_stale_peers(&mut self, now: u64)
        requires
            old(self).wf(),
        ensures
            final(self).wf(),
            final(self).enabled_spec() == old(self).enabled_spec(),
            final(self).active_seq() == old(self).active_seq(),
            final(self).max_peers_spec() == old(self).max_peers_spec(),
            final(self).peer_timeout_spec() == old(self).peer_timeout_spec(),
            final(self).peers_seq() == fresh_peers(
                old(self).peers_seq(),
                old(self).peer_timeout_spec(),
                now,
            ),
    {
        let ghost orig = self.known_peers@;
        let ghost timeout = self.config.peer_timeout_ms;
        let mut i: usize = 0;
        let ghost mut k: int = 0;
        while i < self.known_peers.len()
            invariant
                self.wf(),
                self.config.peer_timeout_ms == timeout,
                self.config.max_peers == old(self).max_peers_spec(),
                self.discovery_enabled == old(self).enabled_spec(),
                self.active_discoveries@ == old(self).active_seq(),
                0 <= k <= orig.len(),
                i as int == fresh_peers(orig.subrange(0, k), timeout, now).len(),
                self.known_peers@ == fresh_peers(orig.subrange(0, k), timeout, now)
                    + orig.subrange(k, orig.len() as int),
            decreases orig.len() - k,
        {
            proof {
                assert(self.known_peers@[i as int] == orig[k]);
                assert(orig.subrange(0, k + 1) =~= orig.subrange(0, k).push(orig[k]));
                lemma_fresh_peer_push(orig.subrange(0, k), orig[k], timeout, now);
            }
            let fresh = if now >= self.known_peers[i].last_seen {
                now - self.known_peers[i].last_seen < self.config.peer_timeout_ms
            } else {
                true
            };
            if fresh {
                i = i + 1;
                proof {
                    k = k + 1;
                    assert(self.known_peers@ =~= fresh_peers(orig.subrange(0, k), timeout, now)
                        + orig.subrange(k, orig.len() as int));
                }
            } else {
                self.known_peers.remove(i);
                proof {
                    k = k + 1;
                    assert(self.known_peers@ =~= fresh_peers(orig.subrange(0, k), timeout, now)
                        + orig.subrange(k, orig.len() as int));
                }
            }
        }
        proof {
            assert(orig.subrange(0, orig.len() as int) =~= orig);
            assert(self.known_peers@ =~= fresh_peers(orig, timeout, now));
        }
    }

    /// Forgets every peer not seen within the timeout, as seen from the
    /// wall clock.
    pub fn cleanup_stale_peers(&mut self)
        requires
            old(self).wf(),
        ensures
            final(self).wf(),
            final(self).enabled_spec() == old(self).enabled_spec(),
            final(self).active_seq() == old(self).active_seq(),
            final(self).max_peers_spec() == old(self).max_peers_spec(),
            final(self).peer_timeout_spec() == old(self).peer_timeout_spec(),
            exists|t: u64|
                final(self).peers_seq() == #[trigger] fresh_peers(
                    old(self).peers_seq(),
                    old(self).peer_timeout_spec(),
                    t,
                ),
    {
        let now = timestamp_millis();
        self.prune_stale_peers(now);
    }

    /// Discovers a peer from each configured bootstrap node; each arrives
    /// as a validator- and worker-capable peer under a bootstrap name.
    fn discover_from_bootstrap(&mut self) -> (r: Result<(), ProtocolError>)
        requires
            old(self).wf(),
        ensures
            final(self).wf(),
            final(self).enabled_spec() == old(self).enabled_spec(),
            final(self).active_seq() == old(self).active_seq(),
            final(self).max_peers_spec() == old(self).max_peers_spec(),
            final(self).peer_timeout_spec() == old(self).peer_timeout_spec(),
    {
        let n = self.config.bootstrap_nodes.len();
        let mut addresses: Vec<String> = Vec::new();
        for i in 0..n
            invariant
                *self == *old(self),
                n == self.config.bootstrap_nodes@.len(),
        {
            addresses.push(self.config.bootstrap_nodes[i].clone());
        }
        let m = addresses.len();
        for i in 0..m
            invariant
                self.wf(),
                m == addresses@.len(),
                self.config.max_peers == old(self).max_peers_spec(),
                self.config.peer_timeout_ms == old(self).peer_timeout_spec(),
                self.discovery_enabled == old(self).enabled_spec(),
                self.active_discoveries@ == old(self).active_seq(),
        {
            let mut capabilities: Vec<String> = Vec::new();
            capabilities.push("validator".to_owned());
            capabilities.push("worker".to_owned());
            let peer = PeerInfo {
                peer_id: bootstrap_peer_name(i),
                address: addresses[i].clone(),
                capabilities,
                last_seen: timestamp_millis(),
                latency_ms: Some(10),
                version: "1.0.0".to_owned(),
            };
            let added = self.add_peer(peer);
            if added.is_err() {
                return added;
            }
        }
        Ok(())
    }

    /// Whether `protocol` is already running.
    fn protocol_active(&self, protocol: DiscoveryProtocol) -> (r: bool)
        ensures
            r == self.active_seq().contains(protocol),
    {
        let n = self.active_discoveries.len();
        for i in 0..n
            invariant
                n == self.active_discoveries@.len(),
                forall|k: int| 0 <= k < i ==> self.active_discoveries@[k] != protocol,
        {
            if self.active_discoveries[i] == protocol {
                proof {
                    assert(self.active_discoveries@[i as int] == protocol);
                }
                return true;
            }
        }
        proof {
            if self.active_discoveries@.contains(protocol) {
                let w = choose|w: int|
                    0 <= w < self.active_discoveries@.len() && self.active_discoveries@[w]
                        == protocol;
                assert(false);
            }
        }
        false
    }

    /// Starts one discovery protocol; refused with `AlreadyRegistered` when
    /// it is already running. Bootstrap discovery contacts the configured
    /// bootstrap nodes at once.
    fn start_protocol(&mut self, protocol: DiscoveryProtocol) -> (r: Result<(), ProtocolError>)
        requires
            old(self).wf(),
        ensures
            final(self).wf(),
            final(self).enabled_spec() == old(self).enabled_spec(),
            final(self).max_peers_spec() == old(self).max_peers_spec(),
            final(self).peer_timeout_spec() == old(self).peer_timeout_spec(),
            old(self).active_seq().contains(protocol) ==> r == Err::<(), ProtocolError>(
                ProtocolError::AlreadyRegistered,
            ) && *final(self) == *old(self),
            !old(self).active_seq().contains(protocol) ==> final(self).active_seq() == old(self).active_seq().push(protocol),
    {
        if self.protocol_active(protocol) {
            return Err(ProtocolError::AlreadyRegistered);
        }
        self.active_discoveries.push(protocol);
        match protocol {
            DiscoveryProtocol::Bootstrap => self.discover_from_bootstrap(),
            _ => Ok(()),
        }
    }

    /// Starts peer discovery with every configured protocol; refused with
    /// `AlreadyRegistered` when discovery is already running. Once started,
    /// discovery counts as running even if a protocol failed to start.
    pub fn start_discovery(&mut self) -> (r: Result<(), ProtocolError>)
        requires
            old(self).wf(),
        ensures
            final(self).wf(),
            final(self).max_peers_spec() == old(self).max_peers_spec(),
            final(self).peer_timeout_spec() == old(self).peer_timeout_spec(),
            old(self).enabled_spec() ==> r == Err::<(), ProtocolError>(
                ProtocolError::AlreadyRegistered,
            ) && *final(self) == *old(self),
            !old(self).enabled_spec() ==> final(self).enabled_spec(),
    {
        if self.discovery_enabled {
            return Err(ProtocolError::AlreadyRegistered);
        }
        self.discovery_enabled = true;
        let n = self.config.protocols.len();
        let mut protocols: Vec<DiscoveryProtocol> = Vec::new();
        for i in 0..n
            invariant
                n == self.config.protocols@.len(),
                self.wf(),
                !old(self).enabled_spec(),
                self.config.max_peers == old(self).max_peers_spec(),
                self.config.peer_timeout_ms == old(self).peer_timeout_spec(),
                self.discovery_enabled,
        {
            protocols.push(self.config.protocols[i]);
        }
        let m = protocols.len();
        for i in 0..m
            invariant
                self.wf(),
                m == protocols@.len(),
                !old(self).enabled_spec(),
                self.config.max_peers == old(self).max_peers_spec(),
                self.config.peer_timeout_ms == old(self).peer_timeout_spec(),
                self.discovery_enabled,
        {
            let protocol = protocols[i];
            let started = self.start_protocol(protocol);
            if started.is_err() {
                return started;
            }
        }
        Ok(())
    }

    /// Stops peer discovery and every running protocol.
    pub fn stop_discovery(&mut self)
        requires
            old(self).wf(),
        ensures
            final(self).wf(),
            final(self).peers_seq() == old(self).peers_seq(),
            final(self).max_peers_spec() == old(self).max_peers_spec(),
            final(self).peer_timeout_spec() == old(self).peer_timeout_spec(),
            !final(self).enabled_spec(),
            final(self).active_seq() == Seq::<DiscoveryProtocol>::empty(),
    {
        self.discovery_enabled = false;
        self.active_discoveries.clear();
    }

    /// How many peers are known.
    pub fn peer_count(&self) -> (r: usize)
        ensures
            r == self.peers_seq().len(),
    {
        self.known_peers.len()
    }

    /// Whether discovery is switched on.
    pub fn is_discovering(&self) -> (r: bool)
        ensures
            r == self.enabled_spec(),
    {
        self.discovery_enabled
    }
}

} // verus!
