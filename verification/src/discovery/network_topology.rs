//! The network graph: nodes, the edges between them, and simple statistics.

use crate::shared::error::ProtocolError;
use crate::shared::utils::str_eq;
use vstd::prelude::*;

verus! {

/// The role a node plays in the network.
#[derive(Clone, Copy, Debug, PartialEq, Eq, Structural)]
pub enum NodeType {
    /// Task orchestration.
    Orchestrator,
    /// Validation and consensus.
    Validator,
    /// Task execution.
    Worker,
    /// Ingress and egress.
    Gateway,
}

/// Capacity a node advertises.
#[derive(Clone, Copy, Debug, PartialEq, Eq, Structural)]
pub struct NodeCapacity {
    /// Processor cores.
    pub cpu_cores: u32,
    /// Memory, gigabytes.
    pub memory_gb: u32,
    /// Bandwidth, megabits per second.
    pub bandwidth_mbps: u32,
    /// Storage, gigabytes.
    pub storage_gb: u32,
}

/// A node of the network graph.
#[derive(Debug)]
pub struct NetworkNode {
    /// Node identifier.
    pub node_id: String,
    /// The role the node plays.
    pub node_type: NodeType,
    /// The region the node runs in.
    pub region: String,
    /// Capacity the node advertises.
    pub capacity: NodeCapacity,
    /// Identifiers of the nodes this node is connected to.
    pub connections: Vec<String>,
}

/// An edge between two nodes.
#[derive(Debug)]
pub struct NetworkEdge {
    /// The node the edge starts at.
    pub from_node: String,
    /// The node the edge ends at.
    pub to_node: String,
    /// Measured latency, milliseconds.
    pub latency_ms: u64,
    /// Bandwidth, megabits per second.
    pub bandwidth_mbps: u32,
    /// Reliability as a per-mille fraction (0..=1000).
    pub reliability_permille: u32,
}

/// Aggregate statistics over the network graph.
#[derive(Debug)]
pub struct NetworkStats {
    /// How many nodes the graph holds.
    pub total_nodes: usize,
    /// How many nodes play each role.
    pub nodes_by_type: Vec<(NodeType, usize)>,
    /// Connection entries summed over all nodes.
    pub total_connections: usize,
    /// Longest shortest path assumed for the graph.
    pub network_diameter: u32,
    /// Clustering coefficient as a per-mille fraction.
    pub clustering_permille: u32,
}

/// Whether the node's connection list holds an entry reading `peer`.
pub open spec fn connected_to(n: NetworkNode, peer: Seq<char>) -> bool {
    exists|j: int| 0 <= j < n.connections@.len() && (#[trigger] n.connections@[j])@ == peer
}

/// Whether two nodes agree in everything but their connection lists.
pub open spec fn node_meta_eq(a: NetworkNode, b: NetworkNode) -> bool {
    &&& a.node_id == b.node_id
    &&& a.node_type == b.node_type
    &&& a.region == b.region
    &&& a.capacity == b.capacity
}

/// How `connect` leaves a node: unchanged but for its connection list,
/// which now holds `peer` — appended once when it was missing, untouched
/// when it was already there.
pub open spec fn connect_applied(pre: NetworkNode, post: NetworkNode, peer: Seq<char>) -> bool {
    &&& node_meta_eq(post, pre)
    &&& connected_to(post, peer)
    &&& if connected_to(pre, peer) {
        post.connections@ == pre.connections@
    } else {
        post.connections@.len() == pre.connections@.len() + 1 && post.connections@.subrange(
            0,
            pre.connections@.len() as int,
        ) == pre.connections@ && (post.connections@.last())@ == peer
    }
}

/// Connection entries summed over all nodes.
pub open spec fn connection_total(s: Seq<NetworkNode>) -> int
    decreases s.len(),
{
    if s.len() == 0 {
        0
    } else {
        connection_total(s.drop_last()) + s.last().connections@.len()
    }
}

/// `connection_total`, saturated into a `usize`.
pub open spec fn sat_connection_total(s: Seq<NetworkNode>) -> usize {
    if connection_total(s) > usize::MAX {
        usize::MAX
    } else {
        connection_total(s) as usize
    }
}

proof fn lemma_connection_total_push(s: Seq<NetworkNode>, x: NetworkNode)
    ensures
        connection_total(s.push(x)) == connection_total(s) + x.connections@.len(),
{
    assert(s.push(x).drop_last() =~= s);
}

proof fn lemma_connection_total_nonneg(s: Seq<NetworkNode>)
    ensures
        connection_total(s) >= 0,
    decreases s.len(),
{
    if s.len() > 0 {
        lemma_connection_total_nonneg(s.drop_last());
    }
}

/// Whether some known region reads `region`.
pub open spec fn region_listed(regions: Seq<String>, region: Seq<char>) -> bool {
    exists|u: int| 0 <= u < regions.len() && (#[trigger] regions[u])@ == region
}

/// Whether a node with identifier `id` is present.
pub open spec fn has_node(s: Seq<NetworkNode>, id: Seq<char>) -> bool {
    exists|i: int| 0 <= i < s.len() && (#[trigger] s[i]).node_id@ == id
}

/// The index of the node with identifier `id`.
pub open spec fn node_idx(s: Seq<NetworkNode>, id: Seq<char>) -> int {
    choose|i: int| 0 <= i < s.len() && (#[trigger] s[i]).node_id@ == id
}

/// The node with identifier `id`.
pub open spec fn node_at(s: Seq<NetworkNode>, id: Seq<char>) -> NetworkNode {
    s[node_idx(s, id)]
}

/// No two nodes share an identifier.
pub open spec fn unique_node_ids(s: Seq<NetworkNode>) -> bool {
    forall|i: int, j: int|
        0 <= i < s.len() && 0 <= j < s.len() && i != j ==> (#[trigger] s[i]).node_id@ != (
        #[trigger] s[j]).node_id@
}

/// Whether two nodes agree in every observable field.
pub open spec fn node_matches(a: NetworkNode, b: NetworkNode) -> bool {
    &&& a.node_id@ == b.node_id@
    &&& a.node_type == b.node_type
    &&& a.region@ == b.region@
    &&& a.capacity == b.capacity
    &&& a.connections@ == b.connections@
}

/// The nodes of `s` whose role is `t`.
pub open spec fn nodes_of_type(s: Seq<NetworkNode>, t: NodeType) -> Seq<NetworkNode> {
    s.filter(|x: NetworkNode| x.node_type == t)
}

/// The nodes of `s` that run in `region`.
pub open spec fn nodes_of_region(s: Seq<NetworkNode>, region: Seq<char>) -> Seq<NetworkNode> {
    s.filter(|x: NetworkNode| x.region@ == region)
}

/// The edges of `s` that touch neither end of `id`.
pub open spec fn edges_without(s: Seq<NetworkEdge>, id: Seq<char>) -> Seq<NetworkEdge> {
    s.filter(|e: NetworkEdge| e.from_node@ != id && e.to_node@ != id)
}

proof fn lemma_type_filter_push(s: Seq<NetworkNode>, x: NetworkNode, t: NodeType)
    ensures
        x.node_type == t ==> nodes_of_type(s.push(x), t) == nodes_of_type(s, t).push(x),
        x.node_type != t ==> nodes_of_type(s.push(x), t) == nodes_of_type(s, t),
{
    reveal_with_fuel(Seq::filter, 2);
    assert(s.push(x).drop_last() =~= s);
}

proof fn lemma_region_filter_push(s: Seq<NetworkNode>, x: NetworkNode, region: Seq<char>)
    ensures
        x.region@ == region ==> nodes_of_region(s.push(x), region) == nodes_of_region(
            s,
            region,
        ).push(x),
        x.region@ != region ==> nodes_of_region(s.push(x), region) == nodes_of_region(s, region),
{
    reveal_with_fuel(Seq::filter, 2);
    assert(s.push(x).drop_last() =~= s);
}

proof fn lemma_edge_filter_push(s: Seq<NetworkEdge>, x: NetworkEdge, id: Seq<char>)
    ensures
        (x.from_node@ != id && x.to_node@ != id) ==> edges_without(s.push(x), id) == edges_without(
            s,
            id,
        ).push(x),
        !(x.from_node@ != id && x.to_node@ != id) ==> edges_without(s.push(x), id)
            == edges_without(s, id),
{
    reveal_with_fuel(Seq::filter, 2);
    assert(s.push(x).drop_last() =~= s);
}

/// With unique ids, an index holding `id` is *the* index of `id`.
proof fn lemma_node_idx_is(s: Seq<NetworkNode>, id: Seq<char>, i: int)
    requires
        unique_node_ids(s),
        0 <= i < s.len(),
        s[i].node_id@ == id,
    ensures
        has_node(s, id),
        node_idx(s, id) == i,
{
    assert(has_node(s, id));
    let j = node_idx(s, id);
    assert(0 <= j < s.len() && s[j].node_id@ == id);
}

/// Manages the network graph structure.
pub struct NetworkTopology {
    nodes: Vec<NetworkNode>,
    edges: Vec<NetworkEdge>,
    regions: Vec<String>,
}

impl NetworkTopology {
    /// The nodes, in insertion order.
    pub closed spec fn nodes_seq(self) -> Seq<NetworkNode> {
        self.nodes@
    }

    /// The edges, in insertion order.
    pub closed spec fn edges_seq(self) -> Seq<NetworkEdge> {
        self.edges@
    }

    /// The regions seen so far, in order of first appearance.
    pub closed spec fn regions_seq(self) -> Seq<String> {
        self.regions@
    }

    /// Well-formedness: node identifiers are unique.
    pub open spec fn wf(self) -> bool {
        unique_node_ids(self.nodes_seq())
    }

    /// Creates an empty topology.
    pub fn new() -> (r: Self)
        ensures
            r.wf(),
            r.nodes_seq() == Seq::<NetworkNode>::empty(),
            r.edges_seq() == Seq::<NetworkEdge>::empty(),
            r.regions_seq() == Seq::<String>::empty(),
    {
        NetworkTopology { nodes: Vec::new(), edges: Vec::new(), regions: Vec::new() }
    }

    /// The index of the node with identifier `node_id`, if any.
    fn find_node(&self, node_id: &str) -> (r: Option<usize>)
        ensures
            match r {
                Some(i) => i < self.nodes_seq().len() && self.nodes_seq()[i as int].node_id@
                    == node_id@,
                None => !has_node(self.nodes_seq(), node_id@),
            },
    {
        let n = self.nodes.len();
        for i in 0..n
            invariant
                n == self.nodes@.len(),
                forall|k: int| 0 <= k < i ==> (#[trigger] self.nodes@[k]).node_id@ != node_id@,
        {
            if str_eq(self.nodes[i].node_id.as_str(), node_id) {
                return Some(i);
            }
        }
        None
    }

    /// Adds a node; its region is remembered. Refused with
    /// `AlreadyRegistered` when a node with the same identifier exists.
    pub fn add_node(&mut self, node: NetworkNode) -> (r: Result<(), ProtocolError>)
        requires
            old(self).wf(),
        ensures
            final(self).wf(),
            has_node(old(self).nodes_seq(), node.node_id@) ==> r == Err::<(), ProtocolError>(
                ProtocolError::AlreadyRegistered,
            ) && *final(self) == *old(self),
            !has_node(old(self).nodes_seq(), node.node_id@) ==> {
                &&& r == Ok::<(), ProtocolError>(())
                &&& final(self).nodes_seq() == old(self).nodes_seq().push(node)
                &&& final(self).edges_seq() == old(self).edges_seq()
                &&& region_listed(final(self).regions_seq(), node.region@)
            },
    {
        if self.find_node(node.node_id.as_str()).is_some() {
            return Err(ProtocolError::AlreadyRegistered);
        }
        let m = self.regions.len();
        let mut region_known = false;
        for u in 0..m
            invariant
                *self == *old(self),
                m == self.regions@.len(),
                region_known ==> exists|w: int|
                    0 <= w < self.regions@.len() && (#[trigger] self.regions@[w])@ == node.region@,
        {
            if str_eq(self.regions[u].as_str(), node.region.as_str()) {
                proof {
                    let gu = u as int;
                    assert(0 <= gu < self.regions@.len() && (self.regions@[gu])@ == node.region@);
                }
                region_known = true;
            }
        }
        if !region_known {
            self.regions.push(node.region.clone());
            proof {
                let last = self.regions@.len() - 1;
                assert((self.regions@[last])@ == node.region@);
            }
        }
        let ghost region_view = node.region@;
        self.nodes.push(node);
        proof {
            assert(region_listed(self.regions@, region_view));
        }
        Ok(())
    }

    /// Removes a node and every edge that touches it; refused with
    /// `NotFound` when no node carries the identifier.
    pub fn remove_node(&mut self, node_id: &str) -> (r: Result<(), ProtocolError>)
        requires
            old(self).wf(),
        ensures
            final(self).wf(),
            final(self).regions_seq() == old(self).regions_seq(),
            !has_node(old(self).nodes_seq(), node_id@) ==> r == Err::<(), ProtocolError>(
                ProtocolError::NotFound,
            ) && *final(self) == *old(self),
            has_node(old(self).nodes_seq(), node_id@) ==> {
                &&& r == Ok::<(), ProtocolError>(())
                &&& final(self).nodes_seq() == old(self).nodes_seq().remove(
                    node_idx(old(self).nodes_seq(), node_id@),
                )
                &&& final(self).edges_seq() == edges_without(old(self).edges_seq(), node_id@)
            },
    {
        let found = self.find_node(node_id);
        match found {
            None => Err(ProtocolError::NotFound),
            Some(i) => {
                proof {
                    lemma_node_idx_is(self.nodes@, node_id@, i as int);
                }
                self.nodes.remove(i);
                proof {
                    assert forall|a: int, b: int|
                        0 <= a < self.nodes@.len() && 0 <= b < self.nodes@.len() && a != b implies (
                    #[trigger] self.nodes@[a]).node_id@ != (#[trigger] self.nodes@[b]).node_id@ by {
                        let ao = if a < i as int { a } else { a + 1 };
                        let bo = if b < i as int { b } else { b + 1 };
                        assert(self.nodes@[a] == old(self).nodes_seq()[ao]);
                        assert(self.nodes@[b] == old(self).nodes_seq()[bo]);
                    }
                }
                let ghost nodes1 = self.nodes@;
                let ghost orig = self.edges@;
                let mut j: usize = 0;
                let ghost mut k: int = 0;
                while j < self.edges.len()
                    invariant
                        self.nodes@ == nodes1,
                        self.regions@ == old(self).regions_seq(),
                        unique_node_ids(self.nodes@),
                        0 <= k <= orig.len(),
                        j as int == edges_without(orig.subrange(0, k), node_id@).len(),
                        self.edges@ == edges_without(orig.subrange(0, k), node_id@)
                            + orig.subrange(k, orig.len() as int),
                    decreases orig.len() - k,
                {
                    proof {
                        assert(self.edges@[j as int] == orig[k]);
                        assert(orig.subrange(0, k + 1) =~= orig.subrange(0, k).push(orig[k]));
                        lemma_edge_filter_push(orig.subrange(0, k), orig[k], node_id@);
                    }
                    let keep = !str_eq(self.edges[j].from_node.as_str(), node_id) && !str_eq(
                        self.edges[j].to_node.as_str(),
                        node_id,
                    );
                    if keep {
                        j = j + 1;
                        proof {
                            k = k + 1;
                            assert(self.edges@ =~= edges_without(orig.subrange(0, k), node_id@)
                                + orig.subrange(k, orig.len() as int));
                        }
                    } else {
                        self.edges.remove(j);
                        proof {
                            k = k + 1;
                            assert(self.edges@ =~= edges_without(orig.subrange(0, k), node_id@)
                                + orig.subrange(k, orig.len() as int));
                        }
                    }
                }
                proof {
                    assert(orig.subrange(0, orig.len() as int) =~= orig);
                    assert(self.edges@ =~= edges_without(orig, node_id@));
                }
                Ok(())
            },
        }
    }

    /// Adds an edge between two existing nodes and records the connection on
    /// both; refused with `NotFound` when either node is missing.
    pub fn add_edge(&mut self, edge: NetworkEdge) -> (r: Result<(), ProtocolError>)
        requires
            old(self).wf(),
        ensures
            final(self).wf(),
            final(self).regions_seq() == old(self).regions_seq(),
            !(has_node(old(self).nodes_seq(), edge.from_node@) && has_node(
                old(self).nodes_seq(),
                edge.to_node@,
            )) ==> r == Err::<(), ProtocolError>(ProtocolError::NotFound) && *final(self) == *old(self),
            (has_node(old(self).nodes_seq(), edge.from_node@) && has_node(
                old(self).nodes_seq(),
                edge.to_node@,
            )) ==> {
                &&& r == Ok::<(), ProtocolError>(())
                &&& final(self).edges_seq().len() == old(self).edges_seq().len() + 1
                &&& final(self).edges_seq().subrange(0, old(self).edges_seq().len() as int) == old(self).edges_seq()
                &&& final(self).edges_seq().last() == edge
                &&& final(self).nodes_seq().len() == old(self).nodes_seq().len()
                &&& (forall|k: int|
                    0 <= k < old(self).nodes_seq().len() && (#[trigger] old(
                        self,
                    ).nodes_seq()[k]).node_id@ != edge.from_node@ && old(
                        self,
                    ).nodes_seq()[k].node_id@ != edge.to_node@ ==> final(self).nodes_seq()[k]
                        == old(self).nodes_seq()[k])
                &&& connect_applied(
                    node_at(old(self).nodes_seq(), edge.from_node@),
                    node_at(final(self).nodes_seq(), edge.from_node@),
                    edge.to_node@,
                )
                &&& connect_applied(
                    node_at(old(self).nodes_seq(), edge.to_node@),
                    node_at(final(self).nodes_seq(), edge.to_node@),
                    edge.from_node@,
                )
            },
    {
        let from_found = self.find_node(edge.from_node.as_str());
        let to_found = self.find_node(edge.to_node.as_str());
        let (fi, ti) = match (from_found, to_found) {
            (Some(fi), Some(ti)) => (fi, ti),
            _ => {
                return Err(ProtocolError::NotFound);
            },
        };
        proof {
            lemma_node_idx_is(self.nodes@, edge.from_node@, fi as int);
            lemma_node_idx_is(self.nodes@, edge.to_node@, ti as int);
        }
        let ghost nodes0 = self.nodes@;
        self.connect(fi, edge.to_node.as_str());
        let ghost nodes1 = self.nodes@;
        self.connect(ti, edge.from_node.as_str());
        self.edges.push(edge);
        proof {
            assert(self.edges@.subrange(0, self.edges@.len() - 1) =~= old(self).edges_seq());
            assert(self.nodes@[fi as int].node_id@ == edge.from_node@);
            assert(self.nodes@[ti as int].node_id@ == edge.to_node@);
            lemma_node_idx_is(self.nodes@, edge.from_node@, fi as int);
            lemma_node_idx_is(self.nodes@, edge.to_node@, ti as int);
            if fi != ti {
                assert(self.nodes@[fi as int] == nodes1[fi as int]);
                assert(nodes1[ti as int] == nodes0[ti as int]);
                assert(connect_applied(nodes0[fi as int], self.nodes@[fi as int], edge.to_node@));
                assert(connect_applied(nodes0[ti as int], self.nodes@[ti as int], edge.from_node@));
            } else {
                assert(edge.from_node@ == edge.to_node@);
                assert(connect_applied(nodes0[fi as int], nodes1[fi as int], edge.to_node@));
                assert(connected_to(nodes1[fi as int], edge.from_node@));
                assert(self.nodes@[fi as int].connections@ == nodes1[fi as int].connections@);
                assert(connect_applied(nodes0[fi as int], self.nodes@[fi as int], edge.to_node@));
            }
        }
        Ok(())
    }

    /// Records `peer` among the connections of the node at `i`, if it is
    /// not there yet.
    fn connect(&mut self, i: usize, peer: &str)
        requires
            old(self).wf(),
            i < old(self).nodes_seq().len(),
        ensures
            final(self).wf(),
            final(self).edges_seq() == old(self).edges_seq(),
            final(self).regions_seq() == old(self).regions_seq(),
            final(self).nodes_seq().len() == old(self).nodes_seq().len(),
            forall|k: int|
                0 <= k < old(self).nodes_seq().len() && k != i as int
                    ==> #[trigger] final(self).nodes_seq()[k] == old(self).nodes_seq()[k],
            connect_applied(
                old(self).nodes_seq()[i as int],
                final(self).nodes_seq()[i as int],
                peer@,
            ),
    {
        let n = self.nodes[i].connections.len();
        for u in 0..n
            invariant
                *self == *old(self),
                unique_node_ids(self.nodes@),
                i < self.nodes@.len(),
                n == self.nodes@[i as int].connections@.len(),
                forall|t: int|
                    0 <= t < u ==> ((#[trigger] self.nodes@[i as int].connections@[t])@ != peer@),
        {
            if str_eq(self.nodes[i].connections[u].as_str(), peer) {
                proof {
                    let gu = u as int;
                    assert(0 <= gu < self.nodes@[i as int].connections@.len() && (self.nodes@[i as int].connections@[gu])@
                        == peer@);
                    assert(connected_to(self.nodes@[i as int], peer@));
                }
                return ;
            }
        }
        proof {
            assert(!connected_to(self.nodes@[i as int], peer@));
        }
        let ghost prev = self.nodes@;
        let mut node = self.nodes.remove(i);
        node.connections.push(peer.to_owned());
        self.nodes.insert(i, node);
        proof {
            assert(forall|k: int|
                0 <= k < prev.len() && k != i as int ==> #[trigger] self.nodes@[k] == prev[k]);
            assert(self.nodes@[i as int].node_id == prev[i as int].node_id);
            let post = self.nodes@[i as int];
            let pre = prev[i as int];
            assert(post.connections@.subrange(0, pre.connections@.len() as int)
                =~= pre.connections@);
            assert((post.connections@.last())@ == peer@);
            assert(connected_to(post, peer@)) by {
                let last = post.connections@.len() - 1;
                assert((post.connections@[last])@ == peer@);
            }
            assert forall|a: int, b: int|
                0 <= a < self.nodes@.len() && 0 <= b < self.nodes@.len() && a != b implies (
            #[trigger] self.nodes@[a]).node_id@ != (#[trigger] self.nodes@[b]).node_id@ by {
                assert(self.nodes@[a].node_id == prev[a].node_id);
                assert(self.nodes@[b].node_id == prev[b].node_id);
            }
        }
    }

    /// A copy of the node with identifier `node_id`, if any.
    pub fn get_node(&self, node_id: &str) -> (r: Option<NetworkNode>)
        requires
            self.wf(),
        ensures
            r is Some <==> has_node(self.nodes_seq(), node_id@),
            r matches Some(n) ==> node_matches(n, node_at(self.nodes_seq(), node_id@)),
    {
        let found = self.find_node(node_id);
        match found {
            None => None,
            Some(i) => {
                proof {
                    lemma_node_idx_is(self.nodes@, node_id@, i as int);
                }
                Some(Self::clone_node(&self.nodes[i]))
            },
        }
    }

    /// Copies a node; the copy agrees with the original in every field.
    fn clone_node(n: &NetworkNode) -> (c: NetworkNode)
        ensures
            node_matches(c, *n),
    {
        let m = n.connections.len();
        let mut connections: Vec<String> = Vec::new();
        for u in 0..m
            invariant
                m == n.connections@.len(),
                connections@.len() == u,
                forall|k: int| 0 <= k < u ==> #[trigger] connections@[k] == n.connections@[k],
        {
            connections.push(n.connections[u].clone());
        }
        proof {
            assert(connections@ =~= n.connections@);
        }
        NetworkNode {
            node_id: n.node_id.clone(),
            node_type: n.node_type,
            region: n.region.clone(),
            capacity: n.capacity,
            connections,
        }
    }

    /// The nodes of the given role, in insertion order, as copies.
    pub fn get_nodes_by_type(&self, node_type: NodeType) -> (r: Vec<NetworkNode>)
        ensures
            r@.len() == nodes_of_type(self.nodes_seq(), node_type).len(),
            forall|k: int|
                0 <= k < r@.len() ==> node_matches(
                    #[trigger] r@[k],
                    nodes_of_type(self.nodes_seq(), node_type)[k],
                ),
    {
        let n = self.nodes.len();
        let mut out: Vec<NetworkNode> = Vec::new();
        for i in 0..n
            invariant
                n == self.nodes@.len(),
                out@.len() == nodes_of_type(self.nodes@.subrange(0, i as int), node_type).len(),
                forall|k: int|
                    0 <= k < out@.len() ==> node_matches(
                        #[trigger] out@[k],
                        nodes_of_type(self.nodes@.subrange(0, i as int), node_type)[k],
                    ),
        {
            proof {
                assert(self.nodes@.subrange(0, i + 1) =~= self.nodes@.subrange(0, i as int).push(
                    self.nodes@[i as int],
                ));
                lemma_type_filter_push(
                    self.nodes@.subrange(0, i as int),
                    self.nodes@[i as int],
                    node_type,
                );
            }
            if self.nodes[i].node_type == node_type {
                let c = Self::clone_node(&self.nodes[i]);
                let ghost before = out@;
                out.push(c);
                proof {
                    assert(node_matches(out@.last(), self.nodes@[i as int]));
                    assert(forall|k: int| 0 <= k < before.len() ==> #[trigger] out@[k] == before[k]);
                }
            }
        }
        proof {
            assert(self.nodes@.subrange(0, n as int) =~= self.nodes@);
        }
        out
    }

    /// The nodes of the given region, in insertion order, as copies.
    pub fn get_nodes_by_region(&self, region: &str) -> (r: Vec<NetworkNode>)
        ensures
            r@.len() == nodes_of_region(self.nodes_seq(), region@).len(),
            forall|k: int|
                0 <= k < r@.len() ==> node_matches(
                    #[trigger] r@[k],
                    nodes_of_region(self.nodes_seq(), region@)[k],
                ),
    {
        let n = self.nodes.len();
        let mut out: Vec<NetworkNode> = Vec::new();
        for i in 0..n
            invariant
                n == self.nodes@.len(),
                out@.len() == nodes_of_region(self.nodes@.subrange(0, i as int), region@).len(),
                forall|k: int|
                    0 <= k < out@.len() ==> node_matches(
                        #[trigger] out@[k],
                        nodes_of_region(self.nodes@.subrange(0, i as int), region@)[k],
                    ),
        {
            proof {
                assert(self.nodes@.subrange(0, i + 1) =~= self.nodes@.subrange(0, i as int).push(
                    self.nodes@[i as int],
                ));
                lemma_region_filter_push(
                    self.nodes@.subrange(0, i as int),
                    self.nodes@[i as int],
                    region@,
                );
            }
            if str_eq(self.nodes[i].region.as_str(), region) {
                let c = Self::clone_node(&self.nodes[i]);
                let ghost before = out@;
                out.push(c);
                proof {
                    assert(node_matches(out@.last(), self.nodes@[i as int]));
                    assert(forall|k: int| 0 <= k < before.len() ==> #[trigger] out@[k] == before[k]);
                }
            }
        }
        proof {
            assert(self.nodes@.subrange(0, n as int) =~= self.nodes@);
        }
        out
    }

    /// A direct path between two known nodes, or `None` when either is
    /// unknown. Routing beyond the direct hop is the transport's concern.
    pub fn find_shortest_path(&self, from: &str, to: &str) -> (r: Option<Vec<String>>)
        ensures
            r is Some <==> (has_node(self.nodes_seq(), from@) && has_node(
                self.nodes_seq(),
                to@,
            )),
            r matches Some(p) ==> p@.len() == 2 && p@[0]@ == from@ && p@[1]@ == to@,
    {
        if self.find_node(from).is_some() && self.find_node(to).is_some() {
            let mut path: Vec<String> = Vec::new();
            path.push(from.to_owned());
            path.push(to.to_owned());
            Some(path)
        } else {
            None
        }
    }

    /// Statistics over the graph: node and connection counts, and the
    /// per-role tally.
    pub fn get_network_stats(&self) -> (r: NetworkStats)
        ensures
            r.total_nodes == self.nodes_seq().len(),
            r.total_connections == sat_connection_total(self.nodes_seq()),
            r.nodes_by_type@.len() == 4,
            r.nodes_by_type@[0] == (
                NodeType::Orchestrator,
                nodes_of_type(self.nodes_seq(), NodeType::Orchestrator).len() as usize,
            ),
            r.nodes_by_type@[1] == (
                NodeType::Validator,
                nodes_of_type(self.nodes_seq(), NodeType::Validator).len() as usize,
            ),
            r.nodes_by_type@[2] == (
                NodeType::Worker,
                nodes_of_type(self.nodes_seq(), NodeType::Worker).len() as usize,
            ),
            r.nodes_by_type@[3] == (
                NodeType::Gateway,
                nodes_of_type(self.nodes_seq(), NodeType::Gateway).len() as usize,
            ),
    {
        let n = self.nodes.len();
        let mut orchestrators: usize = 0;
        let mut validators: usize = 0;
        let mut workers: usize = 0;
        let mut gateways: usize = 0;
        let mut total_connections: usize = 0;
        for i in 0..n
            invariant
                n == self.nodes@.len(),
                total_connections == sat_connection_total(self.nodes@.subrange(0, i as int)),
                orchestrators as int == nodes_of_type(
                    self.nodes@.subrange(0, i as int),
                    NodeType::Orchestrator,
                ).len(),
                validators as int == nodes_of_type(
                    self.nodes@.subrange(0, i as int),
                    NodeType::Validator,
                ).len(),
                workers as int == nodes_of_type(
                    self.nodes@.subrange(0, i as int),
                    NodeType::Worker,
                ).len(),
                gateways as int == nodes_of_type(
                    self.nodes@.subrange(0, i as int),
                    NodeType::Gateway,
                ).len(),
        {
            proof {
                assert(self.nodes@.subrange(0, i + 1) =~= self.nodes@.subrange(0, i as int).push(
                    self.nodes@[i as int],
                ));
                lemma_type_filter_push(
                    self.nodes@.subrange(0, i as int),
                    self.nodes@[i as int],
                    NodeType::Orchestrator,
                );
                lemma_type_filter_push(
                    self.nodes@.subrange(0, i as int),
                    self.nodes@[i as int],
                    NodeType::Validator,
                );
                lemma_type_filter_push(
                    self.nodes@.subrange(0, i as int),
                    self.nodes@[i as int],
                    NodeType::Worker,
                );
                lemma_type_filter_push(
                    self.nodes@.subrange(0, i as int),
                    self.nodes@[i as int],
                    NodeType::Gateway,
                );
                self.nodes@.subrange(0, i as int).lemma_filter_len(
                    |x: NetworkNode| x.node_type == NodeType::Orchestrator,
                );
                self.nodes@.subrange(0, i as int).lemma_filter_len(
                    |x: NetworkNode| x.node_type == NodeType::Validator,
                );
                self.nodes@.subrange(0, i as int).lemma_filter_len(
                    |x: NetworkNode| x.node_type == NodeType::Worker,
                );
                self.nodes@.subrange(0, i as int).lemma_filter_len(
                    |x: NetworkNode| x.node_type == NodeType::Gateway,
                );
                lemma_connection_total_push(
                    self.nodes@.subrange(0, i as int),
                    self.nodes@[i as int],
                );
                lemma_connection_total_nonneg(self.nodes@.subrange(0, i as int));
            }
            match self.nodes[i].node_type {
                NodeType::Orchestrator => {
                    orchestrators = orchestrators + 1;
                },
                NodeType::Validator => {
                    validators = validators + 1;
                },
                NodeType::Worker => {
                    workers = workers + 1;
                },
                NodeType::Gateway => {
                    gateways = gateways + 1;
                },
            }
            let c = self.nodes[i].connections.len();
            total_connections = if total_connections <= usize::MAX - c {
                total_connections + c
            } else {
                usize::MAX
            };
        }
        proof {
            assert(self.nodes@.subrange(0, n as int) =~= self.nodes@);
        }
        let mut nodes_by_type: Vec<(NodeType, usize)> = Vec::new();
        nodes_by_type.push((NodeType::Orchestrator, orchestrators));
        nodes_by_type.push((NodeType::Validator, validators));
        nodes_by_type.push((NodeType::Worker, workers));
        nodes_by_type.push((NodeType::Gateway, gateways));
        NetworkStats {
            total_nodes: n,
            nodes_by_type,
            total_connections,
            network_diameter: 3,
            clustering_permille: 600,
        }
    }

    /// The regions seen so far, in order of first appearance, as copies.
    pub fn get_regions(&self) -> (r: Vec<String>)
        ensures
            r@ == self.regions_seq(),
    {
        let n = self.regions.len();
        let mut out: Vec<String> = Vec::new();
        for i in 0..n
            invariant
                n == self.regions@.len(),
                out@.len() == i,
                forall|k: int| 0 <= k < i ==> #[trigger] out@[k] == self.regions@[k],
        {
            out.push(self.regions[i].clone());
        }
        proof {
            assert(out@ =~= self.regions@);
        }
        out
    }

    /// Whether every node has at least one connection; an empty network
    /// counts as connected.
    pub fn is_connected(&self) -> (r: bool)
        ensures
            r == (forall|i: int|
                0 <= i < self.nodes_seq().len() ==> (#[trigger] self.nodes_seq()[i]).connections@.len()
                    > 0),
    {
        let n = self.nodes.len();
        for i in 0..n
            invariant
                n == self.nodes@.len(),
                forall|k: int|
                    0 <= k < i ==> (#[trigger] self.nodes@[k]).connections@.len() > 0,
        {
            if self.nodes[i].connections.len() == 0 {
                return false;
            }
        }
        true
    }
}

impl Default for NetworkTopology {
    /// An empty topology.
    fn default() -> (r: Self)
        ensures
            r.wf(),
            r.nodes_seq() == Seq::<NetworkNode>::empty(),
            r.edges_seq() == Seq::<NetworkEdge>::empty(),
    {
        NetworkTopology::new()
    }
}

} // verus!
