//! The cluster controller: the available/unavailable node maps, the
//! event handler that mutates them on server-pushed topology and status
//! events, and the facade that dispatches operations to the currently
//! selected node.

use vstd::prelude::*;

use crate::def::{
    Consistency, CqlEvent, CqlIpAddr, CqlResponse, CqlResponseBody, CqlSocketAddr, CqlValue,
    BatchType, Query, StatusChangeType, TopologyChangeType, ValueV,
    rows_seq_model, RequestV, RequestBodyV, OpcodeRequest,
};
use crate::error::{RCError, RCErrorType, RCResult};
use crate::node::{Node, spec_query_request};
use crate::serialize::{request_encodable, spec_encode_request};

verus! {

/// Finds the entry index of a key in a node map.
pub open spec fn spec_key_index(s: Seq<(CqlIpAddr, Node)>, ip: CqlIpAddr) -> Option<int>
    decreases s.len(),
{
    if s.len() == 0 {
        None
    } else if s[0].0 == ip {
        Some(0)
    } else {
        match spec_key_index(s.drop_first(), ip) {
            Some(i) => Some(i + 1),
            None => None,
        }
    }
}

/// A found index lies in range, carries the key, and is the first such.
pub proof fn lemma_key_index_props(s: Seq<(CqlIpAddr, Node)>, ip: CqlIpAddr)
    ensures
        (match spec_key_index(s, ip) {
            Some(i) => 0 <= i < s.len() && s[i].0 == ip && (forall|j: int|
                0 <= j < i ==> (#[trigger] s[j]).0 != ip),
            None => forall|j: int| 0 <= j < s.len() ==> (#[trigger] s[j]).0 != ip,
        }),
    decreases s.len(),
{
    if s.len() > 0 && s[0].0 != ip {
        lemma_key_index_props(s.drop_first(), ip);
        match spec_key_index(s.drop_first(), ip) {
            Some(i) => {
                assert forall|j: int| 0 <= j < i + 1 implies (#[trigger] s[j]).0 != ip by {
                    if j > 0 {
                        assert(s.drop_first()[j - 1] == s[j]);
                    }
                }
                assert(s.drop_first()[i] == s[i + 1]);
            },
            None => {
                assert forall|j: int| 0 <= j < s.len() implies (#[trigger] s[j]).0 != ip by {
                    if j > 0 {
                        assert(s.drop_first()[j - 1] == s[j]);
                    }
                }
            },
        }
    }
}

/// A witness for the first entry of a key pins the found index.
pub proof fn lemma_key_index_from_witness(s: Seq<(CqlIpAddr, Node)>, ip: CqlIpAddr, i: int)
    requires
        0 <= i < s.len(),
        s[i].0 == ip,
        forall|j: int| 0 <= j < i ==> (#[trigger] s[j]).0 != ip,
    ensures
        spec_key_index(s, ip) == Some(i),
    decreases s.len(),
{
    if i > 0 {
        assert forall|j: int| 0 <= j < i - 1 implies (#[trigger] s.drop_first()[j]).0 != ip by {
            assert(s.drop_first()[j] == s[j + 1]);
        }
        assert(s.drop_first()[i - 1] == s[i]);
        lemma_key_index_from_witness(s.drop_first(), ip, i - 1);
    }
}

/// A map from addresses to nodes, with unique keys.
pub struct NodeMap {
    pub entries: Vec<(CqlIpAddr, Node)>,
}

impl NodeMap {
    /// The keys, in entry order.
    pub open spec fn spec_keys(&self) -> Seq<CqlIpAddr> {
        Seq::new(self.entries@.len(), |i: int| self.entries@[i].0)
    }

    /// Whether an address is mapped.
    pub open spec fn spec_contains(&self, ip: CqlIpAddr) -> bool {
        self.spec_keys().contains(ip)
    }

    /// The node mapped to an address, if any.
    pub open spec fn spec_node_of(&self, ip: CqlIpAddr) -> Option<Node> {
        match spec_key_index(self.entries@, ip) {
            Some(i) => Some(self.entries@[i].1),
            None => None,
        }
    }

    /// Keys never repeat.
    pub open spec fn wf(&self) -> bool {
        self.spec_keys().no_duplicates()
    }

    /// An empty map.
    pub fn new() -> (r: NodeMap)
        ensures
            r.wf(),
            r.spec_keys().len() == 0,
            forall|ip: CqlIpAddr| !r.spec_contains(ip),
    {
        let entries: Vec<(CqlIpAddr, Node)> = Vec::new();
        let r = NodeMap { entries };
        proof {
            assert(r.spec_keys() =~= Seq::<CqlIpAddr>::empty());
            assert forall|ip: CqlIpAddr| !r.spec_contains(ip) by {
                if r.spec_keys().contains(ip) {
                    let j = choose|j: int|
                        0 <= j < r.spec_keys().len() && r.spec_keys()[j] == ip;
                }
            }
        }
        r
    }

    /// How many nodes are mapped.
    pub fn len(&self) -> (r: usize)
        ensures
            r == self.spec_keys().len(),
    {
        self.entries.len()
    }

    /// The key of the entry at an index.
    pub fn key_at(&self, i: usize) -> (r: CqlIpAddr)
        requires
            i < self.spec_keys().len(),
        ensures
            r == self.spec_keys()[i as int],
    {
        self.entries[i].0
    }

    /// The address of the node at an index.
    pub fn addr_at(&self, i: usize) -> (r: CqlSocketAddr)
        requires
            i < self.entries@.len(),
        ensures
            r == self.entries@[i as int].1.addr,
    {
        self.entries[i].1.addr
    }

    /// Whether an address is mapped.
    pub fn contains_key(&self, ip: CqlIpAddr) -> (r: bool)
        ensures
            r == self.spec_contains(ip),
    {
        let mut i: usize = 0;
        while i < self.entries.len()
            invariant
                i <= self.entries@.len(),
                forall|j: int| 0 <= j < i ==> self.spec_keys()[j] != ip,
            decreases self.entries@.len() - i,
        {
            if self.entries[i].0 == ip {
                proof {
                    assert(self.spec_keys()[i as int] == ip);
                }
                return true;
            }
            i += 1;
        }
        proof {
            if self.spec_keys().contains(ip) {
                let j = choose|j: int| 0 <= j < self.spec_keys().len() && self.spec_keys()[j] == ip;
            }
        }
        false
    }

    /// The node mapped to an address.
    pub fn get(&self, ip: CqlIpAddr) -> (r: Option<&Node>)
        ensures
            (match self.spec_node_of(ip) {
                Some(n) => r matches Some(node) && *node == n,
                None => r is None,
            }),
    {
        let ghost s = self.entries@;
        let n = self.entries.len();
        let mut i: usize = 0;
        proof {
            assert(s.skip(0) =~= s);
        }
        while i < n
            invariant
                s == self.entries@,
                n == s.len(),
                i <= n,
                spec_key_index(s, ip) == (match spec_key_index(s.skip(i as int), ip) {
                    Some(j) => Some(j + i as int),
                    None => None::<int>,
                }),
            decreases n - i,
        {
            proof {
                assert(s.skip(i as int).len() == n - i);
                assert(s.skip(i as int)[0] == s[i as int]);
            }
            if self.entries[i].0 == ip {
                return Some(&self.entries[i].1);
            }
            i += 1;
            proof {
                assert(s.skip(i - 1).drop_first() =~= s.skip(i as int));
            }
        }
        proof {
            assert(s.skip(n as int) =~= Seq::<(CqlIpAddr, Node)>::empty());
        }
        None
    }

    /// Removes the node mapped to an address, if any; every other
    /// address keeps resolving to the very node it resolved to before.
    pub fn remove(&mut self, ip: CqlIpAddr) -> (r: Option<Node>)
        requires
            old(self).wf(),
        ensures
            final(self).wf(),
            !final(self).spec_contains(ip),
            (r is Some) == old(self).spec_contains(ip),
            r == old(self).spec_node_of(ip),
            final(self).spec_node_of(ip) is None,
            forall|x: CqlIpAddr| x != ip ==> final(self).spec_contains(x) == old(self).spec_contains(x),
            forall|x: CqlIpAddr|
                x != ip ==> #[trigger] final(self).spec_node_of(x) == old(self).spec_node_of(x),
            !old(self).spec_contains(ip) ==> *final(self) == *old(self),
    {
        let mut i: usize = 0;
        while i < self.entries.len()
            invariant
                self.wf(),
                *self == *old(self),
                i <= self.entries@.len(),
                forall|j: int| 0 <= j < i ==> self.spec_keys()[j] != ip,
            decreases self.entries@.len() - i,
        {
            if self.entries[i].0 == ip {
                proof {
                    assert(old(self).spec_keys()[i as int] == ip);
                    assert(old(self).spec_contains(ip));
                    assert forall|j: int|
                        0 <= j < i implies (#[trigger] old(self).entries@[j]).0 != ip by {
                        assert(old(self).spec_keys()[j] == old(self).entries@[j].0);
                    }
                    lemma_key_index_from_witness(old(self).entries@, ip, i as int);
                }
                let node = self.entries.remove(i);
                proof {
                    let before = old(self).spec_keys();
                    let after = self.spec_keys();
                    let be = old(self).entries@;
                    let ae = self.entries@;
                    assert(ae =~= be.subrange(0, i as int) + be.subrange(
                        i + 1,
                        be.len() as int,
                    ));
                    assert(after =~= before.subrange(0, i as int) + before.subrange(
                        i + 1,
                        before.len() as int,
                    ));
                    assert(!after.contains(ip)) by {
                        if after.contains(ip) {
                            let k = choose|k: int| 0 <= k < after.len() && after[k] == ip;
                            if k < i {
                                assert(before[k] == ip);
                            } else {
                                assert(before[k + 1] == ip);
                            }
                        }
                    }
                    assert forall|x: CqlIpAddr| x != ip implies after.contains(x)
                        == before.contains(x) by {
                        if after.contains(x) {
                            let k = choose|k: int| 0 <= k < after.len() && after[k] == x;
                            if k < i {
                                assert(before[k] == x);
                            } else {
                                assert(before[k + 1] == x);
                            }
                        }
                        if before.contains(x) {
                            let k = choose|k: int| 0 <= k < before.len() && before[k] == x;
                            if k < i {
                                assert(after[k] == x);
                            } else {
                                assert(before[i as int] == ip);
                                assert(k != i);
                                assert(after[k - 1] == x);
                            }
                        }
                    }
                    assert(after.no_duplicates()) by {
                        assert forall|m: int, n2: int|
                            0 <= m < n2 < after.len() implies after[m] != after[n2] by {
                            if n2 < i {
                                assert(after[m] == before[m] && after[n2] == before[n2]);
                            } else if m < i {
                                assert(after[m] == before[m] && after[n2] == before[n2 + 1]);
                            } else {
                                assert(after[m] == before[m + 1] && after[n2] == before[n2 + 1]);
                            }
                        }
                    }
                    assert(self.spec_node_of(ip) is None) by {
                        lemma_key_index_props(ae, ip);
                        match spec_key_index(ae, ip) {
                            Some(m) => {
                                assert(after[m] == ae[m].0);
                                assert(after.contains(ip));
                            },
                            None => {},
                        }
                    }
                    assert forall|x: CqlIpAddr|
                        x != ip implies #[trigger] self.spec_node_of(x) == old(self).spec_node_of(
                        x,
                    ) by {
                        lemma_key_index_props(be, x);
                        match spec_key_index(be, x) {
                            Some(k) => {
                                assert(be[k].0 == x);
                                assert(k != i);
                                if k < i {
                                    assert(ae[k] == be[k]);
                                    assert forall|j: int|
                                        0 <= j < k implies (#[trigger] ae[j]).0 != x by {
                                        assert(ae[j] == be[j]);
                                    }
                                    lemma_key_index_from_witness(ae, x, k);
                                } else {
                                    assert(ae[k - 1] == be[k]);
                                    assert forall|j: int|
                                        0 <= j < k - 1 implies (#[trigger] ae[j]).0 != x by {
                                        if j < i {
                                            assert(ae[j] == be[j]);
                                        } else {
                                            assert(ae[j] == be[j + 1]);
                                        }
                                    }
                                    lemma_key_index_from_witness(ae, x, k - 1);
                                }
                            },
                            None => {
                                lemma_key_index_props(ae, x);
                                match spec_key_index(ae, x) {
                                    Some(m) => {
                                        if m < i {
                                            assert(ae[m] == be[m]);
                                        } else {
                                            assert(ae[m] == be[m + 1]);
                                        }
                                    },
                                    None => {},
                                }
                            },
                        }
                    }
                }
                return Some(node.1);
            }
            i += 1;
        }
        proof {
            if old(self).spec_keys().contains(ip) {
                let j = choose|j: int|
                    0 <= j < old(self).spec_keys().len() && old(self).spec_keys()[j] == ip;
            }
            assert(old(self).spec_node_of(ip) is None) by {
                lemma_key_index_props(old(self).entries@, ip);
                match spec_key_index(old(self).entries@, ip) {
                    Some(m) => {
                        assert(old(self).spec_keys()[m] == old(self).entries@[m].0);
                        assert(old(self).spec_keys().contains(ip));
                    },
                    None => {},
                }
            }
        }
        None
    }

    /// Maps an address to a node, replacing any previous entry for it;
    /// the address now resolves to exactly this node, and every other
    /// address resolves as before.
    pub fn insert(&mut self, ip: CqlIpAddr, node: Node)
        requires
            old(self).wf(),
        ensures
            final(self).wf(),
            final(self).spec_contains(ip),
            final(self).spec_node_of(ip) == Some(node),
            forall|x: CqlIpAddr| x != ip ==> final(self).spec_contains(x) == old(self).spec_contains(x),
            forall|x: CqlIpAddr|
                x != ip ==> #[trigger] final(self).spec_node_of(x) == old(self).spec_node_of(x),
    {
        let _ = self.remove(ip);
        let ghost mid = *self;
        self.entries.push((ip, node));
        proof {
            let me = mid.entries@;
            let ae = self.entries@;
            let after = self.spec_keys();
            assert(ae =~= me.push((ip, node)));
            assert(after =~= mid.spec_keys().push(ip));
            vstd::seq_lib::lemma_seq_contains_after_push(mid.spec_keys(), ip, ip);
            assert forall|x: CqlIpAddr| x != ip implies after.contains(x) == mid.spec_keys().contains(
                x,
            ) by {
                vstd::seq_lib::lemma_seq_contains_after_push(mid.spec_keys(), ip, x);
            }
            assert(after.no_duplicates()) by {
                assert forall|m: int, n2: int|
                    0 <= m < n2 < after.len() implies after[m] != after[n2] by {
                    if n2 == after.len() - 1 {
                        assert(mid.spec_keys().contains(mid.spec_keys()[m]));
                    }
                }
            }
            assert forall|j: int| 0 <= j < me.len() implies (#[trigger] me[j]).0 != ip by {
                assert(mid.spec_keys()[j] == me[j].0);
                assert(mid.spec_keys().contains(me[j].0)) by {
                    assert(mid.spec_keys()[j] == me[j].0);
                }
            }
            assert(self.spec_node_of(ip) == Some(node)) by {
                assert forall|j: int| 0 <= j < me.len() implies (#[trigger] ae[j]).0 != ip by {
                    assert(ae[j] == me[j]);
                }
                assert(ae[me.len() as int] == (ip, node));
                lemma_key_index_from_witness(ae, ip, me.len() as int);
            }
            assert forall|x: CqlIpAddr|
                x != ip implies #[trigger] self.spec_node_of(x) == mid.spec_node_of(x) by {
                lemma_key_index_props(me, x);
                match spec_key_index(me, x) {
                    Some(k) => {
                        assert(ae[k] == me[k]);
                        assert forall|j: int| 0 <= j < k implies (#[trigger] ae[j]).0 != x by {
                            assert(ae[j] == me[j]);
                        }
                        lemma_key_index_from_witness(ae, x, k);
                    },
                    None => {
                        lemma_key_index_props(ae, x);
                        match spec_key_index(ae, x) {
                            Some(m) => {
                                if m < me.len() {
                                    assert(ae[m] == me[m]);
                                } else {
                                    assert(ae[m] == (ip, node));
                                }
                            },
                            None => {},
                        }
                    },
                }
            }
        }
    }

    /// The addresses of all mapped nodes, in entry order.
    pub fn addrs(&self) -> (r: Vec<CqlSocketAddr>)
        ensures
            r@.len() == self.entries@.len(),
            forall|i: int| 0 <= i < r@.len() ==> r@[i] == self.entries@[i].1.addr,
    {
        let mut out: Vec<CqlSocketAddr> = Vec::new();
        let mut i: usize = 0;
        while i < self.entries.len()
            invariant
                i <= self.entries@.len(),
                out@.len() == i,
                forall|j: int| 0 <= j < i ==> out@[j] == self.entries@[j].1.addr,
            decreases self.entries@.len() - i,
        {
            out.push(self.addr_at(i));
            i += 1;
        }
        out
    }
}

/// True of a node freshly created for an address.
pub open spec fn fresh_node_for(n: Node, a: CqlSocketAddr) -> bool {
    n.addr == a && n.version == 3 && n.prepared@.len() == 0
}

/// Every address other than `ip` is a member of, and resolves in, both
/// maps exactly as before.
pub open spec fn others_unchanged(post: EventHandler, pre: EventHandler, ip: CqlIpAddr) -> bool {
    forall|x: CqlIpAddr|
        x != ip ==> (#[trigger] post.available_nodes.spec_node_of(x)
            == pre.available_nodes.spec_node_of(x) && post.unavailable_nodes.spec_node_of(x)
            == pre.unavailable_nodes.spec_node_of(x) && post.available_nodes.spec_contains(x)
            == pre.available_nodes.spec_contains(x) && post.unavailable_nodes.spec_contains(x)
            == pre.unavailable_nodes.spec_contains(x))
}

/// The event handler's state: every known node stands in exactly one of
/// the two maps.
pub struct EventHandler {
    pub available_nodes: NodeMap,
    pub unavailable_nodes: NodeMap,
}

impl EventHandler {
    /// Both maps are well formed and no address stands in both.
    pub open spec fn wf(&self) -> bool {
        self.available_nodes.wf() && self.unavailable_nodes.wf() && (forall|ip: CqlIpAddr|
            !(#[trigger] self.available_nodes.spec_contains(ip)
                && self.unavailable_nodes.spec_contains(ip)))
    }

    /// A handler with no known nodes.
    pub fn new() -> (r: EventHandler)
        ensures
            r.wf(),
            r.available_nodes.spec_keys().len() == 0,
            r.unavailable_nodes.spec_keys().len() == 0,
    {
        EventHandler { available_nodes: NodeMap::new(), unavailable_nodes: NodeMap::new() }
    }

    /// Marks a node available, withdrawing it from the unavailable map:
    /// its address now resolves to exactly this node, and every other
    /// address resolves as before in both maps.
    pub fn mark_available(&mut self, node: Node)
        requires
            old(self).wf(),
        ensures
            final(self).wf(),
            final(self).available_nodes.spec_contains(node.addr.ip),
            !final(self).unavailable_nodes.spec_contains(node.addr.ip),
            final(self).available_nodes.spec_node_of(node.addr.ip) == Some(node),
            final(self).unavailable_nodes.spec_node_of(node.addr.ip) is None,
            forall|x: CqlIpAddr| x != node.addr.ip ==> (final(self).available_nodes.spec_contains(x) == old(self).available_nodes.spec_contains(x)
                && final(self).unavailable_nodes.spec_contains(x) == old(self).unavailable_nodes.spec_contains(x)),
            forall|x: CqlIpAddr|
                x != node.addr.ip ==> (#[trigger] final(self).available_nodes.spec_node_of(x)
                    == old(self).available_nodes.spec_node_of(x) && final(self).unavailable_nodes.spec_node_of(x) == old(self).unavailable_nodes.spec_node_of(
                    x,
                )),
    {
        let ip = node.get_sock_addr().ip;
        let _ = self.unavailable_nodes.remove(ip);
        self.available_nodes.insert(ip, node);
    }

    /// Marks a node unavailable, withdrawing it from the available map:
    /// its address now resolves to exactly this node, and every other
    /// address resolves as before in both maps.
    pub fn mark_unavailable(&mut self, node: Node)
        requires
            old(self).wf(),
        ensures
            final(self).wf(),
            !final(self).available_nodes.spec_contains(node.addr.ip),
            final(self).unavailable_nodes.spec_contains(node.addr.ip),
            final(self).unavailable_nodes.spec_node_of(node.addr.ip) == Some(node),
            final(self).available_nodes.spec_node_of(node.addr.ip) is None,
            forall|x: CqlIpAddr| x != node.addr.ip ==> (final(self).available_nodes.spec_contains(x) == old(self).available_nodes.spec_contains(x)
                && final(self).unavailable_nodes.spec_contains(x) == old(self).unavailable_nodes.spec_contains(x)),
            forall|x: CqlIpAddr|
                x != node.addr.ip ==> (#[trigger] final(self).available_nodes.spec_node_of(x)
                    == old(self).available_nodes.spec_node_of(x) && final(self).unavailable_nodes.spec_node_of(x) == old(self).unavailable_nodes.spec_node_of(
                    x,
                )),
    {
        let ip = node.get_sock_addr().ip;
        let _ = self.available_nodes.remove(ip);
        self.unavailable_nodes.insert(ip, node);
    }

    /// Consumes one server-pushed event and mutates the membership maps:
    /// a new or moved node becomes available; a removed node leaves both
    /// maps; a node reported up moves (or enters) the available map; a
    /// node reported down moves to the unavailable map; schema changes
    /// and unknown events change nothing.
    #[verifier::rlimit(100)]
    #[verifier::spinoff_prover]
    pub fn notify(&mut self, msg: CqlEvent)
        requires
            old(self).wf(),
        ensures
            final(self).wf(),
            (match msg {
                CqlEvent::TopologyChange(ct, a) => {
                    if ct == TopologyChangeType::NewNode || ct == TopologyChangeType::MovedNode {
                        final(self).available_nodes.spec_contains(a.ip) && !final(self).unavailable_nodes.spec_contains(a.ip)
                            && (final(self).available_nodes.spec_node_of(a.ip) matches Some(n)
                            && fresh_node_for(n, a)) && final(self).unavailable_nodes.spec_node_of(a.ip) is None && others_unchanged(
                            *final(self),
                            *old(self),
                            a.ip,
                        )
                    } else if ct == TopologyChangeType::RemovedNode {
                        !final(self).available_nodes.spec_contains(a.ip) && !final(self).unavailable_nodes.spec_contains(a.ip)
                            && final(self).available_nodes.spec_node_of(a.ip) is None && final(self).unavailable_nodes.spec_node_of(a.ip) is None && others_unchanged(
                            *final(self),
                            *old(self),
                            a.ip,
                        )
                    } else {
                        *final(self) == *old(self)
                    }
                },
                CqlEvent::StatusChange(ct, a) => {
                    if ct == StatusChangeType::Up {
                        final(self).available_nodes.spec_contains(a.ip) && !final(self).unavailable_nodes.spec_contains(a.ip)
                            && (if old(self).unavailable_nodes.spec_contains(a.ip) {
                            final(self).available_nodes.spec_node_of(a.ip) == old(self).unavailable_nodes.spec_node_of(a.ip)
                        } else {
                            final(self).available_nodes.spec_node_of(a.ip) matches Some(n)
                                && fresh_node_for(n, a)
                        }) && final(self).unavailable_nodes.spec_node_of(a.ip) is None
                            && others_unchanged(*final(self), *old(self), a.ip)
                    } else if ct == StatusChangeType::Down {
                        if old(self).available_nodes.spec_contains(a.ip) {
                            !final(self).available_nodes.spec_contains(a.ip) && final(self).unavailable_nodes.spec_contains(a.ip)
                                && final(self).unavailable_nodes.spec_node_of(a.ip) == old(self).available_nodes.spec_node_of(a.ip) && final(self).available_nodes.spec_node_of(a.ip) is None && others_unchanged(
                                *final(self),
                                *old(self),
                                a.ip,
                            )
                        } else {
                            *final(self) == *old(self)
                        }
                    } else {
                        *final(self) == *old(self)
                    }
                },
                CqlEvent::SchemaChange(_, _) => *final(self) == *old(self),
                CqlEvent::UnknownEvent => *final(self) == *old(self),
            }),
    {
        match msg {
            CqlEvent::TopologyChange(ct, addr) => {
                match ct {
                    TopologyChangeType::NewNode => {
                        self.mark_available(Node::new(addr));
                    },
                    TopologyChangeType::MovedNode => {
                        self.mark_available(Node::new(addr));
                    },
                    TopologyChangeType::RemovedNode => {
                        let _ = self.available_nodes.remove(addr.ip);
                        let _ = self.unavailable_nodes.remove(addr.ip);
                    },
                    TopologyChangeType::Unknown => {},
                }
            },
            CqlEvent::StatusChange(ct, addr) => {
                match ct {
                    StatusChangeType::Up => {
                        let moved = self.unavailable_nodes.remove(addr.ip);
                        match moved {
                            Some(node) => {
                                self.available_nodes.insert(addr.ip, node);
                            },
                            None => {
                                self.available_nodes.insert(addr.ip, Node::new(addr));
                            },
                        }
                    },
                    StatusChangeType::Down => {
                        let moved = self.available_nodes.remove(addr.ip);
                        match moved {
                            Some(node) => {
                                self.unavailable_nodes.insert(addr.ip, node);
                            },
                            None => {},
                        }
                    },
                    StatusChangeType::UnknownStatus => {},
                }
            },
            CqlEvent::SchemaChange(_, _) => {},
            CqlEvent::UnknownEvent => {},
        }
    }

    /// A read-only enumeration of both maps, for operators: one address
    /// per mapped node, in entry order.
    pub fn show_cluster_information(&self) -> (r: (Vec<CqlSocketAddr>, Vec<CqlSocketAddr>))
        ensures
            r.0@.len() == self.available_nodes.entries@.len(),
            r.1@.len() == self.unavailable_nodes.entries@.len(),
            forall|i: int|
                0 <= i < r.0@.len() ==> r.0@[i] == self.available_nodes.entries@[i].1.addr,
            forall|i: int|
                0 <= i < r.1@.len() ==> r.1@[i] == self.unavailable_nodes.entries@[i].1.addr,
    {
        (self.available_nodes.addrs(), self.unavailable_nodes.addrs())
    }
}

/// Membership coherence: in a well-formed cluster no address ever stands
/// in both the available and the unavailable map at once, and `notify`
/// preserves well-formedness — so after any sequence of topology and
/// status events, every known node stands in exactly one of the two maps.
pub proof fn law_membership_coherence(h: EventHandler)
    requires
        h.wf(),
    ensures
        forall|ip: CqlIpAddr|
            !(#[trigger] h.available_nodes.spec_contains(ip)
                && h.unavailable_nodes.spec_contains(ip)),
{
}

/// The addresses held by the first column of each row of a peers query
/// result; `None` when any row lacks a non-null `inet` first column.
pub open spec fn spec_peer_ips(rows: Seq<Seq<ValueV>>) -> Option<Seq<CqlIpAddr>>
    decreases rows.len(),
{
    if rows.len() == 0 {
        Some(Seq::empty())
    } else if rows[0].len() > 0 && (rows[0][0] matches ValueV::VInet(Some(_))) {
        match spec_peer_ips(rows.drop_first()) {
            Some(rest) => Some(seq![rows[0][0]->VInet_0->Some_0] + rest),
            None => None,
        }
    } else {
        None
    }
}

/// Extracts the peer addresses from a rows response: the body must be a
/// rows result with at least one row, and every row's first column must
/// be a non-null `inet`; a missing or null column is a read error, any
/// other body a cluster error.
pub fn parse_nodes(response: CqlResponse) -> (r: RCResult<Vec<CqlIpAddr>>)
    ensures
        (match response.body {
            CqlResponseBody::ResultRows(rows) => {
                if rows.rows@.len() == 0 {
                    r matches Err(e) && e.kind == RCErrorType::ReadError
                } else {
                    match spec_peer_ips(rows_seq_model(rows.rows@)) {
                        Some(ips) => r matches Ok(v) && v@ == ips,
                        None => r matches Err(e) && e.kind == RCErrorType::ReadError,
                    }
                }
            },
            _ => r matches Err(e) && e.kind == RCErrorType::ClusterError,
        }),
{
    match response.body {
        CqlResponseBody::ResultRows(cql_rows) => {
            if cql_rows.rows.len() == 0 {
                return Err(
                    RCError::new("peers response contains no rows", RCErrorType::ReadError),
                );
            }
            let rows = cql_rows.rows;
            let ghost rm = rows_seq_model(rows@);
            let n = rows.len();
            let mut out: Vec<CqlIpAddr> = Vec::new();
            let mut i: usize = 0;
            proof {
                assert(rm.skip(0) =~= rm);
            }
            while i < n
                invariant
                    (match response.body {
                        CqlResponseBody::ResultRows(cr) => cr.rows@ == rows@ && cr.rows@.len() > 0,
                        _ => false,
                    }),
                    rm == rows_seq_model(rows@),
                    n == rows@.len(),
                    i <= n,
                    out@.len() == i,
                    spec_peer_ips(rm) == (match spec_peer_ips(rm.skip(i as int)) {
                        Some(rest) => Some(out@ + rest),
                        None => None::<Seq<CqlIpAddr>>,
                    }),
                decreases n - i,
            {
                proof {
                    assert(rm.skip(i as int).len() == n - i);
                    assert(rm.skip(i as int)[0] == rm[i as int]);
                    assert(rm[i as int] == crate::def::row_model(rows@[i as int]));
                }
                let ghost acc = out@;
                if rows[i].cols.len() == 0 {
                    proof {
                        assert(crate::def::row_model(rows@[i as int]).len() == 0);
                        assert(spec_peer_ips(rm.skip(i as int)) is None);
                    }
                    return Err(
                        RCError::new("peers row has no columns", RCErrorType::ReadError),
                    );
                }
                let got = match &rows[i].cols[0] {
                    CqlValue::CqlInet(Some(ip)) => Some(*ip),
                    _ => None,
                };
                match got {
                    Some(ip) => {
                        proof {
                            assert(crate::def::row_model(rows@[i as int])[0]
                                == crate::def::value_model(rows@[i as int].cols@[0]));
                        }
                        out.push(ip);
                        i += 1;
                        proof {
                            assert(out@ =~= acc + seq![ip]);
                            assert(rm.skip(i - 1).drop_first() =~= rm.skip(i as int));
                            match spec_peer_ips(rm.skip(i as int)) {
                                Some(rest2) => {
                                    assert(acc + (seq![ip] + rest2) =~= (acc + seq![ip]) + rest2);
                                },
                                None => {},
                            }
                        }
                    },
                    None => {
                        proof {
                            assert(crate::def::row_model(rows@[i as int])[0]
                                == crate::def::value_model(rows@[i as int].cols@[0]));
                            assert(!(crate::def::value_model(rows@[i as int].cols@[0])
                                matches ValueV::VInet(Some(_))));
                            assert(spec_peer_ips(rm.skip(i as int)) is None);
                        }
                        return Err(
                            RCError::new(
                                "peers row does not hold an inet column",
                                RCErrorType::ReadError,
                            ),
                        );
                    },
                }
            }
            proof {
                assert(rm.skip(n as int) =~= Seq::<Seq<ValueV>>::empty());
                assert(out@ + Seq::<CqlIpAddr>::empty() =~= out@);
            }
            Ok(out)
        },
        _ => Err(
            RCError::new("peers response is not a rows result", RCErrorType::ClusterError),
        ),
    }
}

/// A read-only listing of cluster membership.
pub struct ClusterInfo {
    pub available: Vec<CqlSocketAddr>,
    pub unavailable: Vec<CqlSocketAddr>,
    pub current: CqlIpAddr,
}

/// The cluster facade: membership, the currently selected node, and the
/// balancer that rotates it. All socket work happens outside; the
/// facade's operations build the frames the selected node would send.
pub struct Cluster {
    pub handler: EventHandler,
    pub current_node: CqlIpAddr,
    pub balancer: crate::load_balancing::Balancer,
}

impl Cluster {
    /// A disconnected cluster.
    pub fn new() -> (r: Cluster)
        ensures
            r.handler.wf(),
            r.handler.available_nodes.spec_keys().len() == 0,
            r.handler.unavailable_nodes.spec_keys().len() == 0,
            r.current_node == CqlIpAddr::V4(0, 0, 0, 0),
            r.balancer.kind == crate::load_balancing::BalancerType::RoundRobin,
    {
        Cluster {
            handler: EventHandler::new(),
            current_node: CqlIpAddr::V4(0, 0, 0, 0),
            balancer: crate::load_balancing::Balancer::new(
                crate::load_balancing::BalancerType::RoundRobin,
            ),
        }
    }

    /// Whether no node is available: true exactly when a dispatch would
    /// fail for want of nodes.
    pub fn are_available_nodes(&self) -> (r: bool)
        ensures
            r == (self.handler.available_nodes.spec_keys().len() == 0),
    {
        self.handler.available_nodes.len() == 0
    }

    /// Starts a cluster connection at a contact point: refused when
    /// already connected; otherwise the contact node becomes current and
    /// a fresh node for it becomes available, and nothing else changes
    /// in either map.
    pub fn connect_cluster(&mut self, addr: CqlSocketAddr) -> (r: RCResult<()>)
        requires
            old(self).handler.wf(),
        ensures
            final(self).handler.wf(),
            old(self).handler.available_nodes.spec_keys().len() > 0 ==> (r matches Err(e)
                && e.kind == RCErrorType::ClusterError && *final(self) == *old(self)),
            old(self).handler.available_nodes.spec_keys().len() == 0 ==> (r is Ok && final(self).current_node == addr.ip && final(self).handler.available_nodes.spec_contains(
                addr.ip,
            ) && (final(self).handler.available_nodes.spec_node_of(addr.ip) matches Some(n)
                && fresh_node_for(n, addr)) && !final(self).handler.unavailable_nodes.spec_contains(
                addr.ip,
            ) && others_unchanged(final(self).handler, old(self).handler, addr.ip)),
    {
        if self.handler.available_nodes.len() > 0 {
            return Err(RCError::new("already connected to cluster", RCErrorType::ClusterError));
        }
        self.current_node = addr.ip;
        self.handler.mark_available(Node::new(addr));
        Ok(())
    }

    /// Registers peers discovered by a system query as available nodes:
    /// the available map gains exactly the given addresses, the
    /// unavailable map loses exactly them, and no other entry moves.
    pub fn create_nodes(&mut self, ips: Vec<CqlIpAddr>)
        requires
            old(self).handler.wf(),
        ensures
            final(self).handler.wf(),
            final(self).current_node == old(self).current_node,
            forall|x: CqlIpAddr|
                #[trigger] final(self).handler.available_nodes.spec_contains(x) == (old(self).handler.available_nodes.spec_contains(x) || ips@.contains(x)),
            forall|x: CqlIpAddr|
                #[trigger] final(self).handler.unavailable_nodes.spec_contains(x) == (old(self).handler.unavailable_nodes.spec_contains(x) && !ips@.contains(x)),
            forall|x: CqlIpAddr|
                !ips@.contains(x) ==> (#[trigger] final(self).handler.available_nodes.spec_node_of(x)
                    == old(self).handler.available_nodes.spec_node_of(x) && final(self).handler.unavailable_nodes.spec_node_of(x)
                    == old(self).handler.unavailable_nodes.spec_node_of(x)),
    {
        let ghost ips_all = ips@;
        let mut i: usize = 0;
        proof {
            assert forall|x: CqlIpAddr| !(#[trigger] ips_all.take(0).contains(x)) by {
                if ips_all.take(0).contains(x) {
                    let j = choose|j: int|
                        0 <= j < ips_all.take(0).len() && ips_all.take(0)[j] == x;
                }
            }
        }
        while i < ips.len()
            invariant
                self.handler.wf(),
                self.current_node == old(self).current_node,
                ips_all == ips@,
                i <= ips_all.len(),
                forall|x: CqlIpAddr|
                    #[trigger] self.handler.available_nodes.spec_contains(x) == (old(self).handler.available_nodes.spec_contains(x) || ips_all.take(i as int).contains(x)),
                forall|x: CqlIpAddr|
                    #[trigger] self.handler.unavailable_nodes.spec_contains(x) == (old(self).handler.unavailable_nodes.spec_contains(x) && !ips_all.take(i as int).contains(x)),
                forall|x: CqlIpAddr|
                    !ips_all.take(i as int).contains(x) ==> (#[trigger] self.handler.available_nodes.spec_node_of(x)
                        == old(self).handler.available_nodes.spec_node_of(x)
                        && self.handler.unavailable_nodes.spec_node_of(x)
                        == old(self).handler.unavailable_nodes.spec_node_of(x)),
            decreases ips_all.len() - i,
        {
            let ip = ips[i];
            let addr = CqlSocketAddr { ip, port: crate::def::CQL_DEFAULT_PORT };
            self.handler.mark_available(Node::new(addr));
            i += 1;
            proof {
                assert(ips_all.take(i as int) =~= ips_all.take(i - 1).push(ip));
                assert forall|x: CqlIpAddr|
                    #[trigger] ips_all.take(i as int).contains(x) == (ips_all.take(
                    i - 1,
                ).contains(x) || x == ip) by {
                    vstd::seq_lib::lemma_seq_contains_after_push(ips_all.take(i - 1), ip, x);
                }
            }
        }
        proof {
            assert(ips_all.take(ips_all.len() as int) =~= ips_all);
        }
    }

    /// Builds a query frame for the currently selected node; fails with a
    /// cluster error when it is not available.
    pub fn exec_query(&self, query_str: &str, con: Consistency, stream: i16) -> (r: RCResult<
        Vec<u8>,
    >)
        ensures
            (match self.handler.available_nodes.spec_node_of(self.current_node) {
                Some(node) => {
                    let m = spec_query_request(node.version, stream, query_str@, con);
                    (request_encodable(m) ==> (r matches Ok(out) && out@ == spec_encode_request(
                        m,
                    ))) && (!request_encodable(m) ==> (r matches Err(e) && e.kind
                        == RCErrorType::SerializeError))
                },
                None => r matches Err(e) && e.kind == RCErrorType::ClusterError,
            }),
    {
        match self.handler.available_nodes.get(self.current_node) {
            Some(node) => node.exec_query(query_str, con, stream),
            None => Err(RCError::new("no available nodes", RCErrorType::ClusterError)),
        }
    }

    /// Builds a prepare frame for the currently selected node.
    pub fn prepared_statement(&self, query_str: &str, stream: i16) -> (r: RCResult<Vec<u8>>)
        ensures
            (match self.handler.available_nodes.spec_node_of(self.current_node) {
                Some(node) => {
                    let m = RequestV {
                        version: node.version,
                        flags: 0,
                        stream,
                        opcode: OpcodeRequest::OpcodePrepare,
                        body: RequestBodyV::PrepareV(query_str@),
                    };
                    (request_encodable(m) ==> (r matches Ok(out) && out@ == spec_encode_request(
                        m,
                    ))) && (!request_encodable(m) ==> (r matches Err(e) && e.kind
                        == RCErrorType::SerializeError))
                },
                None => r matches Err(e) && e.kind == RCErrorType::ClusterError,
            }),
    {
        match self.handler.available_nodes.get(self.current_node) {
            Some(node) => node.prepared_statement(query_str, stream),
            None => Err(RCError::new("no available nodes", RCErrorType::ClusterError)),
        }
    }

    /// Builds an execute frame for the currently selected node.
    pub fn exec_prepared(
        &self,
        preps: Vec<u8>,
        params: Vec<CqlValue>,
        con: Consistency,
        stream: i16,
    ) -> (r: RCResult<Vec<u8>>)
        ensures
            (match self.handler.available_nodes.spec_node_of(self.current_node) {
                Some(node) => {
                    let m = RequestV {
                        version: node.version,
                        flags: 0,
                        stream,
                        opcode: OpcodeRequest::OpcodeExecute,
                        body: RequestBodyV::ExecV(
                            preps@,
                            crate::def::values_model(params@),
                            con,
                            1,
                        ),
                    };
                    (request_encodable(m) ==> (r matches Ok(out) && out@ == spec_encode_request(
                        m,
                    ))) && (!request_encodable(m) ==> (r matches Err(e) && e.kind
                        == RCErrorType::SerializeError))
                },
                None => r matches Err(e) && e.kind == RCErrorType::ClusterError,
            }),
    {
        match self.handler.available_nodes.get(self.current_node) {
            Some(node) => node.exec_prepared(preps, params, con, stream),
            None => Err(RCError::new("no available nodes", RCErrorType::ClusterError)),
        }
    }

    /// Builds a batch frame for the currently selected node.
    pub fn exec_batch(
        &self,
        q_type: BatchType,
        q_vec: Vec<Query>,
        con: Consistency,
        stream: i16,
    ) -> (r: RCResult<Vec<u8>>)
        ensures
            (match self.handler.available_nodes.spec_node_of(self.current_node) {
                Some(node) => {
                    let m = RequestV {
                        version: node.version,
                        flags: 0,
                        stream,
                        opcode: OpcodeRequest::OpcodeBatch,
                        body: RequestBodyV::BatchV(
                            crate::def::queries_model(q_vec@),
                            q_type,
                            con,
                            0,
                        ),
                    };
                    (request_encodable(m) ==> (r matches Ok(out) && out@ == spec_encode_request(
                        m,
                    ))) && (!request_encodable(m) ==> (r matches Err(e) && e.kind
                        == RCErrorType::SerializeError))
                },
                None => r matches Err(e) && e.kind == RCErrorType::ClusterError,
            }),
    {
        match self.handler.available_nodes.get(self.current_node) {
            Some(node) => node.exec_batch(q_type, q_vec, con, stream),
            None => Err(RCError::new("no available nodes", RCErrorType::ClusterError)),
        }
    }

    /// Builds the peers discovery frame for the currently selected node.
    pub fn get_peers(&self, stream: i16) -> (r: RCResult<Vec<u8>>)
        ensures
            (match self.handler.available_nodes.spec_node_of(self.current_node) {
                Some(node) => {
                    let m = spec_query_request(
                        node.version,
                        stream,
                        "SELECT peer FROM system.peers"@,
                        Consistency::One,
                    );
                    (request_encodable(m) ==> (r matches Ok(out) && out@ == spec_encode_request(
                        m,
                    ))) && (!request_encodable(m) ==> (r matches Err(e) && e.kind
                        == RCErrorType::SerializeError))
                },
                None => r matches Err(e) && e.kind == RCErrorType::ClusterError,
            }),
    {
        match self.handler.available_nodes.get(self.current_node) {
            Some(node) => node.get_peers(Consistency::One, stream),
            None => Err(RCError::new("no available nodes", RCErrorType::ClusterError)),
        }
    }

    /// Builds the event registration frame for the currently selected
    /// node.
    pub fn register(&self, stream: i16) -> (r: RCResult<Vec<u8>>)
        ensures
            (match self.handler.available_nodes.spec_node_of(self.current_node) {
                Some(node) => {
                    let m = RequestV {
                        version: node.version,
                        flags: 0,
                        stream,
                        opcode: OpcodeRequest::OpcodeRegister,
                        body: RequestBodyV::RegisterV(
                            seq!["TOPOLOGY_CHANGE"@, "STATUS_CHANGE"@],
                        ),
                    };
                    (request_encodable(m) ==> (r matches Ok(out) && out@ == spec_encode_request(
                        m,
                    ))) && (!request_encodable(m) ==> (r matches Err(e) && e.kind
                        == RCErrorType::SerializeError))
                },
                None => r matches Err(e) && e.kind == RCErrorType::ClusterError,
            }),
    {
        match self.handler.available_nodes.get(self.current_node) {
            Some(node) => node.send_register(stream),
            None => Err(RCError::new("no available nodes", RCErrorType::ClusterError)),
        }
    }

    /// Replaces the balancing policy; the new policy starts fresh.
    pub fn set_load_balancing(&mut self, kind: crate::load_balancing::BalancerType)
        ensures
            final(self).balancer.kind == kind,
            final(self).balancer.rr.index == 0,
            final(self).handler == old(self).handler,
            final(self).current_node == old(self).current_node,
    {
        self.balancer = crate::load_balancing::Balancer::new(kind);
    }

    /// One balancing step: asks the balancer for a new current node; the
    /// selection is always an available node, and an empty available map
    /// leaves the current node alone.
    pub fn balance_step(&mut self)
        ensures
            final(self).handler == old(self).handler,
            old(self).handler.available_nodes.spec_keys().len() > 0 ==> final(self).handler.available_nodes.spec_contains(final(self).current_node),
            old(self).handler.available_nodes.spec_keys().len() == 0 ==> final(self).current_node == old(self).current_node,
    {
        let picked = self.balancer.select_node(&self.handler.available_nodes);
        match picked {
            Some(ip) => {
                self.current_node = ip;
            },
            None => {},
        }
    }

    /// A read-only enumeration of the cluster's membership: one address
    /// per mapped node, in entry order, and the currently selected node.
    pub fn show_cluster_information(&self) -> (r: ClusterInfo)
        ensures
            r.available@.len() == self.handler.available_nodes.entries@.len(),
            r.unavailable@.len() == self.handler.unavailable_nodes.entries@.len(),
            forall|i: int|
                0 <= i < r.available@.len() ==> r.available@[i]
                    == self.handler.available_nodes.entries@[i].1.addr,
            forall|i: int|
                0 <= i < r.unavailable@.len() ==> r.unavailable@[i]
                    == self.handler.unavailable_nodes.entries@[i].1.addr,
            r.current == self.current_node,
    {
        ClusterInfo {
            available: self.handler.available_nodes.addrs(),
            unavailable: self.handler.unavailable_nodes.addrs(),
            current: self.current_node,
        }
    }
}

} // verus!
