//! Load balancing: the strategy that picks the current node for outbound
//! operations from the available map.

use vstd::prelude::*;

use crate::cluster::NodeMap;
use crate::def::CqlIpAddr;

verus! {

/// The selectable balancing policies.
#[derive(Clone, Copy, Debug, PartialEq, Eq, Structural)]
pub enum BalancerType {
    RoundRobin,
    LatencyAware,
}

/// Round-robin selection: an integer index stepped modulo the number of
/// available nodes.
pub struct RoundRobin {
    pub index: usize,
}

impl RoundRobin {
    /// Picks the next node in rotation, stepping the index.
    pub fn select_node(&mut self, availables: &NodeMap) -> (r: Option<CqlIpAddr>)
        ensures
            availables.spec_keys().len() == 0 ==> (r is None && final(self).index == old(self).index),
            availables.spec_keys().len() > 0 ==> (r matches Some(ip) && ip
                == availables.spec_keys()[(old(self).index as int) % (
            availables.spec_keys().len() as int)] && availables.spec_contains(ip) && final(self).index == (old(self).index as int) % (availables.spec_keys().len() as int) + 1),
    {
        let n = availables.len();
        if n == 0 {
            None
        } else {
            let i = self.index % n;
            self.index = i + 1;
            let ip = availables.key_at(i);
            proof {
                assert(availables.spec_keys().contains(availables.spec_keys()[i as int]));
            }
            Some(ip)
        }
    }
}

/// Latency-aware selection. No latency metric is defined in this release:
/// the policy deterministically picks the first available node.
pub struct LatencyAware {
    pub unused: bool,
}

impl LatencyAware {
    /// Picks the first available node.
    pub fn select_node(&self, availables: &NodeMap) -> (r: Option<CqlIpAddr>)
        ensures
            availables.spec_keys().len() == 0 ==> r is None,
            availables.spec_keys().len() > 0 ==> (r matches Some(ip) && ip
                == availables.spec_keys()[0] && availables.spec_contains(ip)),
    {
        if availables.len() == 0 {
            None
        } else {
            let ip = availables.key_at(0);
            proof {
                assert(availables.spec_keys().contains(availables.spec_keys()[0]));
            }
            Some(ip)
        }
    }
}

/// The balancer a cluster holds: a policy tag and the policies' state.
pub struct Balancer {
    pub kind: BalancerType,
    pub rr: RoundRobin,
    pub latency: LatencyAware,
}

impl Balancer {
    /// A fresh balancer of the given policy.
    pub fn new(kind: BalancerType) -> (r: Balancer)
        ensures
            r.kind == kind,
            r.rr.index == 0,
    {
        Balancer { kind, rr: RoundRobin { index: 0 }, latency: LatencyAware { unused: false } }
    }

    /// Picks a node under the current policy; some node is always picked
    /// while any is available.
    pub fn select_node(&mut self, availables: &NodeMap) -> (r: Option<CqlIpAddr>)
        ensures
            final(self).kind == old(self).kind,
            availables.spec_keys().len() == 0 ==> r is None,
            availables.spec_keys().len() > 0 ==> (r matches Some(ip) && availables.spec_contains(
                ip,
            )),
    {
        match self.kind {
            BalancerType::RoundRobin => self.rr.select_node(availables),
            BalancerType::LatencyAware => self.latency.select_node(availables),
        }
    }
}

} // verus!
