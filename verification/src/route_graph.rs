//! The route graph: what was observed at each time-to-live over several
//! traceroute runs, the set of nodes of each hop and the mean latency of
//! each node.

use vstd::prelude::*;
use crate::list_route_nodes::with_node;
use crate::probe::RouteNode;

verus! {

/// One answer to a probe: who answered at which time-to-live, and after how long.
#[derive(Debug, Clone, Copy, PartialEq, Eq, Structural)]
pub struct Observation {
    pub ttl: u8,
    pub addr: u32,
    pub latency: u64,
}

/// Whether `observation` is an answer of `addr` at `ttl`.
pub open spec fn is_sample(observation: Observation, ttl: u8, addr: u32) -> bool {
    observation.ttl == ttl && observation.addr == addr
}

/// The latencies of the answers of `addr` at `ttl`, in the order they were observed.
pub open spec fn samples(observations: Seq<Observation>, ttl: u8, addr: u32) -> Seq<u64>
    decreases observations.len(),
{
    if observations.len() == 0 {
        Seq::empty()
    } else if is_sample(observations.last(), ttl, addr) {
        samples(observations.drop_last(), ttl, addr).push(observations.last().latency)
    } else {
        samples(observations.drop_last(), ttl, addr)
    }
}

/// The sum of `latencies`.
pub open spec fn sum(latencies: Seq<u64>) -> nat
    decreases latencies.len(),
{
    if latencies.len() == 0 {
        0
    } else {
        sum(latencies.drop_last()) + latencies.last() as nat
    }
}

/// The arithmetic mean of `latencies`, rounded down.
pub open spec fn mean(latencies: Seq<u64>) -> nat {
    sum(latencies) / latencies.len()
}

/// The nodes that answered at `ttl`, each once, in the order they were first seen.
pub open spec fn responders(observations: Seq<Observation>, ttl: u8) -> Seq<u32>
    decreases observations.len(),
{
    if observations.len() == 0 {
        Seq::empty()
    } else if observations.last().ttl == ttl {
        with_node(responders(observations.drop_last(), ttl), observations.last().addr)
    } else {
        responders(observations.drop_last(), ttl)
    }
}

/// The largest time-to-live that was observed; 0 if nothing was.
pub open spec fn depth(observations: Seq<Observation>) -> u8
    decreases observations.len(),
{
    if observations.len() == 0 {
        0
    } else if observations.last().ttl > depth(observations.drop_last()) {
        observations.last().ttl
    } else {
        depth(observations.drop_last())
    }
}

/// No sum of latencies exceeds their number times the largest latency, and
/// the mean is one of the values between the smallest and the largest.
pub proof fn lemma_sum_bound(latencies: Seq<u64>)
    ensures
        sum(latencies) <= latencies.len() * u64::MAX,
        latencies.len() > 0 ==> mean(latencies) <= u64::MAX,
    decreases latencies.len(),
{
    if latencies.len() > 0 {
        lemma_sum_bound(latencies.drop_last());
        let n = latencies.len() as int;
        assert((n - 1) * u64::MAX + u64::MAX == n * u64::MAX) by (nonlinear_arith);
        assert(sum(latencies) / (n as nat) <= u64::MAX) by (nonlinear_arith)
            requires
                sum(latencies) <= n * u64::MAX,
                n > 0,
        ;
    }
}

/// The sum of `latencies`, rounded down to their mean. `None` where there is no latency.
pub fn mean_latency(latencies: &Vec<u64>) -> (result: Option<u64>)
    ensures
        result.is_some() <==> latencies@.len() > 0,
        result matches Some(m) ==> m == mean(latencies@),
{
    if latencies.len() == 0 {
        return None;
    }
    let mut total: u128 = 0;
    let mut i: usize = 0;
    while i < latencies.len()
        invariant
            i <= latencies@.len(),
            total == sum(latencies@.take(i as int)),
            total <= i * u64::MAX,
        decreases latencies@.len() - i,
    {
        proof {
            assert(latencies@.take(i + 1).drop_last() =~= latencies@.take(i as int));
            assert((i + 1) * u64::MAX == i * u64::MAX + u64::MAX) by (nonlinear_arith);
            assert(i * u64::MAX <= usize::MAX * u64::MAX) by (nonlinear_arith)
                requires
                    i <= usize::MAX,
            ;
        }
        total = total + latencies[i] as u128;
        i += 1;
    }
    proof {
        assert(latencies@.take(i as int) =~= latencies@);
        lemma_sum_bound(latencies@);
    }
    Some((total / latencies.len() as u128) as u64)
}

/// The distance between a latency and the mean.
pub fn absolute_deviation(latency: u64, mean: u64) -> (deviation: u64)
    ensures
        deviation == if latency > mean {
            latency - mean
        } else {
            mean - latency
        },
{
    if latency > mean {
        latency - mean
    } else {
        mean - latency
    }
}

/// The observations of several traceroute runs.
pub struct RouteGraph {
    observations: Vec<Observation>,
}

impl View for RouteGraph {
    type V = Seq<Observation>;

    closed spec fn view(&self) -> Seq<Observation> {
        self.observations@
    }
}

impl RouteGraph {
    /// A graph without observations.
    pub fn new() -> (graph: Self)
        ensures
            graph@ == Seq::<Observation>::empty(),
    {
        Self { observations: Vec::new() }
    }

    /// Adds the answer of `node` to the probe at `ttl`.
    pub fn record(&mut self, ttl: u8, node: RouteNode)
        ensures
            final(self)@ == old(self)@.push(
                Observation { ttl, addr: node.addr, latency: node.latency },
            ),
    {
        self.observations.push(Observation { ttl, addr: node.addr, latency: node.latency });
    }

    /// The number of hops: the largest time-to-live that was observed.
    pub fn hops(&self) -> (hops: u8)
        ensures
            hops == depth(self@),
    {
        let mut hops: u8 = 0;
        let mut i: usize = 0;
        while i < self.observations.len()
            invariant
                i <= self.observations@.len(),
                hops == depth(self.observations@.take(i as int)),
            decreases self.observations@.len() - i,
        {
            proof {
                assert(self.observations@.take(i + 1).drop_last() =~= self.observations@.take(
                    i as int,
                ));
            }
            if self.observations[i].ttl > hops {
                hops = self.observations[i].ttl;
            }
            i += 1;
        }
        assert(self.observations@.take(i as int) =~= self.observations@);
        hops
    }

    /// The nodes that answered at `ttl`.
    pub fn responders_at(&self, ttl: u8) -> (nodes: Vec<u32>)
        ensures
            nodes@ == responders(self@, ttl),
    {
        let mut nodes: Vec<u32> = Vec::new();
        let mut i: usize = 0;
        while i < self.observations.len()
            invariant
                i <= self.observations@.len(),
                nodes@ == responders(self.observations@.take(i as int), ttl),
            decreases self.observations@.len() - i,
        {
            proof {
                assert(self.observations@.take(i + 1).drop_last() =~= self.observations@.take(
                    i as int,
                ));
            }
            let observation = self.observations[i];
            if observation.ttl == ttl {
                let mut known = false;
                let mut j: usize = 0;
                while j < nodes.len()
                    invariant
                        j <= nodes@.len(),
                        known <==> exists|k: int| 0 <= k < j && nodes@[k] == observation.addr,
                    decreases nodes@.len() - j,
                {
                    if nodes[j] == observation.addr {
                        known = true;
                    }
                    j += 1;
                }
                if !known {
                    nodes.push(observation.addr);
                }
            }
            i += 1;
        }
        assert(self.observations@.take(i as int) =~= self.observations@);
        nodes
    }

    /// The latencies of the answers of `addr` at `ttl`.
    pub fn latencies_of(&self, ttl: u8, addr: u32) -> (latencies: Vec<u64>)
        ensures
            latencies@ == samples(self@, ttl, addr),
    {
        let mut latencies: Vec<u64> = Vec::new();
        let mut i: usize = 0;
        while i < self.observations.len()
            invariant
                i <= self.observations@.len(),
                latencies@ == samples(self.observations@.take(i as int), ttl, addr),
            decreases self.observations@.len() - i,
        {
            proof {
                assert(self.observations@.take(i + 1).drop_last() =~= self.observations@.take(
                    i as int,
                ));
            }
            let observation = self.observations[i];
            if observation.ttl == ttl && observation.addr == addr {
                latencies.push(observation.latency);
            }
            i += 1;
        }
        assert(self.observations@.take(i as int) =~= self.observations@);
        latencies
    }

    /// The mean latency of the answers of `addr` at `ttl`; `None` where it never answered there.
    pub fn mean_latency_of(&self, ttl: u8, addr: u32) -> (result: Option<u64>)
        ensures
            result.is_some() <==> samples(self@, ttl, addr).len() > 0,
            result matches Some(m) ==> m == mean(samples(self@, ttl, addr)),
    {
        let latencies = self.latencies_of(ttl, addr);
        mean_latency(&latencies)
    }
}

} // verus!
