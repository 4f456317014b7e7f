//! The nodes of a route: for each time-to-live up to a distance, the set of
//! routers that answer a number of probes.

use vstd::prelude::*;
use crate::probe::{report_view, reported, result_view, PingError, PingErrorView, ProbeReport,
    RouteNode};

verus! {

/// The nodes that answered at a time-to-live, each once, in the order they
/// were first seen.
#[derive(Debug, Clone, PartialEq, Eq)]
pub struct ListRouteNodesResult {
    pub ttl: u8,
    pub nodes: Vec<u32>,
}

/// What the enumeration reports.
#[derive(Debug, Clone, PartialEq, Eq)]
pub enum ListRouteNodesData {
    /// The destination answered, after this latency.
    Ping(u64),
    /// A router answered that the time-to-live ran out.
    TimeExceeded(RouteNode),
    /// The probes of one time-to-live are over.
    Result(ListRouteNodesResult),
}

impl ListRouteNodesData {
    /// What the enumeration reports of a probe.
    pub fn from_report(report: ProbeReport) -> (data: Self)
        ensures
            match report {
                ProbeReport::Ping(latency) => data == ListRouteNodesData::Ping(latency),
                ProbeReport::TimeExceeded(node) => data == ListRouteNodesData::TimeExceeded(node),
            },
    {
        match report {
            ProbeReport::Ping(latency) => ListRouteNodesData::Ping(latency),
            ProbeReport::TimeExceeded(node) => ListRouteNodesData::TimeExceeded(node),
        }
    }
}

/// What the enumeration asks for next.
pub enum Poll {
    /// Send a probe with this time-to-live and hand in its result.
    Probe(u8),
    /// The probes of a time-to-live are over: these nodes answered.
    Report(ListRouteNodesResult),
    /// The enumeration is over.
    Done,
}

/// The model of a `Poll`.
pub enum PollView {
    Probe(u8),
    Report { ttl: u8, nodes: Seq<u32> },
    Done,
}

impl View for Poll {
    type V = PollView;

    open spec fn view(&self) -> PollView {
        match *self {
            Poll::Probe(ttl) => PollView::Probe(ttl),
            Poll::Report(result) => PollView::Report { ttl: result.ttl, nodes: result.nodes@ },
            Poll::Done => PollView::Done,
        }
    }
}

/// The model of the enumeration.
pub struct ListerView {
    /// The destination.
    pub destination: u32,
    /// The largest time-to-live that is probed.
    pub distance: u8,
    /// The number of probes per time-to-live.
    pub stats_retries: u8,
    /// The time-to-live that is probed.
    pub ttl: u8,
    /// The number of probes sent at this time-to-live.
    pub tried: u8,
    /// The nodes that answered at this time-to-live.
    pub nodes: Seq<u32>,
    /// Whether the enumeration is over.
    pub finished: bool,
}

/// `nodes` with `addr` among them: added at the end unless it is there already.
pub open spec fn with_node(nodes: Seq<u32>, addr: u32) -> Seq<u32> {
    if nodes.contains(addr) {
        nodes
    } else {
        nodes.push(addr)
    }
}

/// What a model has to meet: probes counted within their number, and no node listed twice.
pub open spec fn view_wf(v: ListerView) -> bool {
    &&& v.tried <= v.stats_retries
    &&& v.nodes.no_duplicates()
    &&& !v.finished ==> 1 <= v.ttl <= v.distance
}

/// What the enumeration asks for next, and the enumeration afterwards.
///
/// While probes are left at the current time-to-live, it asks for one. Once
/// they are over it reports the nodes that answered and moves to the next
/// time-to-live; it is over after the largest one, or as soon as the
/// destination is the only node that answered.
pub open spec fn polled(v: ListerView) -> (ListerView, PollView) {
    if v.finished {
        (v, PollView::Done)
    } else if v.tried < v.stats_retries {
        (v, PollView::Probe(v.ttl))
    } else {
        let arrived = v.nodes == seq![v.destination];
        (
            if arrived || v.ttl >= v.distance {
                ListerView { finished: true, tried: 0, nodes: Seq::empty(), ..v }
            } else {
                ListerView { ttl: (v.ttl + 1) as u8, tried: 0, nodes: Seq::empty(), ..v }
            },
            PollView::Report { ttl: v.ttl, nodes: v.nodes },
        )
    }
}

/// The enumeration after the result of a probe: the node that answered is
/// listed, the destination for an echo reply and the router for a
/// time-exceeded message; a probe that failed ends the enumeration.
pub open spec fn after_probe(v: ListerView, result: Result<u64, PingErrorView>) -> ListerView {
    if v.finished || v.tried >= v.stats_retries {
        v
    } else {
        match result {
            Ok(_) => ListerView {
                tried: (v.tried + 1) as u8,
                nodes: with_node(v.nodes, v.destination),
                ..v
            },
            Err(PingErrorView::TimeExceeded { addr, latency }) => ListerView {
                tried: (v.tried + 1) as u8,
                nodes: with_node(v.nodes, addr),
                ..v
            },
            Err(_) => ListerView { finished: true, ..v },
        }
    }
}

/// The enumeration of the nodes of a route.
pub struct RouteNodeLister {
    destination: u32,
    distance: u8,
    stats_retries: u8,
    ttl: u8,
    tried: u8,
    nodes: Vec<u32>,
    finished: bool,
}

impl View for RouteNodeLister {
    type V = ListerView;

    closed spec fn view(&self) -> ListerView {
        ListerView {
            destination: self.destination,
            distance: self.distance,
            stats_retries: self.stats_retries,
            ttl: self.ttl,
            tried: self.tried,
            nodes: self.nodes@,
            finished: self.finished,
        }
    }
}

impl RouteNodeLister {
    /// The invariant of the enumeration.
    pub open spec fn wf(&self) -> bool {
        view_wf(self@)
    }

    /// An enumeration of the nodes on the way to `destination`, for the
    /// time-to-lives from 1 to `distance`, with `stats_retries` probes each.
    pub fn new(destination: u32, distance: u8, stats_retries: u8) -> (lister: Self)
        ensures
            lister.wf(),
            lister@ == (ListerView {
                destination,
                distance,
                stats_retries,
                ttl: 1,
                tried: 0,
                nodes: Seq::empty(),
                finished: distance == 0,
            }),
    {
        Self {
            destination,
            distance,
            stats_retries,
            ttl: 1,
            tried: 0,
            nodes: Vec::new(),
            finished: distance == 0,
        }
    }

    /// Says what to do next: to probe, to report the nodes of a time-to-live, or to stop.
    pub fn poll(&mut self) -> (poll: Poll)
        requires
            old(self).wf(),
        ensures
            final(self).wf(),
            (final(self)@, poll@) == polled(old(self)@),
    {
        if self.finished {
            return Poll::Done;
        }
        if self.tried < self.stats_retries {
            return Poll::Probe(self.ttl);
        }
        let arrived = self.nodes.len() == 1 && self.nodes[0] == self.destination;
        assert(arrived == (self.nodes@ =~= seq![self.destination]));
        let mut nodes: Vec<u32> = Vec::new();
        core::mem::swap(&mut nodes, &mut self.nodes);
        let ttl = self.ttl;
        self.tried = 0;
        if arrived || self.ttl >= self.distance {
            self.finished = true;
        } else {
            self.ttl += 1;
        }
        Poll::Report(ListRouteNodesResult { ttl, nodes })
    }

    /// Lists `addr` among the nodes of the current time-to-live.
    fn add_node(&mut self, addr: u32)
        requires
            old(self).wf(),
        ensures
            final(self)@ == (ListerView { nodes: with_node(old(self)@.nodes, addr), ..old(self)@ }),
            final(self).wf(),
    {
        let mut i: usize = 0;
        while i < self.nodes.len()
            invariant
                i <= self.nodes@.len(),
                *self == *old(self),
                self.wf(),
                forall|j: int| 0 <= j < i ==> self.nodes@[j] != addr,
            decreases self.nodes@.len() - i,
        {
            if self.nodes[i] == addr {
                return ;
            }
            i += 1;
        }
        self.nodes.push(addr);
    }

    /// Handles the result of the probe that `poll` asked for, and returns what to report of it.
    pub fn on_result(&mut self, result: Result<u64, PingError>) -> (report: Result<
        ProbeReport,
        PingError,
    >)
        requires
            old(self).wf(),
        ensures
            final(self).wf(),
            final(self)@ == after_probe(old(self)@, result_view(result)),
            report_view(report) == reported(result_view(result)),
    {
        let counts = !self.finished && self.tried < self.stats_retries;
        match result {
            Ok(latency) => {
                if counts {
                    self.add_node(self.destination);
                    self.tried += 1;
                }
                Ok(ProbeReport::Ping(latency))
            },
            Err(PingError::TimeExceeded { addr, latency }) => {
                if counts {
                    self.add_node(addr);
                    self.tried += 1;
                }
                Ok(ProbeReport::TimeExceeded(RouteNode { addr, latency }))
            },
            Err(error) => {
                if counts {
                    self.finished = true;
                }
                Err(error)
            },
        }
    }
}

} // verus!
