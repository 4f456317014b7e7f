//! Traceroute: one probe per time-to-live, from 1 up, until the destination
//! answers or a probe fails.
//!
//! The classical variant changes the flow identifier with every
//! time-to-live; the Paris variant keeps it fixed, so that routers that
//! balance load by flow send every probe down the same path.

use vstd::prelude::*;
use crate::multiplexer::identifier_for;
use crate::probe::{PingError, PingErrorView, RouteNode, result_view};

verus! {

/// How the flow identifier of each probe is chosen.
#[derive(Debug, Clone, Copy, PartialEq, Eq, Structural)]
pub enum FlowId {
    /// The same for every probe.
    Fixed(u16),
    /// The offset in the high byte and the time-to-live in the low byte.
    WithOffset(u8),
}

/// The flow identifier of the probe at `ttl`.
pub open spec fn flow_for(flow_id: FlowId, ttl: u8) -> u16 {
    match flow_id {
        FlowId::Fixed(id) => id,
        FlowId::WithOffset(offset) => (256 * offset + ttl) as u16,
    }
}

/// With a fixed flow identifier every probe of a run carries it, whatever
/// its time-to-live, so that the identifier of its packet less the sequence
/// it was made at is the same for all. With an offset, two probes with
/// different time-to-lives carry different flow identifiers, and packets
/// made at one sequence different identifiers.
pub proof fn lemma_flow_discipline(flow: u16, offset: u8, ttl: u8, other_ttl: u8, seq: u16)
    ensures
        flow_for(FlowId::Fixed(flow), ttl) == flow,
        (identifier_for(seq, flow_for(FlowId::Fixed(flow), ttl)) - seq) % 0x1_0000 == flow,
        ttl != other_ttl ==> flow_for(FlowId::WithOffset(offset), ttl) != flow_for(
            FlowId::WithOffset(offset),
            other_ttl,
        ),
        ttl != other_ttl ==> identifier_for(seq, flow_for(FlowId::WithOffset(offset), ttl))
            != identifier_for(seq, flow_for(FlowId::WithOffset(offset), other_ttl)),
{
}

/// The model of a traceroute run.
pub struct TracerouteView {
    /// The destination.
    pub destination: u32,
    /// The largest time-to-live that is probed.
    pub max_ttl: u8,
    /// How flow identifiers are chosen.
    pub flow_id: FlowId,
    /// The time-to-live of the next probe; `None` once the run is over.
    pub next: Option<u8>,
}

/// The probe to send next: its time-to-live and its flow identifier.
pub open spec fn next_probe_of(v: TracerouteView) -> Option<(u8, u16)> {
    match v.next {
        Some(ttl) => Some((ttl, flow_for(v.flow_id, ttl))),
        None => None,
    }
}

/// What a traceroute reports of the probe at a time-to-live: the node that
/// answered, or the error that ended the run.
pub open spec fn hop_of(v: TracerouteView, result: Result<u64, PingErrorView>) -> Result<
    RouteNode,
    PingErrorView,
> {
    match result {
        Ok(latency) => Ok(RouteNode { addr: v.destination, latency }),
        Err(PingErrorView::TimeExceeded { addr, latency }) => Ok(RouteNode { addr, latency }),
        Err(error) => Err(error),
    }
}

/// The run after the result of its probe: it goes on to the next
/// time-to-live after a router answered, up to the largest one, and is over
/// after the destination answered or the probe failed.
pub open spec fn after_hop(v: TracerouteView, result: Result<u64, PingErrorView>) -> TracerouteView {
    match (v.next, result) {
        (Some(ttl), Err(PingErrorView::TimeExceeded { .. })) => TracerouteView {
            next: if ttl < v.max_ttl {
                Some((ttl + 1) as u8)
            } else {
                None
            },
            ..v
        },
        _ => TracerouteView { next: None, ..v },
    }
}

/// The result of a probe with `ttl` on a path of `distance` hops: a router
/// answers below the distance, the destination from the distance on.
pub open spec fn probe_on_path(ttl: u8, distance: int) -> Result<u64, PingErrorView> {
    if ttl >= distance {
        Ok(0)
    } else {
        Err(PingErrorView::TimeExceeded { addr: 0, latency: 0 })
    }
}

/// The time-to-lives that a run probes on a path of `distance` hops, in order.
pub open spec fn ttls_on_path(v: TracerouteView, distance: int) -> Seq<u8>
    decreases
            (match v.next {
                Some(ttl) => v.max_ttl - ttl + 1,
                None => 0,
            }),
{
    match v.next {
        None => Seq::empty(),
        Some(ttl) => if ttl > v.max_ttl {
            seq![ttl]
        } else {
            seq![ttl] + ttls_on_path(after_hop(v, probe_on_path(ttl, distance)), distance)
        },
    }
}

/// On a path of `distance` hops a run that stands at `ttl` probes every
/// time-to-live from there to the distance, or to the largest one if that
/// comes first.
proof fn lemma_ttls_from(v: TracerouteView, distance: int, ttl: u8)
    requires
        v.next == Some(ttl),
        1 <= ttl <= v.max_ttl,
        ttl <= distance,
    ensures
        ttls_on_path(v, distance) == Seq::new(
            ((if distance < v.max_ttl {
                distance
            } else {
                v.max_ttl as int
            }) - ttl + 1) as nat,
            |k: int| (ttl + k) as u8,
        ),
    decreases v.max_ttl - ttl,
{
    let last = if distance < v.max_ttl {
        distance
    } else {
        v.max_ttl as int
    };
    let expected = Seq::new((last - ttl + 1) as nat, |k: int| (ttl + k) as u8);
    let next = after_hop(v, probe_on_path(ttl, distance));
    if ttl < last {
        lemma_ttls_from(next, distance, (ttl + 1) as u8);
        assert(seq![ttl] + ttls_on_path(next, distance) =~= expected);
    } else {
        assert(next.next.is_none());
        assert(ttls_on_path(next, distance) =~= Seq::<u8>::empty());
        assert(seq![ttl] + ttls_on_path(next, distance) =~= expected);
    }
}

/// On a path of `distance` hops a run probes the time-to-lives 1, 2, 3 and
/// so on, one at a time, up to the distance, where the destination answers,
/// or up to the largest time-to-live if that comes first.
pub proof fn lemma_traceroute_on_path(
    destination: u32,
    max_ttl: u8,
    flow_id: FlowId,
    distance: int,
)
    requires
        1 <= distance,
    ensures
        ttls_on_path(
            TracerouteView { destination, max_ttl, flow_id, next: first_ttl(max_ttl) },
            distance,
        ) == Seq::new(
            if distance < max_ttl {
                distance as nat
            } else {
                max_ttl as nat
            },
            |k: int| (1 + k) as u8,
        ),
{
    let v = TracerouteView { destination, max_ttl, flow_id, next: first_ttl(max_ttl) };
    if max_ttl >= 1 {
        lemma_ttls_from(v, distance, 1);
    } else {
        assert(ttls_on_path(v, distance) =~= Seq::new(0, |k: int| (1 + k) as u8));
    }
}

/// The model of what `on_result` reports.
pub open spec fn hop_view(hop: Result<RouteNode, PingError>) -> Result<RouteNode, PingErrorView> {
    match hop {
        Ok(node) => Ok(node),
        Err(error) => Err(error@),
    }
}

/// One traceroute run.
pub struct Traceroute {
    destination: u32,
    max_ttl: u8,
    flow_id: FlowId,
    next: Option<u8>,
}

impl View for Traceroute {
    type V = TracerouteView;

    closed spec fn view(&self) -> TracerouteView {
        TracerouteView {
            destination: self.destination,
            max_ttl: self.max_ttl,
            flow_id: self.flow_id,
            next: self.next,
        }
    }
}

impl Traceroute {
    /// A run to `destination` that starts at time-to-live 1 and goes up to `max_ttl`.
    pub fn new(destination: u32, max_ttl: u8, flow_id: FlowId) -> (run: Self)
        ensures
            run@ == (TracerouteView {
                destination,
                max_ttl,
                flow_id,
                next: if max_ttl >= 1 {
                    Some(1u8)
                } else {
                    None
                },
            }),
    {
        Self {
            destination,
            max_ttl,
            flow_id,
            next: if max_ttl >= 1 {
                Some(1)
            } else {
                None
            },
        }
    }

    /// The time-to-live and the flow identifier of the probe to send next;
    /// `None` once the run is over.
    pub fn next_probe(&self) -> (probe: Option<(u8, u16)>)
        ensures
            probe == next_probe_of(self@),
    {
        match self.next {
            Some(ttl) => {
                let flow = match self.flow_id {
                    FlowId::Fixed(id) => id,
                    FlowId::WithOffset(offset) => 256 * (offset as u16) + ttl as u16,
                };
                Some((ttl, flow))
            },
            None => None,
        }
    }

    /// Handles the result of the probe of `next_probe()` and returns what to
    /// report of it.
    pub fn on_result(&mut self, result: Result<u64, PingError>) -> (hop: Result<
        RouteNode,
        PingError,
    >)
        ensures
            final(self)@ == after_hop(old(self)@, result_view(result)),
            hop_view(hop) == hop_of(old(self)@, result_view(result)),
    {
        match result {
            Ok(latency) => {
                self.next = None;
                Ok(RouteNode { addr: self.destination, latency })
            },
            Err(PingError::TimeExceeded { addr, latency }) => {
                self.next = match self.next {
                    Some(ttl) => if ttl < self.max_ttl {
                        Some(ttl + 1)
                    } else {
                        None
                    },
                    None => None,
                };
                Ok(RouteNode { addr, latency })
            },
            Err(error) => {
                self.next = None;
                Err(error)
            },
        }
    }
}

/// The model of a series of traceroute runs.
pub struct MultiTracerouteView {
    /// The number of runs.
    pub attempts: u8,
    /// The number of runs begun so far.
    pub begun: u8,
    /// Whether the flow identifier is fixed for all runs (Paris) or changes
    /// with the run and the time-to-live (classical).
    pub paris: bool,
    /// The run in progress.
    pub run: TracerouteView,
}

/// The flow discipline of run number `attempt`: a fixed flow identifier of 0
/// for the Paris variant, the number of the run as offset for the classical one.
pub open spec fn flow_of_attempt(paris: bool, attempt: u8) -> FlowId {
    if paris {
        FlowId::Fixed(0)
    } else {
        FlowId::WithOffset(attempt)
    }
}

/// The first time-to-live of a run, if it probes any.
pub open spec fn first_ttl(max_ttl: u8) -> Option<u8> {
    if max_ttl >= 1 {
        Some(1u8)
    } else {
        None
    }
}

/// A series where the runs that are over before they began are passed over:
/// the run in progress has a probe to send, or no run is left.
pub open spec fn settled(v: MultiTracerouteView) -> MultiTracerouteView {
    if v.run.next.is_none() && v.begun < v.attempts && v.run.max_ttl >= 1 {
        MultiTracerouteView {
            begun: (v.begun + 1) as u8,
            run: TracerouteView {
                flow_id: flow_of_attempt(v.paris, v.begun),
                next: first_ttl(v.run.max_ttl),
                ..v.run
            },
            ..v
        }
    } else {
        v
    }
}

/// The series after the result of its probe: the run in progress takes the
/// result, and the next run begins if that one is over.
pub open spec fn after_attempt_hop(v: MultiTracerouteView, result: Result<u64, PingErrorView>)
    -> MultiTracerouteView {
    settled(MultiTracerouteView { run: after_hop(v.run, result), ..v })
}

/// A series of traceroute runs, one after the other.
pub struct MultiTraceroute {
    attempts: u8,
    begun: u8,
    paris: bool,
    run: Traceroute,
}

impl View for MultiTraceroute {
    type V = MultiTracerouteView;

    closed spec fn view(&self) -> MultiTracerouteView {
        MultiTracerouteView {
            attempts: self.attempts,
            begun: self.begun,
            paris: self.paris,
            run: self.run@,
        }
    }
}

impl MultiTraceroute {
    /// Begins the next run if the one in progress is over and runs are left.
    fn settle(&mut self)
        ensures
            final(self)@ == settled(old(self)@),
    {
        if self.run.next.is_none() && self.begun < self.attempts && self.run.max_ttl >= 1 {
            let flow_id = if self.paris {
                FlowId::Fixed(0)
            } else {
                FlowId::WithOffset(self.begun)
            };
            self.run = Traceroute::new(self.run.destination, self.run.max_ttl, flow_id);
            self.begun += 1;
        }
    }

    /// A series of `attempts` runs to `destination`, each up to `max_ttl`.
    pub fn new(destination: u32, max_ttl: u8, attempts: u8, paris: bool) -> (series: Self)
        ensures
            series@ == settled(
                MultiTracerouteView {
                    attempts,
                    begun: 0,
                    paris,
                    run: TracerouteView {
                        destination,
                        max_ttl,
                        flow_id: flow_of_attempt(paris, 0),
                        next: None,
                    },
                },
            ),
    {
        let mut series = Self {
            attempts,
            begun: 0,
            paris,
            run: Traceroute {
                destination,
                max_ttl,
                flow_id: if paris {
                    FlowId::Fixed(0)
                } else {
                    FlowId::WithOffset(0)
                },
                next: None,
            },
        };
        series.settle();
        series
    }

    /// The time-to-live and the flow identifier of the probe to send next;
    /// `None` once every run is over.
    pub fn next_probe(&self) -> (probe: Option<(u8, u16)>)
        ensures
            probe == next_probe_of(self@.run),
    {
        self.run.next_probe()
    }

    /// Handles the result of the probe of `next_probe()`. Returns the
    /// time-to-live of that probe, 0 if there was none, and what to report.
    pub fn on_result(&mut self, result: Result<u64, PingError>) -> (hop: (
        u8,
        Result<RouteNode, PingError>,
    ))
        ensures
            final(self)@ == after_attempt_hop(old(self)@, result_view(result)),
            hop.0 == match old(self)@.run.next {
                Some(ttl) => ttl,
                None => 0,
            },
            hop_view(hop.1) == hop_of(old(self)@.run, result_view(result)),
    {
        let ttl = match self.run.next {
            Some(ttl) => ttl,
            None => 0,
        };
        let hop = self.run.on_result(result);
        self.settle();
        (ttl, hop)
    }
}

/// A classical traceroute run: the flow identifier changes with the time-to-live.
pub fn icmp_traceroute(destination: u32, max_ttl: u8, index: u8) -> (run: Traceroute)
    ensures
        run@ == (TracerouteView {
            destination,
            max_ttl,
            flow_id: FlowId::WithOffset(index),
            next: first_ttl(max_ttl),
        }),
{
    Traceroute::new(destination, max_ttl, FlowId::WithOffset(index))
}

/// A Paris traceroute run: every probe carries `flow_id`.
pub fn paris_icmp_traceroute(destination: u32, max_ttl: u8, flow_id: u16) -> (run: Traceroute)
    ensures
        run@ == (TracerouteView {
            destination,
            max_ttl,
            flow_id: FlowId::Fixed(flow_id),
            next: first_ttl(max_ttl),
        }),
{
    Traceroute::new(destination, max_ttl, FlowId::Fixed(flow_id))
}

} // verus!
