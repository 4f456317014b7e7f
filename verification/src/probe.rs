//! What a probe asks and how it can end.
//!
//! Addresses are 32-bit numbers, first octet in the high bits. Durations are
//! counts of nanoseconds, and instants are nanoseconds on a monotonic clock
//! whose origin the caller chooses.

use vstd::prelude::*;

verus! {

/// A request for one echo probe.
#[derive(Debug, Clone, Copy, PartialEq, Eq, Structural)]
pub struct PingRequest {
    /// The destination.
    pub addr: u32,
    /// The time-to-live of the probe.
    pub ttl: u8,
    /// What the caller mixes into the identifier of the probe.
    pub flow_id: u16,
    /// How long the caller waits for an answer, in nanoseconds.
    pub timeout: u64,
    /// The name under which the caller waits for the result.
    pub token: u64,
}

/// How a probe can fail.
#[derive(Debug, Clone, PartialEq, Eq)]
pub enum PingError {
    /// No answer came before the deadline.
    Timeout,
    /// A router on the path dropped the probe when its time-to-live ran out.
    TimeExceeded { addr: u32, latency: u64 },
    /// The socket refused the probe.
    FailedToSendPacket,
    /// The multiplexer was stopped, or dropped the request.
    BackendClosed,
    /// Another ICMP error answered the probe; `data` is the message as received.
    IcmpError { responder: u32, code: u8, ty: u8, data: Vec<u8>, latency: u64 },
}

/// The model of a `PingError`.
pub enum PingErrorView {
    Timeout,
    TimeExceeded { addr: u32, latency: u64 },
    FailedToSendPacket,
    BackendClosed,
    IcmpError { responder: u32, code: u8, ty: u8, data: Seq<u8>, latency: u64 },
}

impl View for PingError {
    type V = PingErrorView;

    open spec fn view(&self) -> PingErrorView {
        match *self {
            PingError::Timeout => PingErrorView::Timeout,
            PingError::TimeExceeded { addr, latency } => PingErrorView::TimeExceeded {
                addr,
                latency,
            },
            PingError::FailedToSendPacket => PingErrorView::FailedToSendPacket,
            PingError::BackendClosed => PingErrorView::BackendClosed,
            PingError::IcmpError { responder, code, ty, data, latency } => PingErrorView::IcmpError {
                responder,
                code,
                ty,
                data: data@,
                latency,
            },
        }
    }
}

/// The model of the result of a probe: the latency in nanoseconds, or the failure.
pub open spec fn result_view(result: Result<u64, PingError>) -> Result<u64, PingErrorView> {
    match result {
        Ok(latency) => Ok(latency),
        Err(error) => Err(error@),
    }
}

/// A router, or the destination, that answered a probe, and after how long.
#[derive(Debug, Clone, Copy, PartialEq, Eq, Structural)]
pub struct RouteNode {
    pub addr: u32,
    pub latency: u64,
}

/// What is reported of a probe that did not fail.
#[derive(Debug, Clone, Copy, PartialEq, Eq, Structural)]
pub enum ProbeReport {
    /// The destination answered, after this latency.
    Ping(u64),
    /// A router answered that the time-to-live ran out.
    TimeExceeded(RouteNode),
}

/// What is reported of a probe: the latency of an answer, the router of a
/// time-exceeded message, or the error.
pub open spec fn reported(result: Result<u64, PingErrorView>) -> Result<ProbeReport, PingErrorView> {
    match result {
        Ok(latency) => Ok(ProbeReport::Ping(latency)),
        Err(PingErrorView::TimeExceeded { addr, latency }) => Ok(
            ProbeReport::TimeExceeded(RouteNode { addr, latency }),
        ),
        Err(error) => Err(error),
    }
}

/// The model of a report.
pub open spec fn report_view(report: Result<ProbeReport, PingError>) -> Result<
    ProbeReport,
    PingErrorView,
> {
    match report {
        Ok(report) => Ok(report),
        Err(error) => Err(error@),
    }
}

} // verus!
