//! The probe multiplexer: identifiers, the table of probes in flight, the
//! matching of answers to probes and the sweep of deadlines, as a state
//! machine.
//!
//! The machine owns no socket and no clock. `handle` takes what arrived and
//! the present instant and says what to do: what to transmit, which callers
//! to answer and when to come back for a sweep. The program around it sends
//! the packet, reports with `sent` whether the socket took it, and performs
//! the rest.

use vstd::prelude::*;
use crate::cursor::filter::lemma_filter_take_step;
use crate::echo::{build_echo_request, echo_request_bytes, internet_checksum, quoted_probe,
    read_quoted_probe, read_replied_probe, replied_probe, ProbeIdentity, ECHO_REPLY, TIME_EXCEEDED};
use crate::probe::{PingError, PingErrorView, PingRequest, result_view};

verus! {

/// The latency reported where the answer does not come after the start on the clock.
pub const MINIMAL_LATENCY: u64 = 10;

/// A probe in flight.
#[derive(Debug, Clone, Copy, PartialEq, Eq, Structural)]
pub struct OngoingRequest {
    /// The destination of the probe.
    pub destination: u32,
    /// The identifier in its echo header.
    pub identifier: u16,
    /// The instant the probe was sent at.
    pub start: u64,
    /// The deadline: the start plus the timeout.
    pub stop: u64,
    /// The name under which the caller waits.
    pub token: u64,
}

/// What an answer says of the probe it answers.
#[derive(Debug, Clone, Copy, PartialEq, Eq, Structural)]
pub struct PingIdentifier {
    /// The source of the answer.
    pub responder: u32,
    /// The identifier of the probe.
    pub id: u16,
    /// The sequence number of the probe.
    pub sn: u16,
    /// The instant the answer was received at.
    pub stop: u64,
    /// The destination of the probe.
    pub destination: u32,
}

/// The kind of an answer.
#[derive(Debug, Clone, PartialEq, Eq)]
pub enum PingRequestResponse {
    /// An echo reply.
    PingResponse,
    /// A time-exceeded message.
    PingTimeExceeded,
    /// Another ICMP error, with the message as received.
    IcmpError(Vec<u8>),
}

/// The model of a `PingRequestResponse`.
pub enum PingRequestResponseView {
    PingResponse,
    PingTimeExceeded,
    IcmpError(Seq<u8>),
}

impl View for PingRequestResponse {
    type V = PingRequestResponseView;

    open spec fn view(&self) -> PingRequestResponseView {
        match *self {
            PingRequestResponse::PingResponse => PingRequestResponseView::PingResponse,
            PingRequestResponse::PingTimeExceeded => PingRequestResponseView::PingTimeExceeded,
            PingRequestResponse::IcmpError(data) => PingRequestResponseView::IcmpError(data@),
        }
    }
}

/// What reaches the multiplexer.
#[derive(Debug, Clone, PartialEq, Eq)]
pub enum Input {
    /// A caller asks for a probe.
    PingRequest(PingRequest),
    /// An echo reply arrived.
    PingResponse(PingIdentifier),
    /// A time-exceeded message arrived.
    PingTimeExceeded(PingIdentifier),
    /// Another ICMP error arrived.
    IcmpError { id: PingIdentifier, ty: u8, code: u8, data: Vec<u8> },
    /// The sweep timer fired.
    Timeout,
    /// The multiplexer is to stop.
    Stop,
}

/// The model of an `Input`.
pub enum InputView {
    PingRequest(PingRequest),
    PingResponse(PingIdentifier),
    PingTimeExceeded(PingIdentifier),
    IcmpError { id: PingIdentifier, ty: u8, code: u8, data: Seq<u8> },
    Timeout,
    Stop,
}

impl View for Input {
    type V = InputView;

    open spec fn view(&self) -> InputView {
        match *self {
            Input::PingRequest(request) => InputView::PingRequest(request),
            Input::PingResponse(id) => InputView::PingResponse(id),
            Input::PingTimeExceeded(id) => InputView::PingTimeExceeded(id),
            Input::IcmpError { id, ty, code, data } => InputView::IcmpError {
                id,
                ty,
                code,
                data: data@,
            },
            Input::Timeout => InputView::Timeout,
            Input::Stop => InputView::Stop,
        }
    }
}

/// The input that an answer of kind `kind` about probe `id` makes. An ICMP
/// error gives its type and its code: the first two bytes of the message.
pub open spec fn built_input(kind: PingRequestResponseView, id: PingIdentifier) -> InputView {
    match kind {
        PingRequestResponseView::PingResponse => InputView::PingResponse(id),
        PingRequestResponseView::PingTimeExceeded => InputView::PingTimeExceeded(id),
        PingRequestResponseView::IcmpError(data) => InputView::IcmpError {
            id,
            ty: data[0],
            code: data[1],
            data,
        },
    }
}

impl PingRequestResponse {
    /// Makes the input for the multiplexer from an answer about probe `id`.
    pub fn build_input(self, id: PingIdentifier) -> (input: Input)
        requires
            self matches PingRequestResponse::IcmpError(data) ==> data@.len() >= 4,
        ensures
            input@ == built_input(self@, id),
    {
        match self {
            PingRequestResponse::PingResponse => Input::PingResponse(id),
            PingRequestResponse::PingTimeExceeded => Input::PingTimeExceeded(id),
            PingRequestResponse::IcmpError(data) => {
                let ty = data[0];
                let code = data[1];
                Input::IcmpError { id, ty, code, data }
            },
        }
    }
}

/// What the answer made of `probe`, received from `source` at `now`, says.
pub open spec fn identifier_of(source: u32, probe: ProbeIdentity, now: u64) -> PingIdentifier {
    PingIdentifier {
        responder: source,
        id: probe.identifier,
        sn: probe.sequence_number,
        stop: now,
        destination: probe.destination,
    }
}

/// What the ICMP message `message`, received from `source` at `now`, says.
///
/// An echo reply (type 0) answers the probe whose identifier it repeats, sent
/// to its source. Any other message answers the probe it quotes; it is a
/// time-exceeded message if its type is 11, another error if not. A message
/// too short to name a probe says nothing.
pub open spec fn classified(source: u32, message: Seq<u8>, now: u64) -> Option<
    (PingRequestResponseView, PingIdentifier),
> {
    if message.len() == 0 {
        None
    } else if message[0] == ECHO_REPLY {
        match replied_probe(source, message) {
            Some(probe) => Some(
                (PingRequestResponseView::PingResponse, identifier_of(source, probe, now)),
            ),
            None => None,
        }
    } else {
        match quoted_probe(message) {
            Some(probe) => Some(
                (
                    if message[0] == TIME_EXCEEDED {
                        PingRequestResponseView::PingTimeExceeded
                    } else {
                        PingRequestResponseView::IcmpError(message)
                    },
                    identifier_of(source, probe, now),
                ),
            ),
            None => None,
        }
    }
}

/// The model of what `classify` returns.
pub open spec fn classified_view(event: Option<(PingRequestResponse, PingIdentifier)>) -> Option<
    (PingRequestResponseView, PingIdentifier),
> {
    match event {
        Some((kind, id)) => Some((kind@, id)),
        None => None,
    }
}

/// Classifies an ICMP message received from `source` at `now`.
pub fn classify(source: u32, message: &[u8], now: u64) -> (event: Option<
    (PingRequestResponse, PingIdentifier),
>)
    ensures
        classified_view(event) == classified(source, message@, now),
        event matches Some((PingRequestResponse::IcmpError(data), _)) ==> data@.len() >= 8,
{
    if message.len() == 0 {
        return None;
    }
    let ty = message[0];
    if ty == ECHO_REPLY {
        match read_replied_probe(source, message) {
            Some(probe) => Some(
                (
                    PingRequestResponse::PingResponse,
                    PingIdentifier {
                        responder: source,
                        id: probe.identifier,
                        sn: probe.sequence_number,
                        stop: now,
                        destination: probe.destination,
                    },
                ),
            ),
            None => None,
        }
    } else {
        match read_quoted_probe(message) {
            Some(probe) => {
                let id = PingIdentifier {
                    responder: source,
                    id: probe.identifier,
                    sn: probe.sequence_number,
                    stop: now,
                    destination: probe.destination,
                };
                if ty == TIME_EXCEEDED {
                    Some((PingRequestResponse::PingTimeExceeded, id))
                } else {
                    let data = vstd::slice::slice_to_vec(message);
                    Some((PingRequestResponse::IcmpError(data), id))
                }
            },
            None => None,
        }
    }
}

/// A packet to send, and what to report back once the socket took or refused it.
pub struct Transmission {
    /// The ICMP message.
    pub packet: Vec<u8>,
    /// Where to send it.
    pub destination: u32,
    /// The time-to-live to set on the socket before sending, if it is to change.
    pub set_ttl: Option<u8>,
    /// The identifier in the packet.
    pub identifier: u16,
    /// The sequence number in the packet.
    pub sequence_number: u16,
    /// The timeout of the request.
    pub timeout: u64,
    /// The name under which the caller waits.
    pub token: u64,
}

/// The model of a `Transmission`.
pub struct TransmissionView {
    pub packet: Seq<u8>,
    pub destination: u32,
    pub set_ttl: Option<u8>,
    pub identifier: u16,
    pub sequence_number: u16,
    pub timeout: u64,
    pub token: u64,
}

impl View for Transmission {
    type V = TransmissionView;

    open spec fn view(&self) -> TransmissionView {
        TransmissionView {
            packet: self.packet@,
            destination: self.destination,
            set_ttl: self.set_ttl,
            identifier: self.identifier,
            sequence_number: self.sequence_number,
            timeout: self.timeout,
            token: self.token,
        }
    }
}

/// The result of a probe, for the caller that waits under `token`.
#[derive(Debug, PartialEq, Eq)]
pub struct Resolution {
    pub token: u64,
    pub result: Result<u64, PingError>,
}

/// The model of a `Resolution`.
pub struct ResolutionView {
    pub token: u64,
    pub result: Result<u64, PingErrorView>,
}

impl View for Resolution {
    type V = ResolutionView;

    open spec fn view(&self) -> ResolutionView {
        ResolutionView { token: self.token, result: result_view(self.result) }
    }
}

/// What the multiplexer decided.
pub struct Reaction {
    /// A packet to send; `sent` is to be called with it afterwards.
    pub transmission: Option<Transmission>,
    /// The callers to answer, in order.
    pub resolutions: Vec<Resolution>,
    /// After how many nanoseconds to hand in `Input::Timeout`, if a timer is to be armed.
    pub timer: Option<u64>,
    /// Whether the multiplexer stopped.
    pub halt: bool,
}

/// The model of a `Reaction`.
pub struct ReactionView {
    pub transmission: Option<TransmissionView>,
    pub resolutions: Seq<ResolutionView>,
    pub timer: Option<u64>,
    pub halt: bool,
}

impl View for Reaction {
    type V = ReactionView;

    open spec fn view(&self) -> ReactionView {
        ReactionView {
            transmission: match self.transmission {
                Some(transmission) => Some(transmission@),
                None => None,
            },
            resolutions: self.resolutions@.map_values(|r: Resolution| r@),
            timer: self.timer,
            halt: self.halt,
        }
    }
}

/// The reaction that does nothing.
pub open spec fn no_reaction() -> ReactionView {
    ReactionView { transmission: None, resolutions: Seq::empty(), timer: None, halt: false }
}

/// The reaction that answers one caller.
pub open spec fn one_resolution(token: u64, result: Result<u64, PingErrorView>) -> ReactionView {
    ReactionView { resolutions: seq![ResolutionView { token, result }], ..no_reaction() }
}

/// The model of the multiplexer.
pub struct MultiplexerView {
    /// The length of the echo requests, in bytes.
    pub size: u16,
    /// The rotating sequence from which identifiers are made.
    pub seq: u16,
    /// The time-to-live last applied to the socket.
    pub last_ttl: u8,
    /// Whether a sweep timer is armed.
    pub timer_running: bool,
    /// Whether the multiplexer was stopped.
    pub stopped: bool,
    /// The probes in flight, oldest first.
    pub outstanding: Seq<OngoingRequest>,
}

/// Whether `request` is the probe to `destination` with identifier `identifier`.
pub open spec fn has_key(request: OngoingRequest, destination: u32, identifier: u16) -> bool {
    request.destination == destination && request.identifier == identifier
}

/// Whether a probe to `destination` with identifier `identifier` is in flight.
pub open spec fn holds(requests: Seq<OngoingRequest>, destination: u32, identifier: u16) -> bool {
    exists|i: int| 0 <= i < requests.len() && has_key(#[trigger] requests[i], destination, identifier)
}

/// The place in `requests` of the probe to `destination` with identifier `identifier`.
pub open spec fn index_of(requests: Seq<OngoingRequest>, destination: u32, identifier: u16) -> int {
    choose|i: int| 0 <= i < requests.len() && has_key(#[trigger] requests[i], destination, identifier)
}

/// No two probes in flight have the same destination and the same identifier.
pub open spec fn unique_keys(requests: Seq<OngoingRequest>) -> bool {
    forall|i: int, j: int|
        0 <= i < j < requests.len() ==> !has_key(
            #[trigger] requests[j],
            (#[trigger] requests[i]).destination,
            requests[i].identifier,
        )
}

/// What a model has to meet: requests of at least a header, no two probes in
/// flight under one key, a timer armed while probes are in flight, and none
/// in flight once stopped.
pub open spec fn view_wf(v: MultiplexerView) -> bool {
    &&& v.size >= 8
    &&& unique_keys(v.outstanding)
    &&& v.outstanding.len() > 0 ==> v.timer_running
    &&& v.stopped ==> v.outstanding.len() == 0
}

/// The identifier of the probe made at sequence `seq` for flow `flow_id`:
/// their sum modulo 2^16.
pub open spec fn identifier_for(seq: u16, flow_id: u16) -> u16 {
    ((seq + flow_id) % 0x1_0000) as u16
}

/// The sequence number of the probe made at sequence `seq`.
pub open spec fn sequence_number_for(seq: u16) -> u16 {
    (0xFFFF - seq) as u16
}

/// The sequence after `seq`: it wraps at 2^16.
pub open spec fn next_seq(seq: u16) -> u16 {
    if seq == 0xFFFF {
        0
    } else {
        (seq + 1) as u16
    }
}

/// The deadline of a probe sent at `start`: `timeout` later, or the end of
/// the clock's range if that comes first.
pub open spec fn deadline(start: u64, timeout: u64) -> u64 {
    if start + timeout > u64::MAX {
        u64::MAX
    } else {
        (start + timeout) as u64
    }
}

/// The latency of a probe sent at `start` and answered at `stop`: the time
/// between the two, or a minimal positive latency where the clock shows none.
pub open spec fn latency(start: u64, stop: u64) -> u64 {
    if stop > start {
        (stop - start) as u64
    } else {
        MINIMAL_LATENCY
    }
}

/// The packet for `request` at sequence `seq`.
pub open spec fn packet_for(size: u16, seq: u16, flow_id: u16) -> Seq<u8> {
    echo_request_bytes(
        size as nat,
        identifier_for(seq, flow_id),
        sequence_number_for(seq),
        internet_checksum(
            echo_request_bytes(
                size as nat,
                identifier_for(seq, flow_id),
                sequence_number_for(seq),
                0,
            ),
            1,
        ),
    )
}

/// The multiplexer after a request.
///
/// A stopped multiplexer answers `BackendClosed`. Otherwise the request
/// becomes a packet with the next identifier; the socket's time-to-live is
/// set only where the request asks for another than the last one applied.
pub open spec fn after_request(v: MultiplexerView, request: PingRequest) -> (
    MultiplexerView,
    ReactionView,
) {
    if v.stopped {
        (v, one_resolution(request.token, Err(PingErrorView::BackendClosed)))
    } else {
        (
            MultiplexerView { last_ttl: request.ttl, ..v },
            ReactionView {
                transmission: Some(
                    TransmissionView {
                        packet: packet_for(v.size, v.seq, request.flow_id),
                        destination: request.addr,
                        set_ttl: if request.ttl != v.last_ttl {
                            Some(request.ttl)
                        } else {
                            None
                        },
                        identifier: identifier_for(v.seq, request.flow_id),
                        sequence_number: sequence_number_for(v.seq),
                        timeout: request.timeout,
                        token: request.token,
                    },
                ),
                ..no_reaction()
            },
        )
    }
}

/// `requests` without the probe to `destination` with identifier `identifier`, if it holds one.
pub open spec fn without(requests: Seq<OngoingRequest>, destination: u32, identifier: u16) -> Seq<
    OngoingRequest,
> {
    if holds(requests, destination, identifier) {
        requests.remove(index_of(requests, destination, identifier))
    } else {
        requests
    }
}

/// The multiplexer after the socket took (`ok`) or refused a packet, at `now`.
///
/// A refused packet answers its caller `FailedToSendPacket`. A packet that
/// was taken puts its probe in flight, from `now` until its deadline, and
/// moves the sequence on; a probe already in flight under the same key gives
/// way and its caller is answered `BackendClosed`. A sweep timer is armed
/// for the timeout unless one is armed already.
pub open spec fn after_sent(v: MultiplexerView, t: TransmissionView, ok: bool, now: u64) -> (
    MultiplexerView,
    ReactionView,
) {
    if v.stopped {
        (v, one_resolution(t.token, Err(PingErrorView::BackendClosed)))
    } else if !ok {
        (v, one_resolution(t.token, Err(PingErrorView::FailedToSendPacket)))
    } else {
        let entry = OngoingRequest {
            destination: t.destination,
            identifier: t.identifier,
            start: now,
            stop: deadline(now, t.timeout),
            token: t.token,
        };
        (
            MultiplexerView {
                seq: next_seq(v.seq),
                timer_running: true,
                outstanding: without(v.outstanding, t.destination, t.identifier).push(entry),
                ..v
            },
            ReactionView {
                resolutions: if holds(v.outstanding, t.destination, t.identifier) {
                    seq![
                        ResolutionView {
                            token: v.outstanding[index_of(
                                v.outstanding,
                                t.destination,
                                t.identifier,
                            )].token,
                            result: Err(PingErrorView::BackendClosed),
                        },
                    ]
                } else {
                    Seq::empty()
                },
                timer: if v.timer_running {
                    None
                } else {
                    Some(t.timeout)
                },
                ..no_reaction()
            },
        )
    }
}

/// The multiplexer after an answer about probe `id`, which gives the caller
/// `outcome(latency)`.
///
/// The probe in flight to the destination that the answer names, with the
/// identifier that it names, leaves the table and its caller is answered. An
/// answer that matches no probe in flight changes nothing.
pub open spec fn after_answer(
    v: MultiplexerView,
    id: PingIdentifier,
    outcome: spec_fn(u64) -> Result<u64, PingErrorView>,
) -> (MultiplexerView, ReactionView) {
    if holds(v.outstanding, id.destination, id.id) {
        let request = v.outstanding[index_of(v.outstanding, id.destination, id.id)];
        (
            MultiplexerView { outstanding: without(v.outstanding, id.destination, id.id), ..v },
            one_resolution(request.token, outcome(latency(request.start, id.stop))),
        )
    } else {
        (v, no_reaction())
    }
}

/// The result that an echo reply gives.
pub open spec fn echo_outcome() -> spec_fn(u64) -> Result<u64, PingErrorView> {
    |latency: u64| Ok(latency)
}

/// The result that a time-exceeded message from `responder` gives.
pub open spec fn time_exceeded_outcome(responder: u32) -> spec_fn(u64) -> Result<
    u64,
    PingErrorView,
> {
    |latency: u64| Err(PingErrorView::TimeExceeded { addr: responder, latency })
}

/// The result that another ICMP error from `responder` gives.
pub open spec fn error_outcome(responder: u32, ty: u8, code: u8, data: Seq<u8>) -> spec_fn(
    u64,
) -> Result<u64, PingErrorView> {
    |latency: u64| Err(PingErrorView::IcmpError { responder, code, ty, data, latency })
}

/// Whether the deadline of a probe has come at `now`.
pub open spec fn is_due(now: u64) -> spec_fn(OngoingRequest) -> bool {
    |request: OngoingRequest| request.stop <= now
}

/// Whether the deadline of a probe is still to come at `now`.
pub open spec fn is_pending(now: u64) -> spec_fn(OngoingRequest) -> bool {
    |request: OngoingRequest| request.stop > now
}

/// The answer to the caller of a probe whose deadline has come.
pub open spec fn timeout_resolution() -> spec_fn(OngoingRequest) -> ResolutionView {
    |request: OngoingRequest|
        ResolutionView { token: request.token, result: Err(PingErrorView::Timeout) }
}

/// The answer to the caller of a probe that was in flight when the multiplexer stopped.
pub open spec fn closed_resolution() -> spec_fn(OngoingRequest) -> ResolutionView {
    |request: OngoingRequest|
        ResolutionView { token: request.token, result: Err(PingErrorView::BackendClosed) }
}

/// The earliest deadline among `requests`; the end of the clock's range if there is none.
pub open spec fn earliest_deadline(requests: Seq<OngoingRequest>) -> u64
    decreases requests.len(),
{
    if requests.len() == 0 {
        u64::MAX
    } else {
        let before = earliest_deadline(requests.drop_last());
        if requests.last().stop < before {
            requests.last().stop
        } else {
            before
        }
    }
}

/// The multiplexer after a sweep at `now`.
///
/// Every probe whose deadline has come leaves the table and its caller is
/// answered `Timeout`; the others stay. If probes stay, the timer is armed
/// again for the earliest of their deadlines; if none stays, no timer runs.
pub open spec fn after_sweep(v: MultiplexerView, now: u64) -> (MultiplexerView, ReactionView) {
    let rest = v.outstanding.filter(is_pending(now));
    (
        MultiplexerView { outstanding: rest, timer_running: rest.len() > 0, ..v },
        ReactionView {
            resolutions: v.outstanding.filter(is_due(now)).map_values(timeout_resolution()),
            timer: if rest.len() > 0 {
                Some((earliest_deadline(rest) - now) as u64)
            } else {
                None
            },
            ..no_reaction()
        },
    )
}

/// The multiplexer after it was told to stop: every caller of a probe in
/// flight is answered `BackendClosed`, and nothing is in flight any more.
pub open spec fn after_stop(v: MultiplexerView) -> (MultiplexerView, ReactionView) {
    (
        MultiplexerView { outstanding: Seq::empty(), stopped: true, ..v },
        ReactionView {
            resolutions: v.outstanding.map_values(closed_resolution()),
            halt: true,
            ..no_reaction()
        },
    )
}

/// The multiplexer after `input` at `now`.
pub open spec fn after_input(v: MultiplexerView, input: InputView, now: u64) -> (
    MultiplexerView,
    ReactionView,
) {
    match input {
        InputView::PingRequest(request) => after_request(v, request),
        InputView::PingResponse(id) => after_answer(v, id, echo_outcome()),
        InputView::PingTimeExceeded(id) => after_answer(
            v,
            id,
            time_exceeded_outcome(id.responder),
        ),
        InputView::IcmpError { id, ty, code, data } => after_answer(
            v,
            id,
            error_outcome(id.responder, ty, code, data),
        ),
        InputView::Timeout => after_sweep(v, now),
        InputView::Stop => after_stop(v),
    }
}


/// Taking a probe out of the table leaves the other probes under distinct
/// keys, takes the key of that probe out of the table, and puts no key in.
pub proof fn lemma_remove_keeps_unique(requests: Seq<OngoingRequest>, i: int)
    requires
        unique_keys(requests),
        0 <= i < requests.len(),
    ensures
        unique_keys(requests.remove(i)),
        !holds(requests.remove(i), requests[i].destination, requests[i].identifier),
        forall|destination: u32, identifier: u16|
            holds(requests.remove(i), destination, identifier) ==> holds(
                requests,
                destination,
                identifier,
            ),
{
    let removed = requests.remove(i);
    assert forall|a: int, b: int| 0 <= a < b < removed.len() implies !has_key(
        #[trigger] removed[b],
        (#[trigger] removed[a]).destination,
        removed[a].identifier,
    ) by {
        let a0 = if a < i { a } else { a + 1 };
        let b0 = if b < i { b } else { b + 1 };
        assert(removed[a] == requests[a0] && removed[b] == requests[b0]);
    }
    if holds(removed, requests[i].destination, requests[i].identifier) {
        let k = index_of(removed, requests[i].destination, requests[i].identifier);
        let k0 = if k < i { k } else { k + 1 };
        assert(removed[k] == requests[k0]);
        assert(false);
    }
    assert forall|destination: u32, identifier: u16|
        holds(removed, destination, identifier) implies holds(
        requests,
        destination,
        identifier,
    ) by {
        let k = index_of(removed, destination, identifier);
        let k0 = if k < i { k } else { k + 1 };
        assert(removed[k] == requests[k0]);
        assert(has_key(requests[k0], destination, identifier));
    }
}

/// The probes that a test keeps are under distinct keys if all were.
pub proof fn lemma_filter_keeps_unique(
    requests: Seq<OngoingRequest>,
    keep: spec_fn(OngoingRequest) -> bool,
)
    requires
        unique_keys(requests),
    ensures
        unique_keys(requests.filter(keep)),
    decreases requests.len(),
{
    reveal(Seq::filter);
    if requests.len() > 0 {
        let before = requests.drop_last();
        let last = requests.last();
        assert forall|i: int, j: int| 0 <= i < j < before.len() implies !has_key(
            #[trigger] before[j],
            (#[trigger] before[i]).destination,
            before[i].identifier,
        ) by {
            assert(before[i] == requests[i] && before[j] == requests[j]);
        }
        lemma_filter_keeps_unique(before, keep);
        let kept = before.filter(keep);
        if keep(last) {
            let all = kept.push(last);
            assert(requests.filter(keep) == all);
            assert forall|i: int, j: int| 0 <= i < j < all.len() implies !has_key(
                #[trigger] all[j],
                (#[trigger] all[i]).destination,
                all[i].identifier,
            ) by {
                if j == kept.len() {
                    before.lemma_filter_contains_rev(keep, kept[i]);
                    let k = choose|k: int| 0 <= k < before.len() && before[k] == kept[i];
                    assert(requests[k] == kept[i]);
                    assert(requests[requests.len() - 1] == last);
                } else {
                    assert(all[i] == kept[i] && all[j] == kept[j]);
                }
            }
        }
    }
}

/// At any instant each probe is either due or pending: the two kinds add up to all.
pub proof fn lemma_due_and_pending_partition(requests: Seq<OngoingRequest>, now: u64)
    ensures
        requests.filter(is_due(now)).len() + requests.filter(is_pending(now)).len()
            == requests.len(),
    decreases requests.len(),
{
    reveal(Seq::filter);
    if requests.len() > 0 {
        lemma_due_and_pending_partition(requests.drop_last(), now);
    }
}

/// Every input, and every report of a send, leaves a valid multiplexer
/// valid: in particular no two probes in flight ever share a destination and
/// an identifier.
pub proof fn lemma_validity_is_kept(
    v: MultiplexerView,
    input: InputView,
    t: TransmissionView,
    ok: bool,
    now: u64,
)
    requires
        view_wf(v),
    ensures
        view_wf(after_input(v, input, now).0),
        view_wf(after_sent(v, t, ok, now).0),
{
    lemma_filter_keeps_unique(v.outstanding, is_pending(now));
    assert forall|destination: u32, identifier: u16|
        unique_keys(#[trigger] without(v.outstanding, destination, identifier)) && !holds(
            without(v.outstanding, destination, identifier),
            destination,
            identifier,
        ) by {
        if holds(v.outstanding, destination, identifier) {
            lemma_remove_keeps_unique(
                v.outstanding,
                index_of(v.outstanding, destination, identifier),
            );
        }
    }
    if !v.stopped && ok {
        let before = without(v.outstanding, t.destination, t.identifier);
        let after = after_sent(v, t, ok, now).0.outstanding;
        assert forall|i: int, j: int| 0 <= i < j < after.len() implies !has_key(
            #[trigger] after[j],
            (#[trigger] after[i]).destination,
            after[i].identifier,
        ) by {
            if j == before.len() {
                assert(before[i] == after[i]);
                assert(!has_key(before[i], t.destination, t.identifier));
            } else {
                assert(before[i] == after[i] && before[j] == after[j]);
            }
        }
    }
}

/// Every probe is answered once. A request is answered at once or becomes a
/// packet; a packet that is reported is answered at once or becomes a probe
/// in flight, in place of the one it makes give way; and whenever probes
/// leave the table, as many callers are answered.
pub proof fn lemma_answers_balance(
    v: MultiplexerView,
    input: InputView,
    t: TransmissionView,
    ok: bool,
    now: u64,
)
    requires
        view_wf(v),
    ensures
        input is PingRequest ==> after_input(v, input, now).0.outstanding == v.outstanding && (
        after_input(v, input, now).1.transmission.is_some() <==> after_input(
            v,
            input,
            now,
        ).1.resolutions.len() == 0) && after_input(v, input, now).1.resolutions.len() <= 1,
        !(input is PingRequest) ==> after_input(v, input, now).0.outstanding.len() + after_input(
            v,
            input,
            now,
        ).1.resolutions.len() == v.outstanding.len(),
        after_sent(v, t, ok, now).0.outstanding.len() + after_sent(
            v,
            t,
            ok,
            now,
        ).1.resolutions.len() == v.outstanding.len() + 1,
{
    lemma_due_and_pending_partition(v.outstanding, now);
}

/// An echo reply that names a probe in flight answers the caller of that
/// probe `Ok` with a positive latency: the time from the start of the probe
/// to the reception of the reply, where the clock shows any. The probe
/// leaves the table.
pub proof fn lemma_reply_in_time_is_ok(v: MultiplexerView, id: PingIdentifier, now: u64)
    requires
        view_wf(v),
        holds(v.outstanding, id.destination, id.id),
    ensures
        ({
            let request = v.outstanding[index_of(v.outstanding, id.destination, id.id)];
            let (next, reaction) = after_input(v, InputView::PingResponse(id), now);
            &&& reaction.resolutions == seq![
                ResolutionView {
                    token: request.token,
                    result: Ok(latency(request.start, id.stop)),
                },
            ]
            &&& latency(request.start, id.stop) > 0
            &&& id.stop > request.start ==> latency(request.start, id.stop) == id.stop
                - request.start
            &&& !holds(next.outstanding, id.destination, id.id)
        }),
{
    lemma_remove_keeps_unique(v.outstanding, index_of(v.outstanding, id.destination, id.id));
}

/// A sweep answers `Timeout` to the callers of the probes whose deadline
/// has come, one answer each and in the order of the table, and to no one
/// else: a probe whose deadline is still to come stays in flight.
pub proof fn lemma_sweep_is_exact(v: MultiplexerView, now: u64, i: int)
    requires
        0 <= i < v.outstanding.len(),
    ensures
        ({
            let (next, reaction) = after_input(v, InputView::Timeout, now);
            &&& reaction.resolutions.len() + next.outstanding.len() == v.outstanding.len()
            &&& forall|k: int|
                0 <= k < reaction.resolutions.len() ==> (#[trigger] reaction.resolutions[k]).result
                    == Err::<u64, PingErrorView>(PingErrorView::Timeout)
            &&& forall|k: int|
                0 <= k < next.outstanding.len() ==> (#[trigger] next.outstanding[k]).stop > now
            &&& v.outstanding[i].stop > now ==> next.outstanding.contains(v.outstanding[i])
            &&& v.outstanding[i].stop <= now ==> exists|k: int|
                0 <= k < reaction.resolutions.len() && (#[trigger] reaction.resolutions[k]).token
                    == v.outstanding[i].token
        }),
{
    let (next, reaction) = after_input(v, InputView::Timeout, now);
    let due = v.outstanding.filter(is_due(now));
    lemma_due_and_pending_partition(v.outstanding, now);
    assert forall|k: int| 0 <= k < next.outstanding.len() implies (
    #[trigger] next.outstanding[k]).stop > now by {
        v.outstanding.lemma_filter_pred(is_pending(now), k);
    }
    if v.outstanding[i].stop > now {
        v.outstanding.lemma_filter_contains(is_pending(now), i);
    } else {
        v.outstanding.lemma_filter_contains(is_due(now), i);
        let k = choose|k: int| 0 <= k < due.len() && due[k] == v.outstanding[i];
        assert(reaction.resolutions[k].token == v.outstanding[i].token);
    }
}

/// Once stopped, the multiplexer stays as it is and answers every request `BackendClosed`.
pub proof fn lemma_stopped_is_closed(v: MultiplexerView, request: PingRequest, now: u64)
    ensures
        after_input(v, InputView::Stop, now).0.stopped,
        after_input(v, InputView::Stop, now).0.outstanding.len() == 0,
        v.stopped ==> after_input(v, InputView::PingRequest(request), now) == (
            v,
            one_resolution(request.token, Err(PingErrorView::BackendClosed)),
        ),
{
}

/// Identifiers wrap at 2^16 and a probe whose identifier wrapped is still
/// matched: whatever the sequence and the flow, the probe that a request
/// puts in flight is answered by the echo reply that repeats its identifier
/// from its destination.
pub proof fn lemma_wrapped_probe_is_matched(
    v: MultiplexerView,
    request: PingRequest,
    sent_at: u64,
    received_at: u64,
    sequence_number: u16,
    now: u64,
)
    requires
        view_wf(v),
        !v.stopped,
    ensures
        identifier_for(v.seq, request.flow_id) == if v.seq + request.flow_id < 0x1_0000 {
            v.seq + request.flow_id
        } else {
            v.seq + request.flow_id - 0x1_0000
        },
        next_seq(0xFFFF) == 0,
        ({
            let (requested, asked) = after_input(v, InputView::PingRequest(request), now);
            let transmission = asked.transmission.unwrap();
            let (flying, _) = after_sent(requested, transmission, true, sent_at);
            let reply = PingIdentifier {
                responder: request.addr,
                id: transmission.identifier,
                sn: sequence_number,
                stop: received_at,
                destination: request.addr,
            };
            let (_, answered) = after_input(flying, InputView::PingResponse(reply), now);
            &&& asked.transmission.is_some()
            &&& transmission.identifier == identifier_for(v.seq, request.flow_id)
            &&& flying.seq == next_seq(v.seq)
            &&& answered.resolutions == seq![
                ResolutionView { token: request.token, result: Ok(latency(sent_at, received_at)) },
            ]
        }),
{
    let (requested, asked) = after_input(v, InputView::PingRequest(request), now);
    let transmission = asked.transmission.unwrap();
    let (flying, _) = after_sent(requested, transmission, true, sent_at);
    lemma_validity_is_kept(requested, InputView::Stop, transmission, true, sent_at);
    let last = flying.outstanding.len() - 1;
    assert(has_key(flying.outstanding[last], request.addr, transmission.identifier));
    let found = index_of(flying.outstanding, request.addr, transmission.identifier);
    assert(found == last);
}

/// The time-to-live of the socket is set only where a request asks for
/// another than the last one applied: the same time-to-live asked twice in a
/// row is applied at most once.
pub proof fn lemma_ttl_is_set_on_change(v: MultiplexerView, first: PingRequest, second: PingRequest)
    requires
        !v.stopped,
    ensures
        after_request(v, first).1.transmission.unwrap().set_ttl == (if first.ttl == v.last_ttl {
            None
        } else {
            Some(first.ttl)
        }),
        second.ttl == first.ttl ==> after_request(
            after_request(v, first).0,
            second,
        ).1.transmission.unwrap().set_ttl.is_none(),
{
}

/// The earliest deadline is no later than the deadline of any probe.
pub proof fn lemma_earliest_is_least(requests: Seq<OngoingRequest>, i: int)
    requires
        0 <= i < requests.len(),
    ensures
        earliest_deadline(requests) <= requests[i].stop,
    decreases requests.len(),
{
    if i < requests.len() - 1 {
        assert(requests.drop_last()[i] == requests[i]);
        lemma_earliest_is_least(requests.drop_last(), i);
    }
}

/// There is never more than one sweep timer. A send arms one only where
/// none runs; a sweep, which the timer that ran has just asked for, arms the
/// next one exactly where probes stay in flight, for the earliest of their
/// deadlines; nothing else arms any.
pub proof fn lemma_one_timer(
    v: MultiplexerView,
    input: InputView,
    t: TransmissionView,
    ok: bool,
    now: u64,
)
    requires
        view_wf(v),
    ensures
        !(input is Timeout) ==> after_input(v, input, now).1.timer.is_none() && after_input(
            v,
            input,
            now,
        ).0.timer_running == v.timer_running,
        after_sent(v, t, ok, now).1.timer.is_some() ==> !v.timer_running && after_sent(
            v,
            t,
            ok,
            now,
        ).0.timer_running,
        after_sent(v, t, ok, now).1.timer.is_none() ==> after_sent(v, t, ok, now).0.timer_running
            == v.timer_running,
        ({
            let (next, reaction) = after_input(v, InputView::Timeout, now);
            &&& reaction.timer.is_some() == next.timer_running
            &&& next.timer_running == (next.outstanding.len() > 0)
            &&& reaction.timer matches Some(delay) ==> delay > 0 && now + delay
                == earliest_deadline(next.outstanding)
        }),
{
    let (next, reaction) = after_input(v, InputView::Timeout, now);
    if next.outstanding.len() > 0 {
        lemma_earliest_is_pending(v.outstanding, now);
    }
}

/// The earliest deadline among the probes that are pending at `now` is still to come.
proof fn lemma_earliest_is_pending(requests: Seq<OngoingRequest>, now: u64)
    requires
        requests.filter(is_pending(now)).len() > 0,
    ensures
        earliest_deadline(requests.filter(is_pending(now))) > now,
{
    let rest = requests.filter(is_pending(now));
    lemma_earliest_is_one_of(rest);
    let i = choose|i: int| 0 <= i < rest.len() && rest[i].stop == earliest_deadline(rest);
    requests.lemma_filter_pred(is_pending(now), i);
}

/// The earliest deadline is the deadline of one of the probes.
proof fn lemma_earliest_is_one_of(requests: Seq<OngoingRequest>)
    requires
        requests.len() > 0,
    ensures
        exists|i: int| 0 <= i < requests.len() && requests[i].stop == earliest_deadline(requests),
    decreases requests.len(),
{
    let before = requests.drop_last();
    if before.len() > 0 && !(requests.last().stop < earliest_deadline(before)) {
        lemma_earliest_is_one_of(before);
        let i = choose|i: int| 0 <= i < before.len() && before[i].stop == earliest_deadline(before);
        assert(requests[i] == before[i]);
    } else {
        if before.len() == 0 {
            assert(earliest_deadline(before) == u64::MAX);
        }
        assert(requests.last().stop == earliest_deadline(requests));
        assert(requests[requests.len() - 1] == requests.last());
    }
}

/// The probe multiplexer.
pub struct Multiplexer {
    size: u16,
    seq: u16,
    last_ttl: u8,
    timer_running: bool,
    stopped: bool,
    outstanding: Vec<OngoingRequest>,
}

impl View for Multiplexer {
    type V = MultiplexerView;

    closed spec fn view(&self) -> MultiplexerView {
        MultiplexerView {
            size: self.size,
            seq: self.seq,
            last_ttl: self.last_ttl,
            timer_running: self.timer_running,
            stopped: self.stopped,
            outstanding: self.outstanding@,
        }
    }
}

impl Multiplexer {
    /// The invariant of the multiplexer.
    pub open spec fn wf(&self) -> bool {
        view_wf(self@)
    }

    /// A multiplexer that sends echo requests of `size` bytes, with nothing in flight.
    pub fn new(size: u16) -> (multiplexer: Self)
        requires
            size >= 8,
        ensures
            multiplexer.wf(),
            multiplexer@ == (MultiplexerView {
                size,
                seq: 0,
                last_ttl: 0,
                timer_running: false,
                stopped: false,
                outstanding: Seq::empty(),
            }),
    {
        Self {
            size,
            seq: 0,
            last_ttl: 0,
            timer_running: false,
            stopped: false,
            outstanding: Vec::new(),
        }
    }

    /// The number of probes in flight.
    pub fn in_flight(&self) -> (count: usize)
        ensures
            count == self@.outstanding.len(),
    {
        self.outstanding.len()
    }

    /// Takes the probe to `destination` with identifier `identifier` out of the table.
    fn take(&mut self, destination: u32, identifier: u16) -> (request: Option<OngoingRequest>)
        requires
            old(self).wf(),
        ensures
            final(self).wf(),
            final(self)@ == (MultiplexerView {
                outstanding: without(old(self)@.outstanding, destination, identifier),
                ..old(self)@
            }),
            !holds(final(self)@.outstanding, destination, identifier),
            request == if holds(old(self)@.outstanding, destination, identifier) {
                Some(
                    old(self)@.outstanding[index_of(
                        old(self)@.outstanding,
                        destination,
                        identifier,
                    )],
                )
            } else {
                None::<OngoingRequest>
            },
    {
        let mut i: usize = 0;
        while i < self.outstanding.len()
            invariant
                i <= self.outstanding@.len(),
                *self == *old(self),
                self.wf(),
                forall|j: int|
                    0 <= j < i ==> !has_key(
                        #[trigger] self.outstanding@[j],
                        destination,
                        identifier,
                    ),
            decreases self.outstanding@.len() - i,
        {
            let request = self.outstanding[i];
            if request.destination == destination && request.identifier == identifier {
                proof {
                    assert(has_key(self.outstanding@[i as int], destination, identifier));
                    lemma_remove_keeps_unique(self.outstanding@, i as int);
                }
                self.outstanding.remove(i);
                return Some(request);
            }
            i += 1;
        }
        None
    }

    /// Handles a request for a probe.
    pub fn request(&mut self, request: PingRequest) -> (reaction: Reaction)
        requires
            old(self).wf(),
        ensures
            final(self).wf(),
            (final(self)@, reaction@) == after_request(old(self)@, request),
    {
        if self.stopped {
            let mut resolutions: Vec<Resolution> = Vec::new();
            resolutions.push(Resolution { token: request.token, result: Err(PingError::BackendClosed) });
            let reaction = Reaction { transmission: None, resolutions, timer: None, halt: false };
            assert(reaction@.resolutions =~= after_request(old(self)@, request).1.resolutions);
            return reaction;
        }
        let identifier: u16 = ((self.seq as u32 + request.flow_id as u32) % 0x1_0000) as u16;
        let sequence_number: u16 = 0xFFFF - self.seq;
        let packet = build_echo_request(self.size, identifier, sequence_number);
        let set_ttl = if request.ttl != self.last_ttl {
            Some(request.ttl)
        } else {
            None
        };
        self.last_ttl = request.ttl;
        let reaction = Reaction {
            transmission: Some(
                Transmission {
                    packet,
                    destination: request.addr,
                    set_ttl,
                    identifier,
                    sequence_number,
                    timeout: request.timeout,
                    token: request.token,
                },
            ),
            resolutions: Vec::new(),
            timer: None,
            halt: false,
        };
        assert(reaction@.resolutions =~= after_request(old(self)@, request).1.resolutions);
        reaction
    }

    /// Handles the report that the socket took (`ok`) or refused the packet
    /// of `transmission`, at `now`.
    pub fn sent(&mut self, transmission: Transmission, ok: bool, now: u64) -> (reaction: Reaction)
        requires
            old(self).wf(),
        ensures
            final(self).wf(),
            (final(self)@, reaction@) == after_sent(old(self)@, transmission@, ok, now),
    {
        let ghost expected = after_sent(old(self)@, transmission@, ok, now);
        let mut resolutions: Vec<Resolution> = Vec::new();
        if self.stopped {
            resolutions.push(
                Resolution { token: transmission.token, result: Err(PingError::BackendClosed) },
            );
            let reaction = Reaction { transmission: None, resolutions, timer: None, halt: false };
            assert(reaction@.resolutions =~= expected.1.resolutions);
            return reaction;
        }
        if !ok {
            resolutions.push(
                Resolution {
                    token: transmission.token,
                    result: Err(PingError::FailedToSendPacket),
                },
            );
            let reaction = Reaction { transmission: None, resolutions, timer: None, halt: false };
            assert(reaction@.resolutions =~= expected.1.resolutions);
            return reaction;
        }
        let stop: u64 = if transmission.timeout > u64::MAX - now {
            u64::MAX
        } else {
            now + transmission.timeout
        };
        match self.take(transmission.destination, transmission.identifier) {
            Some(replaced) => {
                resolutions.push(
                    Resolution { token: replaced.token, result: Err(PingError::BackendClosed) },
                );
            },
            None => {},
        }
        let entry = OngoingRequest {
            destination: transmission.destination,
            identifier: transmission.identifier,
            start: now,
            stop,
            token: transmission.token,
        };
        let ghost before = self.outstanding@;
        self.outstanding.push(entry);
        self.seq = if self.seq == 0xFFFF {
            0
        } else {
            self.seq + 1
        };
        let timer = if self.timer_running {
            None
        } else {
            Some(transmission.timeout)
        };
        self.timer_running = true;
        let reaction = Reaction { transmission: None, resolutions, timer, halt: false };
        proof {
            assert(reaction@.resolutions =~= expected.1.resolutions);
            assert forall|i: int, j: int| 0 <= i < j < self.outstanding@.len() implies !has_key(
                #[trigger] self.outstanding@[j],
                (#[trigger] self.outstanding@[i]).destination,
                self.outstanding@[i].identifier,
            ) by {
                if j == before.len() {
                    assert(before[i] == self.outstanding@[i]);
                    assert(!has_key(before[i], entry.destination, entry.identifier));
                } else {
                    assert(before[i] == self.outstanding@[i] && before[j] == self.outstanding@[j]);
                }
            }
        }
        reaction
    }

    /// Handles a sweep at `now`.
    fn sweep(&mut self, now: u64) -> (reaction: Reaction)
        requires
            old(self).wf(),
        ensures
            final(self).wf(),
            (final(self)@, reaction@) == after_sweep(old(self)@, now),
    {
        let ghost all = self.outstanding@;
        let mut rest: Vec<OngoingRequest> = Vec::new();
        let mut resolutions: Vec<Resolution> = Vec::new();
        let mut earliest: u64 = u64::MAX;
        let mut i: usize = 0;
        assert(all.take(0).filter(is_pending(now)).len() == 0 && all.take(0).filter(
            is_due(now),
        ).len() == 0) by {
            all.take(0).lemma_filter_len(is_pending(now));
            all.take(0).lemma_filter_len(is_due(now));
        }
        while i < self.outstanding.len()
            invariant
                i <= all.len(),
                self.outstanding@ == all,
                *self == *old(self),
                rest@ == all.take(i as int).filter(is_pending(now)),
                resolutions@.len() == all.take(i as int).filter(is_due(now)).len(),
                forall|k: int|
                    0 <= k < resolutions@.len() ==> (#[trigger] resolutions@[k])@
                        == timeout_resolution()(all.take(i as int).filter(is_due(now))[k]),
                earliest == earliest_deadline(rest@),
                rest@.len() > 0 ==> earliest > now,
            decreases all.len() - i,
        {
            let request = self.outstanding[i];
            proof {
                lemma_filter_take_step(all, is_pending(now), i as int);
                lemma_filter_take_step(all, is_due(now), i as int);
            }
            if request.stop <= now {
                resolutions.push(Resolution { token: request.token, result: Err(PingError::Timeout) });
            } else {
                proof {
                    assert(rest@.push(request).drop_last() =~= rest@);
                }
                rest.push(request);
                if request.stop < earliest {
                    earliest = request.stop;
                }
            }
            i += 1;
        }
        proof {
            assert(all.take(all.len() as int) =~= all);
            lemma_filter_keeps_unique(all, is_pending(now));
        }
        let timer = if rest.len() > 0 {
            Some(earliest - now)
        } else {
            None
        };
        self.timer_running = rest.len() > 0;
        self.outstanding = rest;
        let reaction = Reaction { transmission: None, resolutions, timer, halt: false };
        assert(reaction@.resolutions =~= after_sweep(old(self)@, now).1.resolutions);
        reaction
    }

    /// Handles the order to stop.
    fn stop(&mut self) -> (reaction: Reaction)
        requires
            old(self).wf(),
        ensures
            final(self).wf(),
            (final(self)@, reaction@) == after_stop(old(self)@),
    {
        let mut resolutions: Vec<Resolution> = Vec::new();
        let mut i: usize = 0;
        while i < self.outstanding.len()
            invariant
                i <= self.outstanding@.len(),
                *self == *old(self),
                resolutions@.len() == i,
                forall|k: int|
                    0 <= k < i ==> (#[trigger] resolutions@[k])@ == closed_resolution()(
                        self.outstanding@[k],
                    ),
            decreases self.outstanding@.len() - i,
        {
            let request = self.outstanding[i];
            resolutions.push(
                Resolution { token: request.token, result: Err(PingError::BackendClosed) },
            );
            i += 1;
        }
        self.outstanding = Vec::new();
        self.stopped = true;
        let reaction = Reaction { transmission: None, resolutions, timer: None, halt: true };
        assert(reaction@.resolutions =~= after_stop(old(self)@).1.resolutions);
        reaction
    }

    /// Handles an echo reply about probe `id`.
    fn echo_replied(&mut self, id: PingIdentifier) -> (reaction: Reaction)
        requires
            old(self).wf(),
        ensures
            final(self).wf(),
            (final(self)@, reaction@) == after_answer(old(self)@, id, echo_outcome()),
    {
        let mut resolutions: Vec<Resolution> = Vec::new();
        match self.take(id.destination, id.id) {
            Some(request) => {
                let latency = if id.stop > request.start {
                    id.stop - request.start
                } else {
                    MINIMAL_LATENCY
                };
                resolutions.push(Resolution { token: request.token, result: Ok(latency) });
            },
            None => {},
        }
        let reaction = Reaction { transmission: None, resolutions, timer: None, halt: false };
        assert(reaction@.resolutions =~= after_answer(old(self)@, id, echo_outcome()).1.resolutions);
        reaction
    }

    /// Handles a time-exceeded message about probe `id`.
    fn time_exceeded(&mut self, id: PingIdentifier) -> (reaction: Reaction)
        requires
            old(self).wf(),
        ensures
            final(self).wf(),
            (final(self)@, reaction@) == after_answer(
                old(self)@,
                id,
                time_exceeded_outcome(id.responder),
            ),
    {
        let mut resolutions: Vec<Resolution> = Vec::new();
        match self.take(id.destination, id.id) {
            Some(request) => {
                let latency = if id.stop > request.start {
                    id.stop - request.start
                } else {
                    MINIMAL_LATENCY
                };
                resolutions.push(
                    Resolution {
                        token: request.token,
                        result: Err(PingError::TimeExceeded { addr: id.responder, latency }),
                    },
                );
            },
            None => {},
        }
        let reaction = Reaction { transmission: None, resolutions, timer: None, halt: false };
        assert(reaction@.resolutions =~= after_answer(
            old(self)@,
            id,
            time_exceeded_outcome(id.responder),
        ).1.resolutions);
        reaction
    }

    /// Handles another ICMP error about probe `id`.
    fn error_received(&mut self, id: PingIdentifier, ty: u8, code: u8, data: Vec<u8>) -> (reaction:
        Reaction)
        requires
            old(self).wf(),
        ensures
            final(self).wf(),
            (final(self)@, reaction@) == after_answer(
                old(self)@,
                id,
                error_outcome(id.responder, ty, code, data@),
            ),
    {
        let mut resolutions: Vec<Resolution> = Vec::new();
        match self.take(id.destination, id.id) {
            Some(request) => {
                let latency = if id.stop > request.start {
                    id.stop - request.start
                } else {
                    MINIMAL_LATENCY
                };
                resolutions.push(
                    Resolution {
                        token: request.token,
                        result: Err(
                            PingError::IcmpError { responder: id.responder, code, ty, data, latency },
                        ),
                    },
                );
            },
            None => {},
        }
        let reaction = Reaction { transmission: None, resolutions, timer: None, halt: false };
        assert(reaction@.resolutions =~= after_answer(
            old(self)@,
            id,
            error_outcome(id.responder, ty, code, data@),
        ).1.resolutions);
        reaction
    }

    /// Handles `input` at `now`.
    pub fn handle(&mut self, input: Input, now: u64) -> (reaction: Reaction)
        requires
            old(self).wf(),
        ensures
            final(self).wf(),
            (final(self)@, reaction@) == after_input(old(self)@, input@, now),
    {
        match input {
            Input::PingRequest(request) => self.request(request),
            Input::PingResponse(id) => self.echo_replied(id),
            Input::PingTimeExceeded(id) => self.time_exceeded(id),
            Input::IcmpError { id, ty, code, data } => self.error_received(id, ty, code, data),
            Input::Timeout => self.sweep(now),
            Input::Stop => self.stop(),
        }
    }
}

} // verus!
