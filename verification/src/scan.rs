//! The scan driver: which probes to launch, what to write and when to stop,
//! as a function of the events that reach it.
//!
//! The driver owns the cursor over the targets. The program around it
//! performs what the driver decides: it launches the probes, appends the
//! bytes to the result file and feeds back ping results, link transitions
//! and load samples.

use vstd::prelude::*;
use crate::cursor::Cursor;
use crate::result_stream::{encode_result, latency_units, lemma_record_round_trip,
    lemma_records_append, record_bytes, records_of};

verus! {

/// What reaches the driver.
pub enum Event {
    /// Probe `index` ended, with its latency in nanoseconds if it was answered.
    PingResult { index: u32, latency: Option<u64> },
    /// The link monitor saw the link come back.
    LinkUp,
    /// The link monitor gave the link up.
    LinkDown,
    /// The one-minute load average, in thousandths.
    CpuLoad(u64),
}

/// A probe to launch: `target` is the address, `index` its rank in the cursor.
#[derive(Clone, Copy, Debug, PartialEq, Eq, Structural)]
pub struct Launch {
    pub index: u32,
    pub target: u32,
}

/// What the driver decided on one event.
pub struct Outcome {
    /// The probes to launch, in order.
    pub launches: Vec<Launch>,
    /// The bytes to append to the result file.
    pub written: Vec<u8>,
    /// Whether the scan is over: stop the monitors and the multiplexer.
    pub finished: bool,
}

/// The model of an `Outcome`.
pub struct OutcomeView {
    pub launches: Seq<Launch>,
    pub written: Seq<u8>,
    pub finished: bool,
}

impl View for Outcome {
    type V = OutcomeView;

    open spec fn view(&self) -> OutcomeView {
        OutcomeView { launches: self.launches@, written: self.written@, finished: self.finished }
    }
}

/// The model of the driver.
pub struct ScanView {
    /// The targets, in cursor order.
    pub items: Seq<u32>,
    /// The rank of the target under the cursor.
    pub position: int,
    /// How many probes the driver aims to keep in flight.
    pub parallelism_target: nat,
    /// How many probes the driver counts as in flight.
    pub parallel: nat,
    /// How many results were handled, less those taken back by a rewind.
    pub progress: nat,
    /// How many results were handled since the link was last seen up.
    pub since_checkpoint: nat,
    /// How many ranks were reached: every probe launched so far has a rank below it.
    pub launched: nat,
    /// The target under the cursor was launched and no target follows it.
    pub cursor_done: bool,
    /// The link is down: no probe is launched.
    pub link_down: bool,
    /// The scan is over.
    pub finished: bool,
    /// The records that wait to be written.
    pub batch: Seq<u8>,
    /// Below this load, in thousandths, the parallelism target is raised.
    pub load_min: nat,
    /// Above this load, in thousandths, the parallelism target is lowered.
    pub load_max: nat,
}

/// Whether `bytes` are whole records, each of a rank below `bound`.
pub open spec fn records_in_range(bytes: Seq<u8>, bound: nat) -> bool {
    &&& bytes.len() % 8 == 0
    &&& forall|k: int|
        0 <= k < records_of(bytes).len() ==> (#[trigger] records_of(bytes)[k]).0 < bound
}

/// What a model has to meet: a cursor on one of at most 2^32 targets, no
/// rank reached beyond them, in the batch whole records of ranks that were
/// reached, and no more results since the checkpoint than in all.
pub open spec fn view_wf(v: ScanView) -> bool {
    &&& 0 <= v.position < v.items.len() <= 0x1_0000_0000
    &&& v.position <= v.launched <= v.items.len()
    &&& v.since_checkpoint <= v.progress <= u64::MAX
    &&& v.parallelism_target <= usize::MAX
    &&& v.parallel <= usize::MAX
    &&& records_in_range(v.batch, v.launched)
    &&& v.load_min <= u64::MAX
    &&& v.load_max <= u64::MAX
}

/// The number of ranks reached once the ranks below `upto` were launched.
pub open spec fn reach(launched: nat, upto: int) -> nat {
    if upto > launched {
        upto as nat
    } else {
        launched
    }
}

/// A counter of 64 bits after one more count: it stops at its last value.
pub open spec fn bump(count: nat) -> nat {
    if count < u64::MAX {
        count + 1
    } else {
        count
    }
}

/// How many probes a wave of `slots` launches from `position`: one for each
/// slot, as long as targets are left.
pub open spec fn wave_len(len: int, position: int, slots: int) -> int {
    if slots <= len - position {
        slots
    } else {
        len - position
    }
}

/// The probes of a wave: consecutive targets from `position`, each with its rank.
pub open spec fn wave(items: Seq<u32>, position: int, slots: int) -> Seq<Launch> {
    Seq::new(
        wave_len(items.len() as int, position, slots) as nat,
        |k: int| Launch { index: (position + k) as u32, target: items[position + k] },
    )
}

/// Whether a wave launches the last target.
pub open spec fn wave_ends(len: int, position: int, slots: int) -> bool {
    slots > 0 && slots >= len - position
}

/// Where the cursor stands after a wave: on the next target, or on the last
/// one if the wave launched it.
pub open spec fn wave_position(len: int, position: int, slots: int) -> int {
    if wave_ends(len, position, slots) {
        len - 1
    } else {
        position + slots
    }
}

/// How many slots are free: the parallelism target less what is in flight.
pub open spec fn free_slots(v: ScanView) -> int {
    if v.parallelism_target > v.parallel {
        v.parallelism_target - v.parallel
    } else {
        0
    }
}

/// The driver after it filled its free slots, and the probes it launched.
pub open spec fn after_reseed(v: ScanView) -> (ScanView, Seq<Launch>) {
    let len = v.items.len() as int;
    let slots = free_slots(v);
    (
        ScanView {
            position: wave_position(len, v.position, slots),
            parallel: (v.parallel + wave_len(len, v.position, slots)) as nat,
            launched: reach(v.launched, v.position + wave_len(len, v.position, slots)),
            cursor_done: v.cursor_done || wave_ends(len, v.position, slots),
            ..v
        },
        wave(v.items, v.position, slots),
    )
}

/// The driver when the scan starts: the first wave fills the free slots.
pub open spec fn after_start(v: ScanView) -> (ScanView, OutcomeView) {
    if v.finished {
        (v, OutcomeView { launches: Seq::empty(), written: Seq::empty(), finished: true })
    } else {
        let (next, launches) = after_reseed(v);
        (next, OutcomeView { launches, written: Seq::empty(), finished: false })
    }
}

/// Whether a batch is written out: when it holds more than ten records for
/// each probe of the parallelism target.
pub open spec fn batch_is_full(batch: Seq<u8>, parallelism_target: nat) -> bool {
    batch.len() / 8 > 10 * parallelism_target
}

/// The driver after the result of probe `index`.
///
/// A result that names a rank that was never launched is ignored. An
/// answered probe adds a record to the batch, and a full batch is written. Then, if targets are left, the link is up and as many probes are
/// in flight as the target asks, the next target is launched in place of the
/// one that ended; otherwise one probe less is in flight, and the scan is
/// over once none is in flight and no target is left: what is left of the
/// batch is written then.
pub open spec fn after_result(v: ScanView, index: u32, latency: Option<u64>) -> (
    ScanView,
    OutcomeView,
) {
    if v.finished {
        (v, OutcomeView { launches: Seq::empty(), written: Seq::empty(), finished: true })
    } else if index >= v.launched {
        (v, OutcomeView { launches: Seq::empty(), written: Seq::empty(), finished: false })
    } else {
        let recorded = match latency {
            Some(nanos) => v.batch + record_bytes(index, nanos),
            None => v.batch,
        };
        let full = latency.is_some() && batch_is_full(recorded, v.parallelism_target);
        let kept = if full {
            Seq::empty()
        } else {
            recorded
        };
        let flushed = if full {
            recorded
        } else {
            Seq::empty()
        };
        let counted = ScanView {
            progress: bump(v.progress),
            since_checkpoint: bump(v.since_checkpoint),
            ..v
        };
        if !v.cursor_done && !v.link_down && v.parallel >= v.parallelism_target {
            let last = v.position + 1 >= v.items.len();
            (
                ScanView {
                    position: if last {
                        v.position
                    } else {
                        v.position + 1
                    },
                    launched: reach(v.launched, v.position + 1),
                    cursor_done: last,
                    batch: kept,
                    ..counted
                },
                OutcomeView {
                    launches: seq![
                        Launch { index: v.position as u32, target: v.items[v.position] },
                    ],
                    written: flushed,
                    finished: false,
                },
            )
        } else {
            let parallel = if v.parallel > 0 {
                (v.parallel - 1) as nat
            } else {
                0
            };
            let finished = parallel == 0 && v.cursor_done;
            (
                ScanView {
                    parallel,
                    finished,
                    batch: if finished {
                        Seq::empty()
                    } else {
                        kept
                    },
                    ..counted
                },
                OutcomeView {
                    launches: Seq::empty(),
                    written: if finished {
                        flushed + kept
                    } else {
                        flushed
                    },
                    finished,
                },
            )
        }
    }
}

/// The position `back` steps before `position`, or the first one if fewer precede.
pub open spec fn rewound(position: int, back: nat) -> int {
    if back <= position {
        position - back
    } else {
        0
    }
}

/// The driver after the link came back.
///
/// If the link was down, the cursor goes back by as many targets as results
/// were handled since the checkpoint, the progress is taken back by as many,
/// and the free slots are filled from there. In any case a new checkpoint
/// starts.
pub open spec fn after_link_up(v: ScanView) -> (ScanView, OutcomeView) {
    if v.finished {
        (v, OutcomeView { launches: Seq::empty(), written: Seq::empty(), finished: true })
    } else if v.link_down {
        let back = ScanView {
            position: rewound(v.position, v.since_checkpoint),
            progress: (v.progress - v.since_checkpoint) as nat,
            link_down: false,
            ..v
        };
        let (next, launches) = after_reseed(back);
        (
            ScanView { since_checkpoint: 0, ..next },
            OutcomeView { launches, written: Seq::empty(), finished: false },
        )
    } else {
        (
            ScanView { since_checkpoint: 0, ..v },
            OutcomeView { launches: Seq::empty(), written: Seq::empty(), finished: false },
        )
    }
}

/// The driver after the link was given up: it launches no probe until the link is back.
pub open spec fn after_link_down(v: ScanView) -> (ScanView, OutcomeView) {
    if v.finished {
        (v, OutcomeView { launches: Seq::empty(), written: Seq::empty(), finished: true })
    } else {
        (
            ScanView { link_down: true, ..v },
            OutcomeView { launches: Seq::empty(), written: Seq::empty(), finished: false },
        )
    }
}

/// `target * bound / load`, rounded down and held within `usize`. With no
/// load at all the quotient is unbounded, unless there is nothing to scale.
pub open spec fn scaled_target(target: nat, bound: nat, load: nat) -> nat {
    if load == 0 {
        if target * bound == 0 {
            0
        } else {
            usize::MAX as nat
        }
    } else if target * bound / load > usize::MAX {
        usize::MAX as nat
    } else {
        target * bound / load
    }
}

/// The parallelism target after a load sample: scaled by `max / load` above
/// `max`, by `min / load` below `min`, unchanged between the two.
pub open spec fn adapted_target(target: nat, load: nat, min: nat, max: nat) -> nat {
    if load > max {
        scaled_target(target, max, load)
    } else if load < min {
        scaled_target(target, min, load)
    } else {
        target
    }
}

/// The driver after a load sample.
pub open spec fn after_cpu_load(v: ScanView, load: u64) -> (ScanView, OutcomeView) {
    if v.finished {
        (v, OutcomeView { launches: Seq::empty(), written: Seq::empty(), finished: true })
    } else {
        (
            ScanView {
                parallelism_target: adapted_target(
                    v.parallelism_target,
                    load as nat,
                    v.load_min,
                    v.load_max,
                ),
                ..v
            },
            OutcomeView { launches: Seq::empty(), written: Seq::empty(), finished: false },
        )
    }
}

/// The driver after `event`.
pub open spec fn after_event(v: ScanView, event: Event) -> (ScanView, OutcomeView) {
    match event {
        Event::PingResult { index, latency } => after_result(v, index, latency),
        Event::LinkUp => after_link_up(v),
        Event::LinkDown => after_link_down(v),
        Event::CpuLoad(load) => after_cpu_load(v, load),
    }
}

/// Scales `target` by `bound / load`.
pub fn scale_target(target: usize, bound: u64, load: u64) -> (scaled: usize)
    ensures
        scaled == scaled_target(target as nat, bound as nat, load as nat),
{
    let product: u128 = {
        assert(target * bound <= 0xFFFF_FFFF_FFFF_FFFF * 0xFFFF_FFFF_FFFF_FFFF) by (nonlinear_arith)
            requires
                0 <= target <= 0xFFFF_FFFF_FFFF_FFFF,
                0 <= bound <= 0xFFFF_FFFF_FFFF_FFFF,
        ;
        target as u128 * bound as u128
    };
    if load == 0 {
        if product == 0 {
            0
        } else {
            usize::MAX
        }
    } else {
        let quotient: u128 = product / load as u128;
        if quotient > usize::MAX as u128 {
            usize::MAX
        } else {
            quotient as usize
        }
    }
}

/// The parallelism target that answers a load sample.
pub fn adapt_target(target: usize, load: u64, min: u64, max: u64) -> (adapted: usize)
    ensures
        adapted == adapted_target(target as nat, load as nat, min as nat, max as nat),
{
    if load > max {
        scale_target(target, max, load)
    } else if load < min {
        scale_target(target, min, load)
    } else {
        target
    }
}

/// Whether every probe of `launches` is of a target of `items`, under its rank.
pub open spec fn launches_in_range(items: Seq<u32>, launches: Seq<Launch>) -> bool {
    forall|k: int|
        0 <= k < launches.len() ==> (#[trigger] launches[k]).index < items.len()
            && launches[k].target == items[launches[k].index as int]
}

/// One more record of a rank below the bound leaves the records in range.
pub proof fn lemma_record_in_range(batch: Seq<u8>, bound: nat, index: u32, nanos: u64)
    requires
        records_in_range(batch, bound),
        index < bound,
    ensures
        records_in_range(batch + record_bytes(index, nanos), bound),
        records_in_range(Seq::<u8>::empty(), bound),
{
    lemma_records_append(batch, index, nanos);
    let all = batch + record_bytes(index, nanos);
    assert forall|k: int| 0 <= k < records_of(all).len() implies (#[trigger] records_of(
        all,
    )[k]).0 < bound by {
        if k < records_of(batch).len() {
            assert(records_of(all)[k] == records_of(batch)[k]);
        }
    }
}

/// Every event leaves a valid model valid and the targets as they were.
/// Every probe it launches is of a target of the cursor, under its rank in
/// the cursor, and what it writes is whole records, each of the rank of a
/// probe that was launched: of a rank below the number of targets.
pub proof fn lemma_event_keeps_validity(v: ScanView, event: Event)
    requires
        view_wf(v),
    ensures
        view_wf(after_event(v, event).0),
        after_event(v, event).0.items == v.items,
        after_event(v, event).0.launched >= v.launched,
        after_event(v, event).0.finished == after_event(v, event).1.finished,
        launches_in_range(v.items, after_event(v, event).1.launches),
        forall|k: int|
            0 <= k < after_event(v, event).1.launches.len() ==> (#[trigger] after_event(
                v,
                event,
            ).1.launches[k]).index < after_event(v, event).0.launched,
        records_in_range(after_event(v, event).1.written, v.items.len()),
{
    let (next, out) = after_event(v, event);
    assert(records_of(Seq::<u8>::empty()).len() == 0);
    match event {
        Event::PingResult { index, latency } => {
            if !v.finished && index < v.launched {
                let recorded = match latency {
                    Some(nanos) => v.batch + record_bytes(index, nanos),
                    None => v.batch,
                };
                if let Some(nanos) = latency {
                    lemma_record_in_range(v.batch, v.launched, index, nanos);
                }
                assert(records_in_range(recorded, v.launched));
                assert(out.written =~= recorded || out.written =~= Seq::<u8>::empty());
                assert(next.batch =~= recorded || next.batch =~= Seq::<u8>::empty());
            }
        },
        Event::LinkUp => {},
        Event::LinkDown => {},
        Event::CpuLoad(load) => {},
    }
}

/// No record is lost or made up: after the result of a probe, what was
/// written followed by what is kept is what was kept before, followed by the
/// record of that probe if it was answered.
pub proof fn lemma_result_is_recorded(v: ScanView, index: u32, latency: Option<u64>)
    requires
        !v.finished,
        index < v.launched,
    ensures
        after_result(v, index, latency).1.written + after_result(v, index, latency).0.batch
            == match latency {
            Some(nanos) => v.batch + record_bytes(index, nanos),
            None => v.batch,
        },
{
    let (next, out) = after_result(v, index, latency);
    let recorded = match latency {
        Some(nanos) => v.batch + record_bytes(index, nanos),
        None => v.batch,
    };
    assert(out.written + next.batch =~= recorded);
}

/// A first wave that has a slot for every target launches them all, in
/// order, and leaves the cursor done.
pub proof fn lemma_short_cursor_is_launched_whole(v: ScanView)
    requires
        view_wf(v),
        !v.finished,
        v.parallel == 0,
        v.parallelism_target >= v.items.len() - v.position,
    ensures
        after_start(v).0.cursor_done,
        after_start(v).0.launched == v.items.len(),
        after_start(v).0.parallel == v.items.len() - v.position,
        after_start(v).1.launches == Seq::new(
            (v.items.len() - v.position) as nat,
            |k: int| Launch { index: (v.position + k) as u32, target: v.items[v.position + k] },
        ),
{
    assert(after_start(v).1.launches =~= Seq::new(
        (v.items.len() - v.position) as nat,
        |k: int| Launch { index: (v.position + k) as u32, target: v.items[v.position + k] },
    ));
}

/// Once the cursor is done, each result takes one probe out of flight and
/// launches none; the result of the last probe in flight ends the scan and
/// writes out what was kept.
pub proof fn lemma_done_cursor_drains(v: ScanView, index: u32, latency: Option<u64>)
    requires
        !v.finished,
        v.cursor_done,
        v.parallel >= 1,
        index < v.launched,
    ensures
        after_result(v, index, latency).0.parallel == v.parallel - 1,
        after_result(v, index, latency).1.launches.len() == 0,
        after_result(v, index, latency).1.finished <==> v.parallel == 1,
        after_result(v, index, latency).1.finished ==> after_result(
            v,
            index,
            latency,
        ).0.batch.len() == 0,
{
}

/// How many targets are still to be launched, counted as at least one while
/// the cursor is not done.
pub open spec fn unlaunched(v: ScanView) -> int {
    if v.cursor_done {
        0
    } else if v.items.len() - v.position > 1 {
        v.items.len() - v.position
    } else {
        1
    }
}

/// What a scan writes from `v` on when every probe is answered after
/// `latency`, in the order the probes were launched in: `in_flight` are the
/// probes in flight, oldest first.
pub open spec fn fifo_run(v: ScanView, in_flight: Seq<Launch>, latency: u64) -> Seq<u8>
    decreases unlaunched(v) + in_flight.len(),
{
    if v.finished || in_flight.len() == 0 {
        Seq::empty()
    } else {
        let (next, out) = after_result(v, in_flight[0].index, Some(latency));
        out.written + fifo_run(next, in_flight.skip(1) + out.launches, latency)
    }
}

/// The records of the probes of rank `from` to `to - 1`, each answered after `latency`.
pub open spec fn constant_records(from: int, to: int, latency: u64) -> Seq<u8>
    decreases to - from,
{
    if from >= to {
        Seq::empty()
    } else {
        record_bytes(from as u32, latency) + constant_records(from + 1, to, latency)
    }
}

/// Whether `in_flight` are the probes of the targets of rank `from` to `to - 1`, in order.
pub open spec fn flying(items: Seq<u32>, in_flight: Seq<Launch>, from: int, to: int) -> bool {
    &&& in_flight.len() == to - from
    &&& forall|k: int|
        0 <= k < in_flight.len() ==> #[trigger] in_flight[k] == (Launch {
            index: (from + k) as u32,
            target: items[from + k],
        })
}

/// From a state in which the probes of rank `from` up to the cursor are in
/// flight, a scan whose probes are all answered after `latency`, in order,
/// writes what it kept and then one record for each rank from `from` to the
/// last.
proof fn lemma_fifo_run(v: ScanView, in_flight: Seq<Launch>, latency: u64, from: int)
    requires
        view_wf(v),
        !v.finished,
        !v.link_down,
        0 <= from,
        in_flight.len() >= 1,
        v.parallel == in_flight.len(),
        v.cursor_done ==> flying(v.items, in_flight, from, v.items.len() as int) && v.launched
            == v.items.len(),
        !v.cursor_done ==> flying(v.items, in_flight, from, v.position) && v.parallel
            >= v.parallelism_target && v.launched >= v.position,
    ensures
        fifo_run(v, in_flight, latency) == v.batch + constant_records(
            from,
            v.items.len() as int,
            latency,
        ),
    decreases unlaunched(v) + in_flight.len(),
{
    let len = v.items.len() as int;
    let (next, out) = after_result(v, in_flight[0].index, Some(latency));
    let rest = in_flight.skip(1) + out.launches;
    let recorded = v.batch + record_bytes(from as u32, latency);
    assert(in_flight[0].index == from as u32);
    lemma_event_keeps_validity(
        v,
        Event::PingResult { index: from as u32, latency: Some(latency) },
    );
    lemma_result_is_recorded(v, from as u32, Some(latency));
    assert(out.written + next.batch == recorded);
    crate::result_stream::lemma_record_round_trip(from as u32, latency);
    if next.finished {
        assert(from == len - 1);
        assert(constant_records(from + 1, len, latency) =~= Seq::<u8>::empty());
        assert(fifo_run(next, rest, latency) =~= Seq::<u8>::empty());
        assert(out.written + fifo_run(next, rest, latency) =~= v.batch + constant_records(
            from,
            len,
            latency,
        ));
    } else {
        assert forall|k: int| 0 <= k < rest.len() implies #[trigger] rest[k] == (Launch {
            index: (from + 1 + k) as u32,
            target: v.items[from + 1 + k],
        }) by {
            if k < in_flight.len() - 1 {
                assert(rest[k] == in_flight[k + 1]);
            }
        }
        lemma_fifo_run(next, rest, latency, from + 1);
        assert(out.written + (next.batch + constant_records(from + 1, len, latency)) =~= v.batch
            + constant_records(from, len, latency));
    }
}

/// A scan whose probes are all answered after the same latency, in the
/// order they were launched in, writes one record for each target, in the
/// order of the cursor, each with the rank of its target.
pub proof fn lemma_constant_latency_scan(v: ScanView, latency: u64)
    requires
        view_wf(v),
        !v.finished,
        !v.link_down,
        !v.cursor_done,
        v.parallel == 0,
        v.position == 0,
        v.launched == 0,
        v.batch.len() == 0,
        v.parallelism_target >= 1,
    ensures
        after_start(v).1.written.len() == 0,
        fifo_run(after_start(v).0, after_start(v).1.launches, latency) == constant_records(
            0,
            v.items.len() as int,
            latency,
        ),
{
    let (started, out) = after_start(v);
    lemma_fifo_run(started, out.launches, latency, 0);
    assert(v.batch + constant_records(0, v.items.len() as int, latency) =~= constant_records(
        0,
        v.items.len() as int,
        latency,
    ));
}

/// The records of the ranks `from` to `to - 1`, each answered after
/// `latency`, decode to the pairs of each rank and the latency in tens of
/// nanoseconds.
pub proof fn lemma_constant_records_decode(from: int, to: int, latency: u64)
    requires
        0 <= from <= to <= 0x1_0000_0000,
    ensures
        constant_records(from, to, latency).len() == 8 * (to - from),
        crate::result_stream::records_of(constant_records(from, to, latency)) == Seq::new(
            (to - from) as nat,
            |k: int| ((from + k) as u32, crate::result_stream::latency_units(latency)),
        ),
    decreases to - from,
{
    let all = constant_records(from, to, latency);
    let expected = Seq::new(
        (to - from) as nat,
        |k: int| ((from + k) as u32, crate::result_stream::latency_units(latency)),
    );
    if from < to {
        let first = record_bytes(from as u32, latency);
        let rest = constant_records(from + 1, to, latency);
        lemma_constant_records_decode(from + 1, to, latency);
        crate::result_stream::lemma_record_round_trip(from as u32, latency);
        assert forall|k: int| 0 <= k < to - from implies #[trigger] crate::result_stream::records_of(
            all,
        )[k] == expected[k] by {
            if k == 0 {
                assert(all.subrange(0, 4) =~= first.subrange(0, 4));
                assert(all.subrange(4, 8) =~= first.subrange(4, 8));
            } else {
                assert(all.subrange(8 * k, 8 * k + 4) =~= rest.subrange(
                    8 * (k - 1),
                    8 * (k - 1) + 4,
                ));
                assert(all.subrange(8 * k + 4, 8 * k + 8) =~= rest.subrange(
                    8 * (k - 1) + 4,
                    8 * (k - 1) + 8,
                ));
                assert(crate::result_stream::records_of(rest)[k - 1] == (
                    (from + 1 + (k - 1)) as u32,
                    crate::result_stream::latency_units(latency),
                ));
            }
        }
        assert(crate::result_stream::records_of(all) =~= expected);
    } else {
        assert(crate::result_stream::records_of(all) =~= expected);
    }
}

/// While the link is down no probe is launched, whatever comes in, until
/// the link is back.
pub proof fn lemma_link_down_launches_nothing(v: ScanView, event: Event)
    requires
        v.link_down,
        !(event is LinkUp),
    ensures
        after_event(v, event).1.launches.len() == 0,
        after_event(v, event).0.position == v.position,
        !after_event(v, event).0.finished ==> after_event(v, event).0.link_down,
{
}

/// When the link comes back the cursor stands as many targets back as
/// results were handled since the checkpoint, as far as targets precede it,
/// and the probes that are launched are of the targets from there on.
pub proof fn lemma_link_up_rewinds(v: ScanView)
    requires
        view_wf(v),
        v.link_down,
        !v.finished,
    ensures
        ({
            let (next, out) = after_event(v, Event::LinkUp);
            let back = rewound(v.position, v.since_checkpoint);
            &&& !next.link_down
            &&& next.since_checkpoint == 0
            &&& next.progress == v.progress - v.since_checkpoint
            &&& out.launches == wave(v.items, back, free_slots(v))
            &&& forall|k: int|
                0 <= k < out.launches.len() ==> (#[trigger] out.launches[k]).index == back + k
        }),
{
}

/// The scan driver over the targets of a cursor.
pub struct ScanDriver<C: Cursor<Item = u32>> {
    cursor: C,
    position: u32,
    parallelism_target: usize,
    parallel: usize,
    progress: u64,
    since_checkpoint: u64,
    launched: u64,
    cursor_done: bool,
    link_down: bool,
    finished: bool,
    batch: Vec<u8>,
    load_min: u64,
    load_max: u64,
}

impl<C: Cursor<Item = u32>> View for ScanDriver<C> {
    type V = ScanView;

    closed spec fn view(&self) -> ScanView {
        ScanView {
            items: self.cursor.items(),
            position: self.position as int,
            parallelism_target: self.parallelism_target as nat,
            parallel: self.parallel as nat,
            progress: self.progress as nat,
            since_checkpoint: self.since_checkpoint as nat,
            launched: self.launched as nat,
            cursor_done: self.cursor_done,
            link_down: self.link_down,
            finished: self.finished,
            batch: self.batch@,
            load_min: self.load_min as nat,
            load_max: self.load_max as nat,
        }
    }
}

impl<C: Cursor<Item = u32>> ScanDriver<C> {
    /// The invariant of the driver: a valid cursor that stands where the model says.
    pub closed spec fn wf(&self) -> bool {
        &&& self.cursor.wf()
        &&& self.cursor.position() == self.position
        &&& view_wf(self@)
    }

    /// A driver at the start of `cursor`, that aims at `parallelism - 1`
    /// probes in flight: one slot is left to the link monitor.
    pub fn new(cursor: C, parallelism: u32, load_min: u64, load_max: u64) -> (driver: Self)
        requires
            cursor.wf(),
            cursor.position() == 0,
            cursor.items().len() <= 0x1_0000_0000,
            parallelism >= 1,
        ensures
            driver.wf(),
            driver@ == (ScanView {
                items: cursor.items(),
                position: 0,
                parallelism_target: (parallelism - 1) as nat,
                parallel: 0,
                progress: 0,
                since_checkpoint: 0,
                launched: 0,
                cursor_done: false,
                link_down: false,
                finished: false,
                batch: Seq::empty(),
                load_min: load_min as nat,
                load_max: load_max as nat,
            }),
    {
        proof {
            cursor.lemma_position_in_range();
            assert(records_of(Seq::<u8>::empty()).len() == 0);
        }
        Self {
            cursor,
            position: 0,
            parallelism_target: (parallelism - 1) as usize,
            parallel: 0,
            progress: 0,
            since_checkpoint: 0,
            launched: 0,
            cursor_done: false,
            link_down: false,
            finished: false,
            batch: Vec::new(),
            load_min,
            load_max,
        }
    }

    /// Fills the free slots with probes of the targets from the cursor on.
    fn reseed(&mut self, launches: &mut Vec<Launch>)
        requires
            old(self).wf(),
        ensures
            final(self).wf(),
            final(self)@ == after_reseed(old(self)@).0,
            final(launches)@ == old(launches)@ + after_reseed(old(self)@).1,
    {
        let slots: usize = if self.parallelism_target > self.parallel {
            self.parallelism_target - self.parallel
        } else {
            0
        };
        let ghost start = self@;
        let ghost len = start.items.len() as int;
        let mut k: usize = 0;
        let mut ended = false;
        while k < slots && !ended
            invariant
                self.wf(),
                start == old(self)@,
                view_wf(start),
                len == start.items.len(),
                slots == free_slots(start),
                k <= slots,
                ended ==> k > 0 && self@.position == len - 1 && self@.position == start.position + k
                    - 1,
                !ended ==> self@.position == start.position + k,
                self@ == (ScanView {
                    position: self@.position,
                    parallel: (start.parallel + k) as nat,
                    launched: reach(start.launched, start.position + k),
                    cursor_done: start.cursor_done || ended,
                    ..start
                }),
                launches@.len() == old(launches)@.len() + k,
                forall|j: int|
                    0 <= j < old(launches)@.len() ==> launches@[j] == #[trigger] old(
                        launches,
                    )@[j],
                forall|i: int|
                    old(launches)@.len() <= i < launches@.len() ==> #[trigger] launches@[i] == (
                    Launch {
                        index: (start.position + (i - old(launches)@.len())) as u32,
                        target: start.items[start.position + (i - old(launches)@.len())],
                    }),
            decreases slots - k + (if ended { 0int } else { 1int }),
        {
            let target = self.cursor.value();
            launches.push(Launch { index: self.position, target });
            self.parallel += 1;
            k += 1;
            if self.launched <= self.position as u64 {
                self.launched = self.position as u64 + 1;
            }
            if self.cursor.move_next().is_err() {
                self.cursor_done = true;
                ended = true;
            } else {
                self.position += 1;
            }
        }
        proof {
            let (next, wave) = after_reseed(start);
            assert(wave.len() == k);
            assert(launches@ =~= old(launches)@ + wave);
            assert(self@ == next);
        }
    }

    /// Starts the scan: launches the first wave of probes.
    pub fn start(&mut self) -> (outcome: Outcome)
        requires
            old(self).wf(),
        ensures
            final(self).wf(),
            (final(self)@, outcome@) == after_start(old(self)@),
    {
        let mut launches: Vec<Launch> = Vec::new();
        if self.finished {
            return Outcome { launches, written: Vec::new(), finished: true };
        }
        self.reseed(&mut launches);
        assert(launches@ =~= after_reseed(old(self)@).1);
        Outcome { launches, written: Vec::new(), finished: false }
    }

    /// Handles the result of probe `index`.
    pub fn on_ping_result(&mut self, index: u32, latency: Option<u64>) -> (outcome: Outcome)
        requires
            old(self).wf(),
        ensures
            final(self).wf(),
            (final(self)@, outcome@) == after_result(old(self)@, index, latency),
    {
        let mut launches: Vec<Launch> = Vec::new();
        let mut written: Vec<u8> = Vec::new();
        if self.finished {
            return Outcome { launches, written, finished: true };
        }
        if index as u64 >= self.launched {
            return Outcome { launches, written, finished: false };
        }
        if self.progress < u64::MAX {
            self.progress += 1;
        }
        if self.since_checkpoint < u64::MAX {
            self.since_checkpoint += 1;
        }
        if let Some(nanos) = latency {
            proof {
                lemma_record_in_range(self.batch@, self.launched as nat, index, nanos);
            }
            let mut record = encode_result(index, nanos);
            self.batch.append(&mut record);
            let records: usize = self.batch.len() / 8;
            if records as u128 > 10 * (self.parallelism_target as u128) {
                core::mem::swap(&mut written, &mut self.batch);
            }
        }
        let ghost flushed = written@;
        let ghost kept = self.batch@;
        if !self.cursor_done && !self.link_down && self.parallel >= self.parallelism_target {
            let target = self.cursor.value();
            launches.push(Launch { index: self.position, target });
            if self.launched <= self.position as u64 {
                self.launched = self.position as u64 + 1;
            }
            if self.cursor.move_next().is_err() {
                self.cursor_done = true;
            } else {
                self.position += 1;
            }
            proof {
                let (next, out) = after_result(old(self)@, index, latency);
                assert(launches@ =~= out.launches);
                assert(written@ =~= out.written);
                assert(self@.batch =~= next.batch);
                assert(self@ == next);
            }
            Outcome { launches, written, finished: false }
        } else {
            if self.parallel > 0 {
                self.parallel -= 1;
            }
            if self.parallel == 0 && self.cursor_done {
                self.finished = true;
                written.append(&mut self.batch);
            }
            proof {
                let (next, out) = after_result(old(self)@, index, latency);
                assert(launches@ =~= out.launches);
                assert(written@ =~= out.written);
                assert(self@.batch =~= next.batch);
                assert(self@ == next);
            }
            let finished = self.finished;
            Outcome { launches, written, finished }
        }
    }

    /// Handles the return of the link.
    pub fn on_link_up(&mut self) -> (outcome: Outcome)
        requires
            old(self).wf(),
        ensures
            final(self).wf(),
            (final(self)@, outcome@) == after_link_up(old(self)@),
    {
        let mut launches: Vec<Launch> = Vec::new();
        if self.finished {
            return Outcome { launches, written: Vec::new(), finished: true };
        }
        if self.link_down {
            let mut back: u64 = 0;
            while back < self.since_checkpoint && self.position > 0
                invariant
                    self.wf(),
                    back <= self.since_checkpoint,
                    self@.position == rewound(old(self)@.position, back as nat),
                    self@.position == old(self)@.position - back,
                    self@ == (ScanView { position: self@.position, ..old(self)@ }),
                decreases self.since_checkpoint - back,
            {
                let _ = self.cursor.move_prev();
                self.position -= 1;
                back += 1;
            }
            self.progress -= self.since_checkpoint;
            self.since_checkpoint = 0;
            self.link_down = false;
            self.reseed(&mut launches);
            proof {
                let (next, out) = after_link_up(old(self)@);
                assert(launches@ =~= out.launches);
                assert(self@ == next);
            }
        } else {
            self.since_checkpoint = 0;
        }
        Outcome { launches, written: Vec::new(), finished: false }
    }

    /// Handles the loss of the link.
    pub fn on_link_down(&mut self) -> (outcome: Outcome)
        requires
            old(self).wf(),
        ensures
            final(self).wf(),
            (final(self)@, outcome@) == after_link_down(old(self)@),
    {
        if self.finished {
            return Outcome { launches: Vec::new(), written: Vec::new(), finished: true };
        }
        self.link_down = true;
        Outcome { launches: Vec::new(), written: Vec::new(), finished: false }
    }

    /// Handles a load sample, in thousandths.
    pub fn on_cpu_load(&mut self, load: u64) -> (outcome: Outcome)
        requires
            old(self).wf(),
        ensures
            final(self).wf(),
            (final(self)@, outcome@) == after_cpu_load(old(self)@, load),
    {
        if self.finished {
            return Outcome { launches: Vec::new(), written: Vec::new(), finished: true };
        }
        self.parallelism_target = adapt_target(
            self.parallelism_target,
            load,
            self.load_min,
            self.load_max,
        );
        Outcome { launches: Vec::new(), written: Vec::new(), finished: false }
    }

    /// Handles one event.
    pub fn step(&mut self, event: Event) -> (outcome: Outcome)
        requires
            old(self).wf(),
        ensures
            final(self).wf(),
            (final(self)@, outcome@) == after_event(old(self)@, event),
    {
        match event {
            Event::PingResult { index, latency } => self.on_ping_result(index, latency),
            Event::LinkUp => self.on_link_up(),
            Event::LinkDown => self.on_link_down(),
            Event::CpuLoad(load) => self.on_cpu_load(load),
        }
    }

    /// Whether the scan is over.
    pub fn is_finished(&self) -> (finished: bool)
        ensures
            finished == self@.finished,
    {
        self.finished
    }

    /// How many results were handled, less those taken back by a rewind.
    pub fn progress(&self) -> (progress: u64)
        ensures
            progress == self@.progress,
    {
        self.progress
    }

    /// How many probes the driver counts as in flight.
    pub fn in_flight(&self) -> (parallel: usize)
        ensures
            parallel == self@.parallel,
    {
        self.parallel
    }

    /// The parallelism target.
    pub fn parallelism_target(&self) -> (target: usize)
        ensures
            target == self@.parallelism_target,
    {
        self.parallelism_target
    }
}

} // verus!
