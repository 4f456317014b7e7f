//! The length of a route: a dichotomic search for the smallest time-to-live
//! that reaches the destination, then a sweep around it that counts how
//! often each time-to-live reaches it.
//!
//! `RouteMeasure` decides which time-to-live to probe next and what to
//! report; the program around it sends the probes and hands back their
//! results.

use vstd::prelude::*;
use crate::probe::{PingError, PingErrorView, ProbeReport, RouteNode};

verus! {

/// How often a time-to-live reached the destination.
#[derive(Debug, Clone, Copy, PartialEq, Eq, Structural)]
pub struct TtlStat {
    pub ttl: u8,
    pub stat: u8,
}

/// What the measure found.
#[derive(Debug, Clone, PartialEq, Eq)]
pub enum RouteMeasureResult {
    /// One time-to-live was counted: the route has this length.
    Stable(u8),
    /// None or several were counted: the counts, in the order they were taken.
    Unstable(Vec<TtlStat>),
}

/// The model of a `RouteMeasureResult`.
pub enum RouteMeasureResultView {
    Stable(u8),
    Unstable(Seq<TtlStat>),
}

impl View for RouteMeasureResult {
    type V = RouteMeasureResultView;

    open spec fn view(&self) -> RouteMeasureResultView {
        match *self {
            RouteMeasureResult::Stable(ttl) => RouteMeasureResultView::Stable(ttl),
            RouteMeasureResult::Unstable(stats) => RouteMeasureResultView::Unstable(stats@),
        }
    }
}

/// What the measure reports while it runs.
#[derive(Debug, Clone, PartialEq, Eq)]
pub enum RouteMeasureData {
    /// The destination answered, after this latency.
    Ping(u64),
    /// A router answered that the time-to-live ran out.
    TimeExceeded(RouteNode),
    /// The measure is over.
    Result(RouteMeasureResult),
}

impl RouteMeasureData {
    /// What the measure reports of a probe.
    pub fn from_report(report: ProbeReport) -> (data: Self)
        ensures
            match report {
                ProbeReport::Ping(latency) => data == RouteMeasureData::Ping(latency),
                ProbeReport::TimeExceeded(node) => data == RouteMeasureData::TimeExceeded(node),
            },
    {
        match report {
            ProbeReport::Ping(latency) => RouteMeasureData::Ping(latency),
            ProbeReport::TimeExceeded(node) => RouteMeasureData::TimeExceeded(node),
        }
    }
}

/// What a probe showed, as far as the measure reads it.
pub enum Seen {
    /// The destination answered.
    Reply(u64),
    /// The time-to-live ran out on the way.
    Exceeded(RouteNode),
    /// Anything else: the probe failed.
    Failed,
}

/// What a probe with `result` showed.
pub open spec fn seen(result: Result<u64, PingErrorView>) -> Seen {
    match result {
        Ok(latency) => Seen::Reply(latency),
        Err(PingErrorView::TimeExceeded { addr, latency }) => Seen::Exceeded(
            RouteNode { addr, latency },
        ),
        Err(_) => Seen::Failed,
    }
}

/// Where the measure stands.
#[derive(Debug, Clone, Copy, PartialEq, Eq, Structural)]
pub enum Phase {
    /// The probe at the largest time-to-live is awaited.
    Reachability,
    /// The search probes `distance` and will move by half of `diff`.
    Search { diff: u8, distance: u8 },
    /// The sweep upwards counts at `ttl`: `tried` probes so far, `successes` of them answered.
    Upper { ttl: u8, tried: u8, successes: u8 },
    /// The sweep downwards counts at `ttl`.
    Lower { ttl: u8, tried: u8, successes: u8 },
    /// The measure is over.
    Done,
}

/// The model of the measure.
pub struct MeasureView {
    /// The largest time-to-live that is probed.
    pub max_ttl: u8,
    /// The number of probes per time-to-live in the sweep.
    pub stats_retries: u8,
    /// Where the measure stands.
    pub phase: Phase,
    /// The distance that the search found; 0 until it has.
    pub distance: u8,
    /// The counts taken so far.
    pub stats: Seq<TtlStat>,
}

/// One step of the search from `distance` with step `diff`, after the
/// destination answered (`replied`) or a router did.
///
/// After an answer the step is halved and the distance lowered by it. After
/// a router the step is halved, but not below one, and the distance raised
/// by it: `None` where that leaves the range of a time-to-live.
pub open spec fn search_step(diff: u8, distance: u8, replied: bool) -> Option<(u8, u8)> {
    if replied {
        Some(((diff / 2) as u8, (distance - diff / 2) as u8))
    } else {
        let step = if diff / 2 == 0 {
            1
        } else {
            diff / 2
        };
        if distance + step > 255 {
            None
        } else {
            Some((step as u8, (distance + step) as u8))
        }
    }
}

/// The distance that the search ends on, on a path where exactly the
/// time-to-lives from `target` on reach the destination. `None` where the
/// search leaves the range of a time-to-live.
pub open spec fn search_on_path(diff: u8, distance: u8, target: int) -> Option<u8>
    decreases diff, target - distance,
{
    if diff == 0 {
        Some(distance)
    } else if distance < diff {
        None
    } else {
        match search_step(diff, distance, distance >= target) {
            None => None,
            Some((next_diff, next_distance)) => search_on_path(next_diff, next_distance, target),
        }
    }
}

/// Whether `n` is a power of two that a time-to-live can hold.
pub open spec fn is_power_of_two(n: u8) -> bool {
    n == 1 || n == 2 || n == 4 || n == 8 || n == 16 || n == 32 || n == 64 || n == 128
}

/// While the step is a power of two and the target lies within a step of
/// the distance, the search ends on the target.
proof fn lemma_search_bisects(diff: u8, distance: u8, target: int)
    requires
        diff == 0 || is_power_of_two(diff),
        diff <= 64,
        distance >= diff,
        target <= 128,
        diff == 0 ==> target == distance,
        diff != 0 ==> distance - diff < target <= distance + diff,
    ensures
        search_on_path(diff, distance, target) == Some(target as u8),
    decreases diff, target - distance,
{
    if diff != 0 {
        let (next_diff, next_distance) = search_step(diff, distance, distance >= target).unwrap();
        if distance >= target {
            lemma_search_bisects(next_diff, next_distance, target);
        } else {
            lemma_search_bisects(next_diff, next_distance, target);
        }
    }
}

/// On a path where exactly the time-to-lives from `target` on reach the
/// destination, the search from a largest time-to-live that is a power of
/// two ends on `target`.
pub proof fn lemma_search_finds_distance(max_ttl: u8, target: int)
    requires
        is_power_of_two(max_ttl),
        1 <= target <= max_ttl,
    ensures
        search_on_path((max_ttl / 2) as u8, (max_ttl - max_ttl / 2) as u8, target) == Some(
            target as u8,
        ),
{
    lemma_search_bisects((max_ttl / 2) as u8, (max_ttl - max_ttl / 2) as u8, target);
}

/// On a path where exactly the time-to-lives from `target` on reach the
/// destination, the search never leaves the range and never ends below
/// `target` nor above the largest time-to-live it began under.
proof fn lemma_search_bounds(diff: u8, distance: u8, target: int, max_ttl: u8)
    requires
        1 <= target <= max_ttl,
        distance >= diff,
        distance <= max_ttl,
        diff >= 2 ==> distance + diff <= max_ttl,
        diff == 0 ==> distance >= target,
    ensures
        search_on_path(diff, distance, target) matches Some(found) && target <= found <= max_ttl,
    decreases diff, target - distance,
{
    if diff != 0 {
        let (next_diff, next_distance) = search_step(diff, distance, distance >= target).unwrap();
        lemma_search_bounds(next_diff, next_distance, target, max_ttl);
    }
}

/// On a path where exactly the time-to-lives from `target` on reach the
/// destination, the search ends on a time-to-live that reaches it, within
/// the largest one.
pub proof fn lemma_search_reaches_destination(max_ttl: u8, target: int)
    requires
        1 <= target <= max_ttl,
    ensures
        search_on_path((max_ttl / 2) as u8, (max_ttl - max_ttl / 2) as u8, target) matches Some(
            found,
        ) && target <= found <= max_ttl,
{
    lemma_search_bounds((max_ttl / 2) as u8, (max_ttl - max_ttl / 2) as u8, target, max_ttl);
}

/// What the measure found, from the counts it took: stable where there is
/// exactly one count.
pub open spec fn conclusion_of(stats: Seq<TtlStat>) -> RouteMeasureResultView {
    if stats.len() == 1 {
        RouteMeasureResultView::Stable(stats[0].ttl)
    } else {
        RouteMeasureResultView::Unstable(stats)
    }
}

/// The measure at the end.
pub open spec fn concluded(v: MeasureView) -> (MeasureView, Option<RouteMeasureResultView>) {
    (MeasureView { phase: Phase::Done, ..v }, Some(conclusion_of(v.stats)))
}

/// The measure when the sweep downwards begins, below the distance found:
/// it counts at the time-to-live just below, unless there is none.
pub open spec fn lower_entered(v: MeasureView) -> (MeasureView, Option<RouteMeasureResultView>) {
    if v.stats_retries > 0 && v.distance > 1 {
        (
            MeasureView {
                phase: Phase::Lower { ttl: (v.distance - 1) as u8, tried: 0, successes: 0 },
                ..v
            },
            None,
        )
    } else {
        concluded(v)
    }
}

/// The measure when the search ended on `distance`: the sweep upwards
/// begins there, unless nothing is to be counted.
pub open spec fn search_ended(v: MeasureView, distance: u8) -> (
    MeasureView,
    Option<RouteMeasureResultView>,
) {
    let found = MeasureView { distance, ..v };
    if v.stats_retries > 0 && distance <= v.max_ttl {
        (MeasureView { phase: Phase::Upper { ttl: distance, tried: 0, successes: 0 }, ..found }, None)
    } else {
        lower_entered(found)
    }
}

/// The measure when the search goes on, or ends because its step fell to zero.
pub open spec fn search_continued(v: MeasureView, diff: u8, distance: u8) -> (
    MeasureView,
    Option<RouteMeasureResultView>,
) {
    if diff == 0 {
        search_ended(v, distance)
    } else {
        (MeasureView { phase: Phase::Search { diff, distance }, ..v }, None)
    }
}

/// Whether a probe with this outcome stops the measure with an error.
///
/// The first probe has to reach the destination. During the search a probe
/// that failed stops the measure, and so does a router's answer that would
/// take the search out of the range of a time-to-live. During the sweeps
/// only a probe that failed does.
pub open spec fn aborts(v: MeasureView, outcome: Seen) -> bool {
    match v.phase {
        Phase::Reachability => !(outcome is Reply),
        Phase::Search { diff, distance } => outcome is Failed || (outcome is Exceeded
            && search_step(diff, distance, false).is_none()),
        Phase::Upper { .. } => outcome is Failed,
        Phase::Lower { .. } => outcome is Failed,
        Phase::Done => false,
    }
}

/// The measure after a probe with `outcome` that does not stop it, with the
/// result if this probe was the last.
pub open spec fn after_probe(v: MeasureView, outcome: Seen) -> (
    MeasureView,
    Option<RouteMeasureResultView>,
) {
    let hit: int = if outcome is Reply {
        1
    } else {
        0
    };
    match v.phase {
        Phase::Reachability => search_continued(
            v,
            (v.max_ttl / 2) as u8,
            (v.max_ttl - v.max_ttl / 2) as u8,
        ),
        Phase::Search { diff, distance } => {
            let (next_diff, next_distance) = search_step(diff, distance, outcome is Reply).unwrap();
            search_continued(v, next_diff, next_distance)
        },
        Phase::Upper { ttl, tried, successes } => {
            if tried + 1 < v.stats_retries {
                (
                    MeasureView {
                        phase: Phase::Upper {
                            ttl,
                            tried: (tried + 1) as u8,
                            successes: (successes + hit) as u8,
                        },
                        ..v
                    },
                    None,
                )
            } else {
                let counted = MeasureView {
                    stats: v.stats.push(TtlStat { ttl, stat: (successes + hit) as u8 }),
                    ..v
                };
                if successes + hit < v.stats_retries && ttl < v.max_ttl {
                    (
                        MeasureView {
                            phase: Phase::Upper { ttl: (ttl + 1) as u8, tried: 0, successes: 0 },
                            ..counted
                        },
                        None,
                    )
                } else {
                    lower_entered(counted)
                }
            }
        },
        Phase::Lower { ttl, tried, successes } => {
            if tried + 1 < v.stats_retries {
                (
                    MeasureView {
                        phase: Phase::Lower {
                            ttl,
                            tried: (tried + 1) as u8,
                            successes: (successes + hit) as u8,
                        },
                        ..v
                    },
                    None,
                )
            } else if successes + hit > 0 {
                let counted = MeasureView {
                    stats: v.stats.push(TtlStat { ttl, stat: (successes + hit) as u8 }),
                    ..v
                };
                if ttl > 1 {
                    (
                        MeasureView {
                            phase: Phase::Lower { ttl: (ttl - 1) as u8, tried: 0, successes: 0 },
                            ..counted
                        },
                        None,
                    )
                } else {
                    concluded(counted)
                }
            } else {
                concluded(v)
            }
        },
        Phase::Done => (v, None),
    }
}

/// What a model has to meet.
pub open spec fn view_wf(v: MeasureView) -> bool {
    &&& v.max_ttl >= 1
    &&& match v.phase {
        Phase::Reachability => true,
        Phase::Search { diff, distance } => diff >= 1 && distance >= diff,
        Phase::Upper { ttl, tried, successes } => successes <= tried < v.stats_retries && ttl
            <= v.max_ttl,
        Phase::Lower { ttl, tried, successes } => successes <= tried < v.stats_retries && ttl >= 1,
        Phase::Done => true,
    }
}

/// The time-to-live of the next probe, while the measure runs.
pub open spec fn next_ttl(v: MeasureView) -> Option<u8> {
    match v.phase {
        Phase::Reachability => Some(v.max_ttl),
        Phase::Search { diff, distance } => Some(distance),
        Phase::Upper { ttl, .. } => Some(ttl),
        Phase::Lower { ttl, .. } => Some(ttl),
        Phase::Done => None,
    }
}

/// What a probe with `ttl` shows on a path where exactly the time-to-lives
/// from `target` on reach the destination.
pub open spec fn seen_on_path(ttl: u8, target: int) -> Seen {
    if ttl >= target {
        Seen::Reply(0)
    } else {
        Seen::Exceeded(RouteNode { addr: 0, latency: 0 })
    }
}

/// The order of the phases: each phase comes after those of a higher rank.
pub open spec fn phase_rank(phase: Phase) -> int {
    match phase {
        Phase::Reachability => 4,
        Phase::Search { .. } => 3,
        Phase::Upper { .. } => 2,
        Phase::Lower { .. } => 1,
        Phase::Done => 0,
    }
}

/// How far a phase is from its end, in steps of the search or in time-to-lives.
pub open spec fn phase_distance(v: MeasureView) -> int {
    match v.phase {
        Phase::Search { diff, distance } => diff as int,
        Phase::Upper { ttl, .. } => v.max_ttl - ttl,
        Phase::Lower { ttl, .. } => ttl as int,
        _ => 0,
    }
}

/// How far a step of a phase is from its end, in probes.
pub open spec fn step_distance(v: MeasureView, target: int) -> int {
    match v.phase {
        Phase::Search { diff, distance } => target - distance,
        Phase::Upper { tried, .. } => v.stats_retries - tried,
        Phase::Lower { tried, .. } => v.stats_retries - tried,
        _ => 0,
    }
}

/// What the measure concludes on a path where exactly the time-to-lives
/// from `target` on reach the destination; `None` where it stops with an error.
pub open spec fn conclusion_on_path(v: MeasureView, target: int) -> Option<RouteMeasureResultView>
    decreases phase_rank(v.phase), phase_distance(v), step_distance(v, target),
{
    match next_ttl(v) {
        None => None,
        Some(ttl) => {
            if !view_wf(v) || aborts(v, seen_on_path(ttl, target)) {
                None
            } else {
                let (next, conclusion) = after_probe(v, seen_on_path(ttl, target));
                if conclusion.is_some() {
                    conclusion
                } else {
                    conclusion_on_path(next, target)
                }
            }
        },
    }
}

/// The counts of the time-to-lives from `from` down to `to`, each with every probe answered.
pub open spec fn full_counts(from: int, to: int, retries: u8) -> Seq<TtlStat> {
    Seq::new(
        if from >= to {
            (from - to + 1) as nat
        } else {
            0
        },
        |k: int| TtlStat { ttl: (from - k) as u8, stat: retries },
    )
}

/// On the path, the sweep downwards from `ttl` counts every time-to-live
/// down to `target` in full, and ends there.
proof fn lemma_lower_on_path(v: MeasureView, target: int, found: int)
    requires
        view_wf(v),
        1 <= target <= found <= 255,
        v.stats_retries >= 1,
        v.phase matches Phase::Lower { ttl, tried, successes } && (if ttl >= target {
            successes == tried
        } else {
            successes == 0
        }) && target - 1 <= ttl < found && v.stats == full_counts(found, ttl + 1, v.stats_retries),
    ensures
        conclusion_on_path(v, target) == Some(
            conclusion_of(full_counts(found, target, v.stats_retries)),
        ),
    decreases phase_rank(v.phase), phase_distance(v), step_distance(v, target),
{
    match v.phase {
        Phase::Lower { ttl, tried, successes } => {
            let (next, conclusion) = after_probe(v, seen_on_path(ttl, target));
            if tried + 1 < v.stats_retries {
                lemma_lower_on_path(next, target, found);
            } else if ttl >= target {
                assert(next.stats =~= full_counts(found, ttl as int, v.stats_retries));
                if ttl > 1 {
                    lemma_lower_on_path(next, target, found);
                } else {
                    assert(conclusion == Some(conclusion_of(next.stats)));
                }
            } else {
                assert(v.stats =~= full_counts(found, target, v.stats_retries));
            }
        },
        _ => {},
    }
}

/// On the path, the sweep upwards from the time-to-live `found` that the
/// search ended on counts it in full and goes over to the sweep downwards.
proof fn lemma_upper_on_path(v: MeasureView, target: int, found: int)
    requires
        view_wf(v),
        1 <= target <= found <= v.max_ttl,
        v.stats_retries >= 1,
        v.distance == found,
        v.stats.len() == 0,
        v.phase matches Phase::Upper { ttl, tried, successes } && ttl == found && successes
            == tried,
    ensures
        conclusion_on_path(v, target) == Some(
            conclusion_of(full_counts(found, target, v.stats_retries)),
        ),
    decreases phase_rank(v.phase), phase_distance(v), step_distance(v, target),
{
    match v.phase {
        Phase::Upper { ttl, tried, successes } => {
            let (next, conclusion) = after_probe(v, seen_on_path(ttl, target));
            if tried + 1 < v.stats_retries {
                lemma_upper_on_path(next, target, found);
            } else {
                let counted = v.stats.push(TtlStat { ttl, stat: v.stats_retries });
                assert(counted =~= full_counts(found, found, v.stats_retries));
                if found > 1 {
                    assert(next.stats == counted);
                    lemma_lower_on_path(next, target, found);
                } else {
                    assert(conclusion == Some(conclusion_of(counted)));
                }
            }
        },
        _ => {},
    }
}

/// On the path, the search goes on as `search_on_path` says and the sweeps
/// follow from the time-to-live it ends on.
proof fn lemma_search_phase_on_path(v: MeasureView, target: int)
    requires
        view_wf(v),
        1 <= target <= v.max_ttl,
        v.stats_retries >= 1,
        v.stats.len() == 0,
        v.phase matches Phase::Search { diff, distance } && distance <= v.max_ttl && (diff >= 2
            ==> distance + diff <= v.max_ttl),
    ensures
        ({
            let found = search_on_path(
                v.phase->Search_diff,
                v.phase->Search_distance,
                target,
            ).unwrap();
            conclusion_on_path(v, target) == Some(
                conclusion_of(full_counts(found as int, target, v.stats_retries)),
            )
        }),
    decreases phase_rank(v.phase), phase_distance(v), step_distance(v, target),
{
    match v.phase {
        Phase::Search { diff, distance } => {
            lemma_search_bounds(diff, distance, target, v.max_ttl);
            let (next_diff, next_distance) = search_step(diff, distance, distance >= target).unwrap();
            let (next, conclusion) = after_probe(v, seen_on_path(distance, target));
            assert(search_on_path(diff, distance, target) == search_on_path(
                next_diff,
                next_distance,
                target,
            ));
            assert(!aborts(v, seen_on_path(distance, target)));
            assert(next_ttl(v) == Some(distance));
            if next_diff == 0 {
                assert(search_on_path(next_diff, next_distance, target) == Some(next_distance));
                assert(conclusion.is_none());
                assert(conclusion_on_path(v, target) == conclusion_on_path(next, target));
                lemma_upper_on_path(next, target, next_distance as int);
            } else {
                assert(conclusion.is_none());
                assert(conclusion_on_path(v, target) == conclusion_on_path(next, target));
                lemma_search_phase_on_path(next, target);
            }
        },
        _ => {},
    }
}

/// On a path where exactly the time-to-lives from `target` on reach the
/// destination, the measure counts every time-to-live from the one its
/// search ended on down to `target`, each with all its probes answered, and
/// nothing else: the smallest time-to-live it reports is the length of the
/// route. Where the search ended on the length, the result is stable.
pub proof fn lemma_measure_on_path(max_ttl: u8, stats_retries: u8, target: int)
    requires
        1 <= target <= max_ttl,
        stats_retries >= 1,
    ensures
        ({
            let start = MeasureView {
                max_ttl,
                stats_retries,
                phase: Phase::Reachability,
                distance: 0,
                stats: Seq::empty(),
            };
            let found = search_on_path(
                (max_ttl / 2) as u8,
                (max_ttl - max_ttl / 2) as u8,
                target,
            ).unwrap();
            &&& target <= found <= max_ttl
            &&& conclusion_on_path(start, target) == Some(
                conclusion_of(full_counts(found as int, target, stats_retries)),
            )
            &&& found == target ==> conclusion_on_path(start, target) == Some(
                RouteMeasureResultView::Stable(target as u8),
            )
            &&& is_power_of_two(max_ttl) ==> found == target
        }),
{
    let start = MeasureView {
        max_ttl,
        stats_retries,
        phase: Phase::Reachability,
        distance: 0,
        stats: Seq::empty(),
    };
    let diff = (max_ttl / 2) as u8;
    let distance = (max_ttl - max_ttl / 2) as u8;
    lemma_search_reaches_destination(max_ttl, target);
    if is_power_of_two(max_ttl) {
        lemma_search_finds_distance(max_ttl, target);
    }
    let (next, conclusion) = after_probe(start, seen_on_path(max_ttl, target));
    if diff == 0 {
        lemma_upper_on_path(next, target, distance as int);
    } else {
        lemma_search_phase_on_path(next, target);
    }
    let found = search_on_path(diff, distance, target).unwrap();
    if found == target {
        assert(full_counts(found as int, target, stats_retries).len() == 1);
    }
}

/// What one probe made the measure do.
pub struct MeasureStep {
    /// What to report of the probe: its latency, the router that answered, or the error.
    /// `None` once the measure is over.
    pub report: Option<Result<ProbeReport, PingError>>,
    /// The result of the measure, if this probe was the last.
    pub conclusion: Option<RouteMeasureResult>,
}

/// The dichotomic route-length measure.
pub struct RouteMeasure {
    max_ttl: u8,
    stats_retries: u8,
    phase: Phase,
    distance: u8,
    stats: Vec<TtlStat>,
}

impl View for RouteMeasure {
    type V = MeasureView;

    closed spec fn view(&self) -> MeasureView {
        MeasureView {
            max_ttl: self.max_ttl,
            stats_retries: self.stats_retries,
            phase: self.phase,
            distance: self.distance,
            stats: self.stats@,
        }
    }
}

/// The model of an optional result.
pub open spec fn conclusion_view(conclusion: Option<RouteMeasureResult>) -> Option<
    RouteMeasureResultView,
> {
    match conclusion {
        Some(result) => Some(result@),
        None => None,
    }
}

impl RouteMeasure {
    /// The invariant of the measure.
    pub open spec fn wf(&self) -> bool {
        view_wf(self@)
    }

    /// A measure that probes up to `max_ttl` and counts `stats_retries` probes
    /// per time-to-live.
    pub fn new(max_ttl: u8, stats_retries: u8) -> (measure: Self)
        requires
            max_ttl >= 1,
        ensures
            measure.wf(),
            measure@ == (MeasureView {
                max_ttl,
                stats_retries,
                phase: Phase::Reachability,
                distance: 0,
                stats: Seq::empty(),
            }),
    {
        Self { max_ttl, stats_retries, phase: Phase::Reachability, distance: 0, stats: Vec::new() }
    }

    /// The time-to-live to probe next; `None` once the measure is over.
    pub fn next_probe(&self) -> (ttl: Option<u8>)
        ensures
            ttl == next_ttl(self@),
    {
        match self.phase {
            Phase::Reachability => Some(self.max_ttl),
            Phase::Search { diff, distance } => Some(distance),
            Phase::Upper { ttl, tried, successes } => Some(ttl),
            Phase::Lower { ttl, tried, successes } => Some(ttl),
            Phase::Done => None,
        }
    }

    /// Ends the measure with its result.
    fn conclude(&mut self) -> (conclusion: Option<RouteMeasureResult>)
        requires
            old(self).wf(),
        ensures
            final(self).wf(),
            (final(self)@, conclusion_view(conclusion)) == concluded(old(self)@),
    {
        self.phase = Phase::Done;
        if self.stats.len() == 1 {
            Some(RouteMeasureResult::Stable(self.stats[0].ttl))
        } else {
            Some(RouteMeasureResult::Unstable(self.stats.clone()))
        }
    }

    /// Begins the sweep downwards.
    fn enter_lower(&mut self) -> (conclusion: Option<RouteMeasureResult>)
        requires
            old(self).wf(),
        ensures
            final(self).wf(),
            (final(self)@, conclusion_view(conclusion)) == lower_entered(old(self)@),
    {
        if self.stats_retries > 0 && self.distance > 1 {
            self.phase = Phase::Lower { ttl: self.distance - 1, tried: 0, successes: 0 };
            None
        } else {
            self.conclude()
        }
    }

    /// Goes on with the search, or ends it where its step fell to zero.
    fn continue_search(&mut self, diff: u8, distance: u8) -> (conclusion: Option<
        RouteMeasureResult,
    >)
        requires
            old(self).wf(),
            distance >= diff,
        ensures
            final(self).wf(),
            (final(self)@, conclusion_view(conclusion)) == search_continued(
                old(self)@,
                diff,
                distance,
            ),
    {
        if diff == 0 {
            self.distance = distance;
            if self.stats_retries > 0 && distance <= self.max_ttl {
                self.phase = Phase::Upper { ttl: distance, tried: 0, successes: 0 };
                None
            } else {
                self.enter_lower()
            }
        } else {
            self.phase = Phase::Search { diff, distance };
            None
        }
    }

    /// Handles what the probe at `next_probe()` showed, once it is known not
    /// to stop the measure.
    fn advance(&mut self, replied: bool) -> (conclusion: Option<RouteMeasureResult>)
        requires
            old(self).wf(),
            old(self)@.phase matches Phase::Search { diff, distance } ==> replied || search_step(
                diff,
                distance,
                false,
            ).is_some(),
        ensures
            final(self).wf(),
            forall|outcome: Seen|
                (outcome is Reply) == replied ==> (final(self)@, conclusion_view(conclusion))
                    == #[trigger] after_probe(old(self)@, outcome),
    {
        let hit: u8 = if replied {
            1
        } else {
            0
        };
        match self.phase {
            Phase::Reachability => {
                let diff = self.max_ttl / 2;
                self.continue_search(diff, self.max_ttl - diff)
            },
            Phase::Search { diff, distance } => {
                if replied {
                    self.continue_search(diff / 2, distance - diff / 2)
                } else {
                    let step = if diff / 2 == 0 {
                        1
                    } else {
                        diff / 2
                    };
                    self.continue_search(step, distance + step)
                }
            },
            Phase::Upper { ttl, tried, successes } => {
                if tried + 1 < self.stats_retries {
                    self.phase = Phase::Upper { ttl, tried: tried + 1, successes: successes + hit };
                    None
                } else {
                    self.stats.push(TtlStat { ttl, stat: successes + hit });
                    if successes + hit < self.stats_retries && ttl < self.max_ttl {
                        self.phase = Phase::Upper { ttl: ttl + 1, tried: 0, successes: 0 };
                        None
                    } else {
                        self.enter_lower()
                    }
                }
            },
            Phase::Lower { ttl, tried, successes } => {
                if tried + 1 < self.stats_retries {
                    self.phase = Phase::Lower { ttl, tried: tried + 1, successes: successes + hit };
                    None
                } else if successes + hit > 0 {
                    self.stats.push(TtlStat { ttl, stat: successes + hit });
                    if ttl > 1 {
                        self.phase = Phase::Lower { ttl: ttl - 1, tried: 0, successes: 0 };
                        None
                    } else {
                        self.conclude()
                    }
                } else {
                    self.conclude()
                }
            },
            Phase::Done => None,
        }
    }

    /// Whether the search can go on after a router answered at the time-to-live it probes.
    fn can_go_up(&self) -> (can: bool)
        ensures
            can == match self@.phase {
                Phase::Search { diff, distance } => search_step(diff, distance, false).is_some(),
                _ => true,
            },
    {
        match self.phase {
            Phase::Search { diff, distance } => {
                let step = if diff / 2 == 0 {
                    1
                } else {
                    diff / 2
                };
                step <= 255 - distance
            },
            _ => true,
        }
    }

    /// Handles the result of the probe at `next_probe()`.
    ///
    /// The latency of an answer and the router of a time-exceeded message are
    /// reported and the measure goes on; the result of the measure comes with
    /// the last probe. A probe that stops the measure is reported as its
    /// error, and no result follows.
    pub fn on_result(&mut self, result: Result<u64, PingError>) -> (step: MeasureStep)
        requires
            old(self).wf(),
        ensures
            final(self).wf(),
            old(self)@.phase is Done ==> step.report.is_none() && step.conclusion.is_none()
                && final(self)@ == old(self)@,
            !(old(self)@.phase is Done) && aborts(
                old(self)@,
                seen(crate::probe::result_view(result)),
            ) ==> {
                &&& final(self)@ == (MeasureView { phase: Phase::Done, ..old(self)@ })
                &&& step.report matches Some(Err(error))
                &&& result matches Err(failure)
                &&& error@ == failure@
                &&& step.conclusion.is_none()
            },
            !(old(self)@.phase is Done) && !aborts(
                old(self)@,
                seen(crate::probe::result_view(result)),
            ) ==> {
                &&& (final(self)@, conclusion_view(step.conclusion)) == after_probe(
                    old(self)@,
                    seen(crate::probe::result_view(result)),
                )
                &&& match seen(crate::probe::result_view(result)) {
                    Seen::Reply(latency) => step.report == Some(
                        Ok::<ProbeReport, PingError>(ProbeReport::Ping(latency)),
                    ),
                    Seen::Exceeded(node) => step.report == Some(
                        Ok::<ProbeReport, PingError>(ProbeReport::TimeExceeded(node)),
                    ),
                    Seen::Failed => false,
                }
            },
    {
        if let Phase::Done = self.phase {
            return MeasureStep { report: None, conclusion: None };
        }
        let reachability = match self.phase {
            Phase::Reachability => true,
            _ => false,
        };
        match result {
            Ok(latency) => {
                let conclusion = self.advance(true);
                assert(seen(crate::probe::result_view(result)) is Reply);
                MeasureStep { report: Some(Ok(ProbeReport::Ping(latency))), conclusion }
            },
            Err(PingError::TimeExceeded { addr, latency }) => {
                if reachability || !self.can_go_up() {
                    self.phase = Phase::Done;
                    MeasureStep {
                        report: Some(Err(PingError::TimeExceeded { addr, latency })),
                        conclusion: None,
                    }
                } else {
                    let conclusion = self.advance(false);
                    assert(seen(crate::probe::result_view(result)) is Exceeded);
                    MeasureStep {
                        report: Some(Ok(ProbeReport::TimeExceeded(RouteNode { addr, latency }))),
                        conclusion,
                    }
                }
            },
            Err(error) => {
                self.phase = Phase::Done;
                MeasureStep { report: Some(Err(error)), conclusion: None }
            },
        }
    }
}

} // verus!
