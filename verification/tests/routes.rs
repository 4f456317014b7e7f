use netprobe::list_route_nodes::{ListRouteNodesData, ListRouteNodesResult, Poll, RouteNodeLister};
use netprobe::measure_route::RouteMeasureData;
use netprobe::measure_route::{RouteMeasure, RouteMeasureResult, TtlStat};
use netprobe::monitor::LinkMonitor;
use netprobe::monitor::LinkTransition::{LinkDown, LinkUp};
use netprobe::probe::{PingError, ProbeReport, RouteNode};
use netprobe::route_graph::{absolute_deviation, mean_latency, RouteGraph};
use netprobe::traceroute::{
    icmp_traceroute, paris_icmp_traceroute, FlowId, MultiTraceroute, Traceroute,
};

const DEST: u32 = 0x0808_0808;

/// What a probe with `ttl` shows on a path of `distance` hops: router number
/// `ttl` answers below the distance, the destination from the distance on.
fn probe(distance: u8, ttl: u8) -> Result<u64, PingError> {
    if ttl >= distance {
        Ok(1_000 * ttl as u64)
    } else {
        Err(PingError::TimeExceeded {
            addr: 0x0A00_0000 + ttl as u32,
            latency: 100 * ttl as u64,
        })
    }
}

fn trace(mut run: Traceroute, distance: u8) -> Vec<(u8, u16, Result<RouteNode, PingError>)> {
    let mut hops = Vec::new();
    while let Some((ttl, flow)) = run.next_probe() {
        hops.push((ttl, flow, run.on_result(probe(distance, ttl))));
    }
    hops
}

#[test]
fn traceroute_over_a_four_hop_path() {
    let hops = trace(icmp_traceroute(DEST, 30, 0), 4);
    let nodes: Vec<_> = hops.iter().map(|(ttl, _, hop)| (*ttl, hop.clone())).collect();
    assert_eq!(
        nodes,
        vec![
            (1, Ok(RouteNode { addr: 0x0A00_0001, latency: 100 })),
            (2, Ok(RouteNode { addr: 0x0A00_0002, latency: 200 })),
            (3, Ok(RouteNode { addr: 0x0A00_0003, latency: 300 })),
            (4, Ok(RouteNode { addr: DEST, latency: 4_000 })),
        ]
    );
}

#[test]
fn traceroute_stops_at_the_largest_ttl_and_on_errors() {
    let hops = trace(icmp_traceroute(DEST, 3, 0), 9);
    assert_eq!(hops.iter().map(|h| h.0).collect::<Vec<_>>(), vec![1, 2, 3]);
    assert!(trace(icmp_traceroute(DEST, 0, 0), 9).is_empty());

    let mut run = paris_icmp_traceroute(DEST, 9, 1);
    assert_eq!(run.next_probe(), Some((1, 1)));
    assert_eq!(run.on_result(probe(5, 1)).unwrap().addr, 0x0A00_0001);
    assert_eq!(run.next_probe(), Some((2, 1)));
    assert_eq!(run.on_result(Err(PingError::Timeout)), Err(PingError::Timeout));
    assert_eq!(run.next_probe(), None);
}

#[test]
fn paris_keeps_the_flow_and_classical_changes_it() {
    let paris = trace(paris_icmp_traceroute(DEST, 30, 77), 5);
    assert_eq!(paris.len(), 5);
    assert!(paris.iter().all(|(_, flow, _)| *flow == 77));
    let classical = trace(icmp_traceroute(DEST, 30, 2), 5);
    assert_eq!(
        classical.iter().map(|h| h.1).collect::<Vec<_>>(),
        vec![0x0201, 0x0202, 0x0203, 0x0204, 0x0205]
    );
    let offset = trace(Traceroute::new(DEST, 2, FlowId::WithOffset(255)), 5);
    assert_eq!(offset.iter().map(|h| h.1).collect::<Vec<_>>(), vec![0xFF01, 0xFF02]);
}

#[test]
fn attempts_follow_each_other() {
    let mut series = MultiTraceroute::new(DEST, 30, 3, false);
    let mut seen = Vec::new();
    while let Some((ttl, flow)) = series.next_probe() {
        let (hop, result) = series.on_result(probe(2, ttl));
        assert_eq!(hop, ttl);
        seen.push((ttl, flow, result.unwrap().addr));
    }
    assert_eq!(
        seen,
        vec![
            (1, 0x0001, 0x0A00_0001),
            (2, 0x0002, DEST),
            (1, 0x0101, 0x0A00_0001),
            (2, 0x0102, DEST),
            (1, 0x0201, 0x0A00_0001),
            (2, 0x0202, DEST),
        ]
    );
    let mut paris = MultiTraceroute::new(DEST, 30, 2, true);
    let mut flows = Vec::new();
    while let Some((ttl, flow)) = paris.next_probe() {
        flows.push(flow);
        paris.on_result(probe(3, ttl)).1.unwrap();
    }
    assert_eq!(flows, vec![0; 6]);
    assert_eq!(MultiTraceroute::new(DEST, 30, 0, true).next_probe(), None);
    assert_eq!(MultiTraceroute::new(DEST, 0, 5, true).next_probe(), None);
}

fn measure(max_ttl: u8, retries: u8, distance: u8) -> (Vec<u8>, Option<RouteMeasureResult>) {
    let mut measure = RouteMeasure::new(max_ttl, retries);
    let mut probed = Vec::new();
    let mut conclusion = None;
    while let Some(ttl) = measure.next_probe() {
        probed.push(ttl);
        let step = measure.on_result(probe(distance, ttl));
        match step.report {
            Some(Ok(ProbeReport::Ping(latency))) => assert_eq!(latency, 1_000 * ttl as u64),
            Some(Ok(ProbeReport::TimeExceeded(node))) => {
                assert_eq!(node.addr, 0x0A00_0000 + ttl as u32)
            }
            other => panic!("unexpected report {:?}", other),
        }
        if step.conclusion.is_some() {
            conclusion = step.conclusion;
        }
    }
    (probed, conclusion)
}

#[test]
fn dichotomic_search() {
    let (probed, conclusion) = measure(32, 2, 7);
    // the search, then two probes at 7 and two at 6.
    assert_eq!(probed, vec![32, 16, 8, 4, 6, 7, 7, 7, 6, 6]);
    assert_eq!(conclusion, Some(RouteMeasureResult::Stable(7)));
    for distance in 1..=32 {
        assert_eq!(
            measure(32, 1, distance).1,
            Some(RouteMeasureResult::Stable(distance))
        );
    }
}

#[test]
fn search_from_a_ttl_that_is_no_power_of_two_can_end_above_the_distance() {
    let (probed, conclusion) = measure(3, 1, 1);
    assert_eq!(probed, vec![3, 2, 2, 1]);
    assert_eq!(
        conclusion,
        Some(RouteMeasureResult::Unstable(vec![
            TtlStat { ttl: 2, stat: 1 },
            TtlStat { ttl: 1, stat: 1 }
        ]))
    );
}

#[test]
fn measure_without_counts_and_with_one_hop() {
    let (probed, conclusion) = measure(8, 0, 3);
    assert_eq!(probed, vec![8, 4, 2, 3]);
    assert_eq!(conclusion, Some(RouteMeasureResult::Unstable(vec![])));
    let (probed, conclusion) = measure(1, 3, 1);
    assert_eq!(probed, vec![1, 1, 1, 1]);
    assert_eq!(conclusion, Some(RouteMeasureResult::Stable(1)));
}

#[test]
fn measure_stops_on_errors() {
    // the destination is out of reach at the largest ttl.
    let mut measure = RouteMeasure::new(4, 2);
    let step = measure.on_result(probe(9, 4));
    assert_eq!(
        step.report,
        Some(Err(PingError::TimeExceeded { addr: 0x0A00_0004, latency: 400 }))
    );
    assert_eq!(step.conclusion, None);
    assert_eq!(measure.next_probe(), None);
    let after = measure.on_result(Ok(1));
    assert_eq!((after.report, after.conclusion), (None, None));

    // a probe of the search is lost.
    let mut measure = RouteMeasure::new(4, 2);
    assert!(measure.on_result(Ok(5)).report.unwrap().is_ok());
    assert_eq!(measure.next_probe(), Some(2));
    let step = measure.on_result(Err(PingError::Timeout));
    assert_eq!(step.report, Some(Err(PingError::Timeout)));
    assert_eq!(measure.next_probe(), None);

    // a router answers at 255: the search cannot go up.
    let mut measure = RouteMeasure::new(255, 1);
    let mut last = None;
    while let Some(ttl) = measure.next_probe() {
        let result = if ttl == 255 && last.is_none() { Ok(1) } else { probe(255, 0) };
        last = Some((ttl, measure.on_result(result)));
    }
    let (ttl, step) = last.unwrap();
    assert_eq!(ttl, 255);
    assert!(matches!(step.report, Some(Err(PingError::TimeExceeded { .. }))));
    assert_eq!(step.conclusion, None);
}

#[test]
fn unstable_routes_are_counted_up_and_down() {
    // the destination answers every other probe at 3 and always from 4 on.
    let mut measure = RouteMeasure::new(4, 2);
    let mut toggle = false;
    let mut conclusion = None;
    while let Some(ttl) = measure.next_probe() {
        let result = if ttl >= 4 {
            Ok(1)
        } else if ttl == 3 {
            toggle = !toggle;
            if toggle { Ok(1) } else { probe(9, 3) }
        } else {
            probe(9, ttl)
        };
        if let Some(found) = measure.on_result(result).conclusion {
            conclusion = Some(found);
        }
    }
    // search: 4 ok, 2 exceeded, 3 ok: distance 3. Up: 3 once of twice, 4 twice. Down: 2 never.
    assert_eq!(
        conclusion,
        Some(RouteMeasureResult::Unstable(vec![
            TtlStat { ttl: 3, stat: 1 },
            TtlStat { ttl: 4, stat: 2 }
        ]))
    );
}

#[test]
fn nodes_of_each_hop_are_listed_once() {
    let mut lister = RouteNodeLister::new(DEST, 5, 3);
    let mut results = Vec::new();
    let mut reports = 0;
    let mut flip = 0u32;
    loop {
        match lister.poll() {
            Poll::Probe(ttl) => {
                flip += 1;
                let result = if ttl >= 3 {
                    Ok(5)
                } else {
                    Err(PingError::TimeExceeded {
                        addr: 0x0A00_0000 + 16 * ttl as u32 + flip % 2,
                        latency: 7,
                    })
                };
                match lister.on_result(result) {
                    Ok(ProbeReport::Ping(5)) => assert!(ttl >= 3),
                    Ok(ProbeReport::TimeExceeded(node)) => assert_eq!(node.latency, 7),
                    other => panic!("unexpected report {:?}", other),
                }
                reports += 1;
            }
            Poll::Report(result) => results.push(result),
            Poll::Done => break,
        }
    }
    assert_eq!(reports, 9);
    assert_eq!(
        results,
        vec![
            ListRouteNodesResult { ttl: 1, nodes: vec![0x0A00_0011, 0x0A00_0010] },
            ListRouteNodesResult { ttl: 2, nodes: vec![0x0A00_0020, 0x0A00_0021] },
            ListRouteNodesResult { ttl: 3, nodes: vec![DEST] },
        ]
    );
}

#[test]
fn listing_stops_on_errors_and_handles_empty_runs() {
    let mut lister = RouteNodeLister::new(DEST, 5, 2);
    assert!(matches!(lister.poll(), Poll::Probe(1)));
    assert_eq!(lister.on_result(Err(PingError::Timeout)), Err(PingError::Timeout));
    assert!(matches!(lister.poll(), Poll::Done));

    assert!(matches!(RouteNodeLister::new(DEST, 0, 2).poll(), Poll::Done));

    let mut idle = RouteNodeLister::new(DEST, 2, 0);
    let mut ttls = Vec::new();
    loop {
        match idle.poll() {
            Poll::Report(result) => {
                assert!(result.nodes.is_empty());
                ttls.push(result.ttl);
            }
            Poll::Done => break,
            Poll::Probe(_) => panic!("no probe is due"),
        }
    }
    assert_eq!(ttls, vec![1, 2]);
}

#[test]
fn reports_become_data() {
    let node = RouteNode { addr: 1, latency: 2 };
    assert_eq!(
        RouteMeasureData::from_report(ProbeReport::Ping(3)),
        RouteMeasureData::Ping(3)
    );
    assert_eq!(
        RouteMeasureData::from_report(ProbeReport::TimeExceeded(node)),
        RouteMeasureData::TimeExceeded(node)
    );
    assert_eq!(
        ListRouteNodesData::from_report(ProbeReport::Ping(3)),
        ListRouteNodesData::Ping(3)
    );
    assert_eq!(
        ListRouteNodesData::from_report(ProbeReport::TimeExceeded(node)),
        ListRouteNodesData::TimeExceeded(node)
    );
}

#[test]
fn route_graph_groups_and_averages() {
    let mut graph = RouteGraph::new();
    assert_eq!(graph.hops(), 0);
    for (ttl, addr, latency) in [
        (1u8, 10u32, 100u64),
        (2, 20, 300),
        (1, 11, 50),
        (1, 10, 201),
        (2, 20, 100),
        (3, 30, 9),
        (1, 10, 2),
    ] {
        graph.record(ttl, RouteNode { addr, latency });
    }
    assert_eq!(graph.hops(), 3);
    assert_eq!(graph.responders_at(1), vec![10, 11]);
    assert_eq!(graph.responders_at(2), vec![20]);
    assert_eq!(graph.responders_at(4), Vec::<u32>::new());
    assert_eq!(graph.latencies_of(1, 10), vec![100, 201, 2]);
    assert_eq!(graph.mean_latency_of(1, 10), Some(101));
    assert_eq!(graph.mean_latency_of(2, 20), Some(200));
    assert_eq!(graph.mean_latency_of(2, 10), None);
    assert_eq!(mean_latency(&vec![u64::MAX, u64::MAX, u64::MAX - 3]), Some(u64::MAX - 1));
    assert_eq!(mean_latency(&vec![]), None);
    assert_eq!(absolute_deviation(5, 9), 4);
    assert_eq!(absolute_deviation(9, 5), 4);
}

#[test]
fn link_monitor_reports_each_change_once() {
    let mut monitor = LinkMonitor::new(3);
    let probes = [
        true, false, false, true, false, false, false, false, false, true, true, false,
    ];
    let reported: Vec<_> = probes.iter().map(|ok| monitor.on_probe(*ok)).collect();
    assert_eq!(
        reported,
        vec![
            None,
            None,
            None,
            None,
            None,
            None,
            Some(LinkDown),
            None,
            None,
            Some(LinkUp),
            None,
            None
        ]
    );
    let mut never = LinkMonitor::new(0);
    for _ in 0..600 {
        assert_eq!(never.on_probe(false), None);
    }
    let mut at_once = LinkMonitor::new(1);
    assert_eq!(at_once.on_probe(false), Some(LinkDown));
    assert_eq!(at_once.on_probe(false), None);
    assert_eq!(at_once.on_probe(true), Some(LinkUp));
}
