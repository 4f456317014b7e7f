use netprobe::configuration::{CursorConfiguration, CursorType, ReverseEndian, ValidAddress};
use netprobe::cursor::filter::FilterCursor;
use netprobe::cursor::periodic::PeriodicCursor;
use netprobe::cursor::sampling::{max_from_depth, period_from_depth, U32SamplingCursor};
use netprobe::cursor::sequential::U32Cursor;
use netprobe::cursor::{Cursor, CursorExt, CursorIterator, SkipCursor};
use netprobe::legacy::{IteratorCherryPick, PeriodicIterator, TargetSource, U32SamplingIterator};
use netprobe::result_stream::decode_records;
use netprobe::scan::{adapt_target, scale_target, Event, Launch, ScanDriver};

fn forward<C: Cursor<Item = u32>>(cursor: &mut C) -> Vec<u32> {
    let mut seen = vec![cursor.value()];
    while cursor.move_next().is_ok() {
        seen.push(cursor.value());
    }
    seen
}

fn backward<C: Cursor<Item = u32>>(cursor: &mut C) -> Vec<u32> {
    let mut seen = vec![cursor.value()];
    while cursor.move_prev().is_ok() {
        seen.push(cursor.value());
    }
    seen
}

#[test]
fn sequential_cursor_has_both_ends() {
    let mut cursor = U32Cursor::new();
    assert_eq!(cursor.value(), 0);
    assert!(cursor.move_prev().is_err());
    assert!(cursor.move_next().is_ok());
    assert_eq!(cursor.value(), 1);
    let mut end = U32Cursor::new().skip(0xFFFF_FFFE).unwrap();
    assert_eq!(end.value(), 0xFFFF_FFFE);
    assert!(end.move_next().is_ok());
    assert_eq!(end.value(), 0xFFFF_FFFF);
    assert!(end.move_next().is_err());
    assert_eq!(end.value(), 0xFFFF_FFFF);
}

#[test]
fn periodic_cursor_walks_offsets_and_back() {
    let mut cursor = PeriodicCursor::new(0, 3, 2, 0);
    assert_eq!(forward(&mut cursor), vec![0, 3, 1, 4, 2, 5]);
    assert_eq!(backward(&mut cursor), vec![5, 2, 4, 1, 3, 0]);
    let mut middle = PeriodicCursor::new(1, 256, 0xFF_FF_FF, 2);
    assert_eq!(middle.value(), 258);
    assert!(middle.move_prev().is_ok());
    assert_eq!(middle.value(), 2);
    assert!(middle.move_prev().is_ok());
    assert_eq!(middle.value(), 1 + 0xFF_FF_FE * 256);
}

#[test]
fn sampling_cursor_walks_levels_and_back() {
    let mut cursor = U32SamplingCursor::new(0, 0, 3);
    assert_eq!(forward(&mut cursor), vec![4, 2, 6, 1, 3, 5, 7]);
    assert_eq!(backward(&mut cursor), vec![7, 5, 3, 1, 6, 2, 4]);
    assert_eq!(U32SamplingCursor::new(1, 1, 31).value(), 0x6000_0000);
    assert_eq!(period_from_depth(31, 0), 0x8000_0000);
    assert_eq!(period_from_depth(3, 2), 2);
    assert_eq!(max_from_depth(0), 1);
    assert_eq!(max_from_depth(5), 32);
}

#[test]
fn adapters_restrict_and_map() {
    let mut taken = U32Cursor::new().skip(5).unwrap().take(3);
    assert_eq!(forward(&mut taken), vec![5, 6, 7, 8]);
    assert_eq!(backward(&mut taken), vec![8, 7, 6, 5]);
    let mut skipped: SkipCursor<PeriodicCursor> = PeriodicCursor::new(0, 3, 2, 0).skip(4).unwrap();
    assert_eq!(forward(&mut skipped), vec![2, 5]);
    assert!(PeriodicCursor::new(0, 3, 2, 0).skip(6).is_err());
    assert!(PeriodicCursor::new(0, 3, 2, 0).skip(5).is_ok());
    let mut mapped = U32Cursor::new().map(ReverseEndian).skip(0x0102_0304).unwrap();
    assert_eq!(mapped.value(), 0x0403_0201);
    // a take does not hold the cursor back below its start.
    let mut open = U32Cursor::new().skip(2).unwrap();
    assert!(open.move_next().is_ok());
    let mut open = open.take(1);
    assert_eq!(backward(&mut open), vec![3, 2]);
    assert_eq!(forward(&mut open), vec![2, 3, 4]);
}

#[test]
fn filter_passes_over_rejected_items_in_both_directions() {
    let source = U32Cursor::new().skip(0x09FF_FFFE).unwrap();
    let mut filtered = FilterCursor::new(source, ValidAddress).unwrap();
    assert_eq!(filtered.value(), 0x09FF_FFFE);
    assert!(filtered.move_next().is_ok());
    assert_eq!(filtered.value(), 0x09FF_FFFF);
    assert!(filtered.move_next().is_ok());
    assert_eq!(filtered.value(), 0x0B00_0000);
    assert!(filtered.move_prev().is_ok());
    assert_eq!(filtered.value(), 0x09FF_FFFF);
    assert!(filtered.move_prev().is_ok());
    assert!(filtered.move_prev().is_err());
    assert_eq!(filtered.value(), 0x09FF_FFFE);

    // from a rejected item the cursor is made on the next accepted one.
    let reserved = U32Cursor::new().skip(0xC0A8_0000).unwrap();
    let mut next = FilterCursor::new(reserved, ValidAddress).unwrap();
    assert_eq!(next.value(), 0xC0A9_0000);
    assert!(next.move_prev().is_err());

    // a filter made on an accepted item stands on it.
    let mut at = U32Cursor::new().skip(0x0808_0808).unwrap().filter(ValidAddress);
    assert_eq!(at.value(), 0x0808_0808);
    assert!(at.move_next().is_ok());
    assert_eq!(at.value(), 0x0808_0809);
}

#[test]
fn filter_fails_where_nothing_is_accepted_and_restores_at_the_end() {
    let class_e = U32Cursor::new().skip(0xF000_0000).unwrap().take(1000);
    assert!(FilterCursor::new(class_e, ValidAddress).is_err());
    let tail = U32Cursor::new().skip(0xDFFF_FFFF).unwrap().take(5000);
    let mut last = FilterCursor::new(tail, ValidAddress).unwrap();
    assert!(last.move_next().is_err());
    assert_eq!(last.value(), 0xDFFF_FFFF);
    assert!(last.move_prev().is_err());
    assert_eq!(last.value(), 0xDFFF_FFFF);
}

#[test]
fn cursor_iterator_yields_from_the_current_item_to_the_last() {
    let mut iter = CursorIterator::new(PeriodicCursor::new(1, 3, 2, 1));
    let mut seen = Vec::new();
    while let Some(value) = iter.next() {
        seen.push(value);
    }
    assert_eq!(seen, vec![4, 2, 5]);
    assert_eq!(iter.next(), None);
    let mut iter = U32SamplingCursor::new(2, 2, 3).to_iter();
    assert_eq!(iter.next(), Some(5));
    assert_eq!(iter.next(), Some(7));
    assert_eq!(iter.next(), None);
}

#[test]
fn legacy_iterators_start_after_their_first_value() {
    let mut sampling = U32SamplingIterator::new(0, 0, 3);
    let mut seen = Vec::new();
    while let Some(value) = sampling.next() {
        seen.push(value);
    }
    assert_eq!(seen, vec![2, 6, 1, 3, 5, 7]);
    assert_eq!(sampling.next(), None);
    let mut periodic = PeriodicIterator::new(0, 3, 2, 0);
    let mut seen = Vec::new();
    while let Some(value) = periodic.next() {
        seen.push(value);
    }
    assert_eq!(seen, vec![3, 1, 4, 2, 5]);
}

#[test]
fn targets_are_read_by_rank() {
    let mut reader = IteratorCherryPick::new(U32SamplingIterator::new(0, 0, 3));
    assert_eq!(reader.get(2), Some(1));
    assert_eq!(reader.get(0), Some(2));
    assert_eq!(reader.get(2), Some(1));
    assert_eq!(reader.get(5), Some(7));
    assert_eq!(reader.get(6), None);
    assert_eq!(reader.get(1), Some(6));
    let mut reader = IteratorCherryPick::new(PeriodicIterator::new(0, 3, 2, 0));
    assert!(reader.pump_data(2));
    assert!(!reader.pump_data(4));
    assert_eq!(reader.get(4), Some(5));
    assert_eq!(reader.get(u32::MAX), None);
}

fn five_targets() -> ScanDriver<netprobe::configuration::TargetCursor> {
    driver(5, 3)
}

fn driver(targets: u32, parallelism: u32) -> ScanDriver<netprobe::configuration::TargetCursor> {
    let cursor = CursorConfiguration {
        ty: CursorType::Sequential,
        offset: 0,
        nb: targets,
        native_cursor: true,
    }
    .generate()
    .unwrap();
    ScanDriver::new(cursor, parallelism, 800, 900)
}

const A: u32 = 0x0100_0000;

fn launch(index: u32) -> Launch {
    Launch { index, target: A + index }
}

#[test]
fn scan_with_constant_latencies_records_every_target_in_order() {
    for (targets, parallelism) in [(5u32, 3u32), (1, 2), (7, 2), (3, 9), (40, 4)] {
        let mut driver = driver(targets, parallelism);
        let mut file = Vec::new();
        let started = driver.start();
        assert!(!started.finished);
        assert!(started.written.is_empty());
        let mut in_flight: std::collections::VecDeque<Launch> = started.launches.into();
        assert_eq!(in_flight.len() as u32, targets.min(parallelism - 1));
        let mut launched = in_flight.len() as u32;
        let mut finished = false;
        while let Some(probe) = in_flight.pop_front() {
            assert!(!finished);
            let outcome = driver.on_ping_result(probe.index, Some(5_000));
            for next in outcome.launches {
                assert_eq!(next, launch(launched));
                launched += 1;
                in_flight.push_back(next);
            }
            file.extend(outcome.written);
            finished = outcome.finished;
        }
        assert!(finished && driver.is_finished());
        assert_eq!(launched, targets);
        let expected: Vec<(u32, u32)> = (0..targets).map(|i| (i, 500)).collect();
        assert_eq!(decode_records(&file), Some(expected));
    }
}

#[test]
fn cursor_that_ends_in_the_first_wave_draws_down() {
    let mut driver = driver(2, 10);
    let started = driver.start();
    assert_eq!(started.launches, vec![launch(0), launch(1)]);
    let first = driver.on_ping_result(0, None);
    assert!(first.launches.is_empty() && first.written.is_empty() && !first.finished);
    let last = driver.on_ping_result(1, Some(70));
    assert!(last.launches.is_empty());
    assert!(last.finished);
    assert_eq!(decode_records(&last.written), Some(vec![(1, 7)]));
    // a finished scan ignores what comes after.
    let after = driver.step(Event::LinkUp);
    assert!(after.finished && after.launches.is_empty() && after.written.is_empty());
}

#[test]
fn results_of_ranks_never_launched_are_ignored() {
    let mut driver = five_targets();
    assert_eq!(driver.start().launches, vec![launch(0), launch(1)]);
    let stray = driver.on_ping_result(2, Some(10));
    assert!(stray.launches.is_empty() && stray.written.is_empty() && !stray.finished);
    assert_eq!(driver.progress(), 0);
    assert_eq!(driver.in_flight(), 2);
    let known = driver.on_ping_result(1, Some(10));
    assert_eq!(known.launches, vec![launch(2)]);
    assert_eq!(driver.progress(), 1);
    // rank 2 was launched by now.
    assert_eq!(driver.on_ping_result(2, Some(10)).launches, vec![launch(3)]);
}

#[test]
fn scan_with_link_blip() {
    let mut driver = five_targets();
    let mut file = Vec::new();
    assert_eq!(driver.start().launches, vec![launch(0), launch(1)]);
    // A and B succeed and are replaced by C and D.
    assert_eq!(driver.on_ping_result(0, Some(100)).launches, vec![launch(2)]);
    assert_eq!(driver.on_ping_result(1, Some(100)).launches, vec![launch(3)]);
    // the link goes down with two results since the checkpoint, and comes back.
    assert!(driver.step(Event::LinkDown).launches.is_empty());
    // the cursor goes back by two, to C; both slots are taken, so nothing is launched yet.
    assert!(driver.step(Event::LinkUp).launches.is_empty());
    // the suspect results of C and D come in: C and D are launched again.
    assert_eq!(driver.on_ping_result(2, None).launches, vec![launch(2)]);
    assert_eq!(driver.on_ping_result(3, None).launches, vec![launch(3)]);
    let mut in_flight = vec![launch(2), launch(3)];
    let mut finished = false;
    while !in_flight.is_empty() {
        let probe = in_flight.remove(0);
        let outcome = driver.on_ping_result(probe.index, Some(100));
        in_flight.extend(outcome.launches);
        file.extend(outcome.written);
        finished = outcome.finished;
    }
    assert!(finished);
    assert_eq!(
        decode_records(&file),
        Some(vec![(0, 10), (1, 10), (2, 10), (3, 10), (4, 10)])
    );
}

#[test]
fn link_down_stops_launching_and_link_up_reseeds() {
    let mut driver = driver(10, 4);
    assert_eq!(driver.start().launches.len(), 3);
    assert!(driver.step(Event::LinkDown).launches.is_empty());
    for index in 0..3 {
        let outcome = driver.on_ping_result(index, Some(10));
        assert!(outcome.launches.is_empty() && !outcome.finished);
    }
    // three results since the checkpoint: the cursor goes back from 3 to 0.
    assert_eq!(
        driver.step(Event::LinkUp).launches,
        vec![launch(0), launch(1), launch(2)]
    );
    // a link that was not down only sets the checkpoint.
    assert!(driver.step(Event::LinkUp).launches.is_empty());
    assert_eq!(driver.on_ping_result(0, Some(10)).launches, vec![launch(3)]);
}

#[test]
fn batch_is_written_when_it_exceeds_ten_records_per_slot() {
    let mut driver = driver(100, 2);
    assert_eq!(driver.start().launches, vec![launch(0)]);
    for index in 0..10 {
        let outcome = driver.on_ping_result(index, Some(10 * index as u64));
        assert!(outcome.written.is_empty());
        assert_eq!(outcome.launches, vec![launch(index + 1)]);
    }
    let outcome = driver.on_ping_result(10, Some(100));
    let expected: Vec<(u32, u32)> = (0..=10).map(|i| (i, i)).collect();
    assert_eq!(decode_records(&outcome.written), Some(expected));
    let outcome = driver.on_ping_result(11, Some(110));
    assert!(outcome.written.is_empty());
}

#[test]
fn load_scales_the_parallelism_target() {
    assert_eq!(adapt_target(10, 2_000, 800, 900), 4);
    assert_eq!(adapt_target(10, 400, 800, 900), 20);
    assert_eq!(adapt_target(10, 800, 800, 900), 10);
    assert_eq!(adapt_target(10, 900, 800, 900), 10);
    assert_eq!(adapt_target(7, 1_000, 800, 900), 6);
    assert_eq!(adapt_target(10, 0, 800, 900), usize::MAX);
    assert_eq!(adapt_target(0, 0, 800, 900), 0);
    assert_eq!(scale_target(usize::MAX, u64::MAX, 1), usize::MAX);
    assert_eq!(scale_target(3, 5, 4), 3);

    let mut driver = driver(100, 11);
    assert_eq!(driver.parallelism_target(), 10);
    driver.step(Event::CpuLoad(1_800));
    assert_eq!(driver.parallelism_target(), 5);
    driver.step(Event::CpuLoad(850));
    assert_eq!(driver.parallelism_target(), 5);
    driver.step(Event::CpuLoad(100));
    assert_eq!(driver.parallelism_target(), 40);
}
