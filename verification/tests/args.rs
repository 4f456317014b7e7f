use netprobe::args::{
    field_from_args, number_from_args, parse_decimal, parse_ipv4, text_from_args, ArgsError,
    ArgsErrorKind, Field,
};
use netprobe::configuration::{
    Configuration, CursorConfiguration, CursorType, DataType, LinkStateMonitorConfiguration,
    PingConfiguration,
};
use netprobe::legacy::{IteratorConfiguration, IteratorType, PeriodicIterator, TracerouteExecutor};

fn words(line: &str) -> Vec<String> {
    line.split_whitespace().map(|w| w.to_string()).collect()
}

fn error(field: Field, kind: ArgsErrorKind) -> ArgsError {
    ArgsError { field, kind }
}

#[test]
fn option_values_follow_their_names() {
    let args = words("scan --a 1 --b --a 2 --c");
    assert_eq!(field_from_args(&args, "--a"), Ok(&"1".to_string()));
    assert_eq!(field_from_args(&args, "--b"), Ok(&"--a".to_string()));
    assert_eq!(field_from_args(&args, "--c"), Err(ArgsErrorKind::Empty));
    assert_eq!(field_from_args(&args, "--d"), Err(ArgsErrorKind::Missing));
    assert_eq!(field_from_args(&[], "--a"), Err(ArgsErrorKind::Missing));
    assert_eq!(Field::MonitorMaxFails.name(), "--monitor_max_fails");
    let args = words("--out_file /tmp/x --ping_ttl 300");
    assert_eq!(
        text_from_args(&args, Field::OutFile),
        Ok(&"/tmp/x".to_string())
    );
    assert_eq!(
        number_from_args(&args, Field::PingTtl, 255),
        Err(error(Field::PingTtl, ArgsErrorKind::Invalid))
    );
    assert_eq!(number_from_args(&args, Field::PingTtl, 300), Ok(300));
}

#[test]
fn decimal_numbers() {
    assert_eq!(parse_decimal("0", 10), Some(0));
    assert_eq!(parse_decimal("007", 10), Some(7));
    assert_eq!(parse_decimal("+42", 42), Some(42));
    assert_eq!(parse_decimal("43", 42), None);
    assert_eq!(parse_decimal("", 42), None);
    assert_eq!(parse_decimal("+", 42), None);
    assert_eq!(parse_decimal("-1", 42), None);
    assert_eq!(parse_decimal("++1", 42), None);
    assert_eq!(parse_decimal("1 ", 42), None);
    assert_eq!(parse_decimal("4x", 42), None);
    assert_eq!(parse_decimal("٣", 42), None);
    assert_eq!(
        parse_decimal("18446744073709551615", u64::MAX),
        Some(u64::MAX)
    );
    assert_eq!(parse_decimal("18446744073709551616", u64::MAX), None);
    assert_eq!(parse_decimal("99999999999999999999999", u64::MAX), None);
    assert_eq!(parse_decimal("5", 4), None);
    assert_eq!(parse_decimal("9", 9), Some(9));
}

#[test]
fn dotted_addresses() {
    assert_eq!(parse_ipv4("8.8.8.8"), Some(0x0808_0808));
    assert_eq!(parse_ipv4("192.168.1.1"), Some(0xC0A8_0101));
    assert_eq!(parse_ipv4("0.0.0.0"), Some(0));
    assert_eq!(parse_ipv4("255.255.255.255"), Some(u32::MAX));
    for bad in [
        "", "1.2.3", "1.2.3.4.5", "1.2.3.", ".1.2.3", "1..2.3", "256.1.1.1", "1.2.3.04",
        "1.2.3.4 ", "a.b.c.d", "1.2.3.1000", "1,2,3,4", "+1.2.3.4",
    ] {
        assert_eq!(parse_ipv4(bad), None, "{:?}", bad);
    }
}

#[test]
fn ping_configuration_from_the_command_line() {
    let args = words("--ping_ttl 64 --ping_size 16 --ping_timeout 1500 --ping_parallelism 100");
    assert_eq!(
        PingConfiguration::from_args(&args),
        Ok(PingConfiguration {
            timeout: 1_500_000_000,
            size: 16,
            parallelism: 100,
            ttl: 64
        })
    );
    assert_eq!(
        PingConfiguration::from_args(&words("--ping_size 16")),
        Err(error(Field::PingTimeout, ArgsErrorKind::Missing))
    );
    assert_eq!(
        PingConfiguration::from_args(&words("--ping_timeout 1 --ping_size 65536")),
        Err(error(Field::PingSize, ArgsErrorKind::Invalid))
    );
    assert_eq!(
        PingConfiguration::from_args(&words(
            "--ping_timeout 18446744073710 --ping_size 1 --ping_parallelism 1 --ping_ttl 1"
        )),
        Err(error(Field::PingTimeout, ArgsErrorKind::Invalid))
    );
    assert_eq!(
        PingConfiguration::from_args(&words(
            "--ping_timeout 1 --ping_size 1 --ping_parallelism 1 --ping_ttl"
        )),
        Err(error(Field::PingTtl, ArgsErrorKind::Empty))
    );
}

#[test]
fn cursor_and_iterator_configuration_from_the_command_line() {
    let args = words("--cursor_nb 9 --cursor_type periodic --cursor_offset 3");
    assert_eq!(
        CursorConfiguration::from_args(&args),
        Ok(CursorConfiguration {
            ty: CursorType::Periodic,
            offset: 3,
            nb: 9,
            native_cursor: true
        })
    );
    assert_eq!(
        CursorConfiguration::from_args(&words("--cursor_type random --cursor_offset 3")),
        Err(error(Field::CursorNb, ArgsErrorKind::Missing))
    );
    assert_eq!(
        CursorConfiguration::from_args(&words(
            "--cursor_type random --cursor_offset 3 --cursor_nb 1"
        )),
        Err(error(Field::CursorType, ArgsErrorKind::Invalid))
    );
    assert_eq!(
        IteratorConfiguration::from_args(&words(
            "--iterator_type sampling --iterator_offset 0 --iterator_nb 4294967295"
        )),
        Ok(IteratorConfiguration {
            ty: IteratorType::Sampling,
            offset: 0,
            nb: u32::MAX
        })
    );
    assert_eq!(
        IteratorConfiguration::from_args(&words(
            "--iterator_type sampling --iterator_offset 0 --iterator_nb 4294967296"
        )),
        Err(error(Field::IteratorNb, ArgsErrorKind::Invalid))
    );
}

#[test]
fn whole_configuration_from_the_command_line() {
    let line = "scan --ping_timeout 1000 --ping_size 64 --ping_parallelism 50 --ping_ttl 30 \
                --cursor_type sampling --cursor_offset 0 --cursor_nb 1000 \
                --monitor_target 8.8.8.8 --monitor_ttl 30 --monitor_timeout 2000 \
                --monitor_period 500 --monitor_max_fails 3 --out_file /root/plop";
    let conf = Configuration::from_args(&words(line)).unwrap();
    assert_eq!(
        conf,
        Configuration {
            cursor: CursorConfiguration {
                ty: CursorType::Sampling,
                offset: 0,
                nb: 1000,
                native_cursor: true
            },
            ping: PingConfiguration {
                timeout: 1_000_000_000,
                size: 64,
                parallelism: 50,
                ttl: 30
            },
            link_state_monitor: Some(LinkStateMonitorConfiguration {
                target: 0x0808_0808,
                ttl: 30,
                timeout: 2_000_000_000,
                period: 500_000_000,
                max_consecutive_fails: 3
            }),
            cpu_load_monitor: None,
            data_type: DataType::PingLatency,
            start_date: 0,
            out_file: "/root/plop".to_string(),
        }
    );
    let bad_target = line.replace("8.8.8.8", "8.8.8");
    assert_eq!(
        Configuration::from_args(&words(&bad_target)),
        Err(error(Field::MonitorTarget, ArgsErrorKind::Invalid))
    );
    let no_file = line.replace("--out_file", "--file");
    assert_eq!(
        Configuration::from_args(&words(&no_file)),
        Err(error(Field::OutFile, ArgsErrorKind::Missing))
    );
    let legacy = netprobe::legacy::Configuration::from_args(&words(
        "--iterator_type sequential --iterator_offset 1 --iterator_nb 2 --ping_timeout 3 \
         --ping_size 4 --ping_parallelism 5 --ping_ttl 6 --out_file out",
    ))
    .unwrap();
    assert_eq!(legacy.iterator.ty, IteratorType::Sequential);
    assert_eq!(legacy.ping.timeout, 3_000_000);
    assert_eq!(legacy.out_file, "out");
}

#[test]
fn executor_keeps_a_bounded_number_of_tasks() {
    // five targets, two at a time.
    let mut executor = TracerouteExecutor::new(PeriodicIterator::new(0, 3, 2, 0), 2);
    assert_eq!(executor.start(), vec![(0, 3), (1, 1)]);
    assert_eq!(executor.wait_for_next(), Some((2, 4)));
    assert_eq!(executor.wait_for_next(), Some((3, 2)));
    assert_eq!(executor.wait_for_next(), Some((4, 5)));
    assert!(!executor.is_done());
    assert_eq!(executor.wait_for_next(), None);
    assert!(!executor.is_done());
    assert_eq!(executor.wait_for_next(), None);
    assert!(executor.is_done());
    // more slots than targets: the parallelism falls to the number of tasks.
    let mut wide = TracerouteExecutor::new(PeriodicIterator::new(0, 3, 2, 1), 9);
    assert_eq!(wide.start(), vec![(0, 4), (1, 2), (2, 5)]);
    for _ in 0..3 {
        assert!(!wide.is_done());
        assert_eq!(wide.wait_for_next(), None);
    }
    assert!(wide.is_done());
}
