use netprobe::echo::{
    build_echo_request, read_quoted_probe, read_replied_probe, unsummed_echo_request,
    with_checksum, ProbeIdentity,
};
use netprobe::multiplexer::{
    classify, Input, Multiplexer, PingIdentifier, PingRequestResponse, Reaction, Resolution,
};
use netprobe::probe::{PingError, PingRequest};

const MS: u64 = 1_000_000;
const SECOND: u64 = 1_000_000_000;
const DEST: u32 = 0x0102_0304;

fn request(token: u64, ttl: u8, flow_id: u16, timeout: u64) -> Input {
    Input::PingRequest(PingRequest {
        addr: DEST,
        ttl,
        flow_id,
        timeout,
        token,
    })
}

fn echo_reply(identifier: u16, sequence_number: u16) -> Vec<u8> {
    vec![
        0,
        0,
        0,
        0,
        (identifier >> 8) as u8,
        identifier as u8,
        (sequence_number >> 8) as u8,
        sequence_number as u8,
        0xAA,
    ]
}

fn quoting(ty: u8, destination: [u8; 4], identifier: u16, sequence_number: u16) -> Vec<u8> {
    let mut message = vec![ty, 0, 0, 0, 0, 0, 0, 0];
    message.extend_from_slice(&[0x45, 0, 0, 28, 0, 0, 0, 0, 1, 1, 0, 0, 10, 0, 0, 1]);
    message.extend_from_slice(&destination);
    message.extend_from_slice(&[
        8,
        0,
        0,
        0,
        (identifier >> 8) as u8,
        identifier as u8,
        (sequence_number >> 8) as u8,
        sequence_number as u8,
    ]);
    message
}

/// Sends the packet of a reaction and reports that the socket took it.
fn send(multiplexer: &mut Multiplexer, reaction: Reaction, now: u64) -> (u16, Reaction) {
    let transmission = reaction.transmission.unwrap();
    let identifier = transmission.identifier;
    (identifier, multiplexer.sent(transmission, true, now))
}

#[test]
fn echo_request_has_the_documented_bytes() {
    // 0x0800 + 0x1234 + 0xffff = 0x11a33, folded 0x1a34, inverted 0xe5cb.
    assert_eq!(
        build_echo_request(8, 0x1234, 0xFFFF),
        vec![8, 0, 0xE5, 0xCB, 0x12, 0x34, 0xFF, 0xFF]
    );
    let long = build_echo_request(64, 1, 2);
    assert_eq!(long.len(), 64);
    // 0x0800 + 0x0001 + 0x0002 = 0x0803, inverted 0xf7fc.
    assert_eq!(&long[..8], &[8, 0, 0xF7, 0xFC, 0, 1, 0, 2]);
    assert!(long[8..].iter().all(|b| *b == 0));
}

#[test]
fn echo_request_parts() {
    assert_eq!(
        unsummed_echo_request(9, 0xABCD, 0x0102),
        vec![8, 0, 0, 0, 0xAB, 0xCD, 1, 2, 0]
    );
    assert_eq!(
        with_checksum(vec![8, 0, 0, 0, 1, 2, 3, 4], 0xBEEF),
        vec![8, 0, 0xBE, 0xEF, 1, 2, 3, 4]
    );
}

#[test]
fn probes_are_read_from_answers() {
    assert_eq!(
        read_replied_probe(DEST, &echo_reply(0x1234, 0x0005)),
        Some(ProbeIdentity {
            identifier: 0x1234,
            sequence_number: 5,
            destination: DEST
        })
    );
    assert_eq!(read_replied_probe(DEST, &[0, 0, 0, 0, 1, 2, 3]), None);
    let message = quoting(11, [8, 8, 4, 4], 0xABCD, 0xFFFE);
    assert_eq!(
        read_quoted_probe(&message),
        Some(ProbeIdentity {
            identifier: 0xABCD,
            sequence_number: 0xFFFE,
            destination: 0x0808_0404
        })
    );
    // the quoted echo header is cut short.
    assert_eq!(read_quoted_probe(&message[..message.len() - 1]), None);
    // the quoted datagram says that it has no payload.
    let mut empty = message.clone();
    empty[8 + 3] = 20;
    assert_eq!(read_quoted_probe(&empty), None);
    // a header with one word of options.
    let mut options = vec![3, 1, 0, 0, 0, 0, 0, 0];
    options.extend_from_slice(&[0x46, 0, 0, 32, 0, 0, 0, 0, 1, 1, 0, 0, 10, 0, 0, 1]);
    options.extend_from_slice(&[9, 9, 9, 9, 1, 1, 1, 1]);
    options.extend_from_slice(&[8, 0, 0, 0, 0, 7, 0, 9]);
    assert_eq!(
        read_quoted_probe(&options),
        Some(ProbeIdentity {
            identifier: 7,
            sequence_number: 9,
            destination: 0x0909_0909
        })
    );
}

#[test]
fn messages_are_classified() {
    let id = |destination: u32, id: u16, sn: u16| PingIdentifier {
        responder: 0x0A00_0001,
        id,
        sn,
        stop: 99,
        destination,
    };
    assert_eq!(
        classify(0x0A00_0001, &echo_reply(3, 4), 99),
        Some((PingRequestResponse::PingResponse, id(0x0A00_0001, 3, 4)))
    );
    assert_eq!(
        classify(0x0A00_0001, &quoting(11, [1, 2, 3, 4], 5, 6), 99),
        Some((PingRequestResponse::PingTimeExceeded, id(DEST, 5, 6)))
    );
    let unreachable = quoting(3, [1, 2, 3, 4], 5, 6);
    assert_eq!(
        classify(0x0A00_0001, &unreachable, 99),
        Some((
            PingRequestResponse::IcmpError(unreachable.clone()),
            id(DEST, 5, 6)
        ))
    );
    assert_eq!(classify(0x0A00_0001, &[], 99), None);
    assert_eq!(classify(0x0A00_0001, &[0, 0, 0, 0], 99), None);
    assert_eq!(classify(0x0A00_0001, &unreachable[..20], 99), None);
}

#[test]
fn inputs_are_built_from_answers() {
    let id = PingIdentifier {
        responder: 1,
        id: 2,
        sn: 3,
        stop: 4,
        destination: 5,
    };
    assert_eq!(
        PingRequestResponse::PingResponse.build_input(id),
        Input::PingResponse(id)
    );
    assert_eq!(
        PingRequestResponse::PingTimeExceeded.build_input(id),
        Input::PingTimeExceeded(id)
    );
    let data = quoting(3, [1, 2, 3, 4], 5, 6);
    let mut with_code = data.clone();
    with_code[1] = 13;
    assert_eq!(
        PingRequestResponse::IcmpError(with_code.clone()).build_input(id),
        Input::IcmpError {
            id,
            ty: 3,
            code: 13,
            data: with_code
        }
    );
}

#[test]
fn single_ping_reply() {
    let mut multiplexer = Multiplexer::new(64);
    let asked = multiplexer.handle(request(7, 64, 0, SECOND), 0);
    assert!(asked.resolutions.is_empty());
    {
        let transmission = asked.transmission.as_ref().unwrap();
        assert_eq!(transmission.destination, DEST);
        assert_eq!(transmission.set_ttl, Some(64));
        assert_eq!(transmission.identifier, 0);
        assert_eq!(transmission.sequence_number, 0xFFFF);
        assert_eq!(
            transmission.packet,
            build_echo_request(64, 0, 0xFFFF)
        );
    }
    let (identifier, flying) = send(&mut multiplexer, asked, 1_000);
    assert_eq!(flying.timer, Some(SECOND));
    assert!(flying.resolutions.is_empty());
    assert_eq!(multiplexer.in_flight(), 1);

    let (kind, id) = classify(DEST, &echo_reply(identifier, 0xFFFF), 1_000 + 10 * MS).unwrap();
    let answered = multiplexer.handle(kind.build_input(id), 1_000 + 10 * MS);
    assert_eq!(
        answered.resolutions,
        vec![Resolution {
            token: 7,
            result: Ok(10 * MS)
        }]
    );
    assert_eq!(multiplexer.in_flight(), 0);
    // a second copy of the reply matches nothing.
    let (kind, id) = classify(DEST, &echo_reply(identifier, 0xFFFF), 1_000 + 11 * MS).unwrap();
    let stray = multiplexer.handle(kind.build_input(id), 1_000 + 11 * MS);
    assert!(stray.resolutions.is_empty());
}

#[test]
fn single_ping_timeout() {
    let mut multiplexer = Multiplexer::new(16);
    let asked = multiplexer.handle(request(1, 64, 0, 100 * MS), 0);
    let (_, flying) = send(&mut multiplexer, asked, 5);
    assert_eq!(flying.timer, Some(100 * MS));
    // just before the deadline nothing times out and the timer is armed for what is left.
    let early = multiplexer.handle(Input::Timeout, 5 + 100 * MS - 1);
    assert!(early.resolutions.is_empty());
    assert_eq!(early.timer, Some(1));
    let due = multiplexer.handle(Input::Timeout, 5 + 100 * MS);
    assert_eq!(
        due.resolutions,
        vec![Resolution {
            token: 1,
            result: Err(PingError::Timeout)
        }]
    );
    assert_eq!(due.timer, None);
    assert_eq!(multiplexer.in_flight(), 0);
    // the next request arms a timer again.
    let asked = multiplexer.handle(request(2, 64, 0, 7), 10);
    let (_, flying) = send(&mut multiplexer, asked, 10);
    assert_eq!(flying.timer, Some(7));
}

#[test]
fn sweep_keeps_what_is_pending_and_arms_for_the_earliest() {
    let mut multiplexer = Multiplexer::new(8);
    for (token, flow, timeout) in [(1u64, 10u16, 500u64), (2, 20, 100), (3, 30, 300)] {
        let asked = multiplexer.handle(request(token, 64, flow, timeout), 0);
        send(&mut multiplexer, asked, 1_000);
    }
    let swept = multiplexer.handle(Input::Timeout, 1_100);
    assert_eq!(
        swept.resolutions,
        vec![Resolution {
            token: 2,
            result: Err(PingError::Timeout)
        }]
    );
    assert_eq!(swept.timer, Some(200));
    assert_eq!(multiplexer.in_flight(), 2);
    let swept = multiplexer.handle(Input::Timeout, 2_000);
    assert_eq!(
        swept.resolutions,
        vec![
            Resolution {
                token: 1,
                result: Err(PingError::Timeout)
            },
            Resolution {
                token: 3,
                result: Err(PingError::Timeout)
            }
        ]
    );
    assert_eq!(swept.timer, None);
}

#[test]
fn time_exceeded_and_other_errors_are_reported_with_the_responder() {
    let mut multiplexer = Multiplexer::new(8);
    let asked = multiplexer.handle(request(1, 3, 0, SECOND), 0);
    let (first, _) = send(&mut multiplexer, asked, 100);
    let asked = multiplexer.handle(request(2, 3, 0, SECOND), 0);
    let (second, _) = send(&mut multiplexer, asked, 200);
    assert_eq!((first, second), (0, 1));

    let message = quoting(11, [1, 2, 3, 4], first, 0xFFFF);
    let (kind, id) = classify(0x0A00_0001, &message, 150).unwrap();
    let answered = multiplexer.handle(kind.build_input(id), 150);
    assert_eq!(
        answered.resolutions,
        vec![Resolution {
            token: 1,
            result: Err(PingError::TimeExceeded {
                addr: 0x0A00_0001,
                latency: 50
            })
        }]
    );
    let mut message = quoting(3, [1, 2, 3, 4], second, 0xFFFE);
    message[1] = 1;
    let (kind, id) = classify(0x0A00_0002, &message, 200).unwrap();
    let answered = multiplexer.handle(kind.build_input(id), 200);
    // the answer does not come after the start on the clock: the latency is the minimal one.
    assert_eq!(
        answered.resolutions,
        vec![Resolution {
            token: 2,
            result: Err(PingError::IcmpError {
                responder: 0x0A00_0002,
                code: 1,
                ty: 3,
                data: message,
                latency: 10
            })
        }]
    );
}

#[test]
fn refused_packet_fails_and_keeps_the_sequence() {
    let mut multiplexer = Multiplexer::new(8);
    let asked = multiplexer.handle(request(1, 64, 5, SECOND), 0);
    let transmission = asked.transmission.unwrap();
    assert_eq!(transmission.identifier, 5);
    let refused = multiplexer.sent(transmission, false, 0);
    assert_eq!(
        refused.resolutions,
        vec![Resolution {
            token: 1,
            result: Err(PingError::FailedToSendPacket)
        }]
    );
    assert_eq!(refused.timer, None);
    assert_eq!(multiplexer.in_flight(), 0);
    let asked = multiplexer.handle(request(2, 64, 5, SECOND), 0);
    assert_eq!(asked.transmission.unwrap().identifier, 5);
}

#[test]
fn ttl_is_set_only_when_it_changes() {
    let mut multiplexer = Multiplexer::new(8);
    let mut set = Vec::new();
    for ttl in [0u8, 64, 64, 3, 3, 64] {
        let asked = multiplexer.handle(request(0, ttl, 0, SECOND), 0);
        set.push(asked.transmission.as_ref().unwrap().set_ttl);
        send(&mut multiplexer, asked, 0);
    }
    assert_eq!(set, vec![None, Some(64), None, Some(3), None, Some(64)]);
}

#[test]
fn identifiers_wrap_and_still_match() {
    let mut multiplexer = Multiplexer::new(8);
    let mut last = 0;
    for n in 0..0x1_0002u64 {
        let asked = multiplexer.handle(request(n, 64, 0xFFFE, SECOND), 0);
        let expected = ((n % 0x1_0000) as u16).wrapping_add(0xFFFE);
        {
            let transmission = asked.transmission.as_ref().unwrap();
            assert_eq!(transmission.identifier, expected);
            assert_eq!(transmission.sequence_number, 0xFFFF - (n % 0x1_0000) as u16);
        }
        let (identifier, _) = send(&mut multiplexer, asked, n);
        let (kind, id) = classify(DEST, &echo_reply(identifier, 0), n + 3).unwrap();
        let answered = multiplexer.handle(kind.build_input(id), n + 3);
        assert_eq!(
            answered.resolutions,
            vec![Resolution {
                token: n,
                result: Ok(3)
            }]
        );
        last = identifier;
    }
    // sequence 0x10001 is sequence 1 again.
    assert_eq!(last, 0xFFFF);
}

#[test]
fn a_probe_under_a_key_in_flight_takes_its_place() {
    let mut multiplexer = Multiplexer::new(8);
    let asked = multiplexer.handle(request(1, 64, 1, SECOND), 0);
    let (first, _) = send(&mut multiplexer, asked, 0);
    // the sequence moved on by one: a flow lower by one gives the same identifier.
    let asked = multiplexer.handle(request(2, 64, 0, SECOND), 0);
    let transmission = asked.transmission.unwrap();
    assert_eq!(transmission.identifier, first);
    let replaced = multiplexer.sent(transmission, true, 5);
    assert_eq!(
        replaced.resolutions,
        vec![Resolution {
            token: 1,
            result: Err(PingError::BackendClosed)
        }]
    );
    assert_eq!(multiplexer.in_flight(), 1);
    let (kind, id) = classify(DEST, &echo_reply(first, 0), 9).unwrap();
    let answered = multiplexer.handle(kind.build_input(id), 9);
    assert_eq!(
        answered.resolutions,
        vec![Resolution {
            token: 2,
            result: Ok(4)
        }]
    );
}

#[test]
fn stop_closes_what_is_in_flight_and_what_comes_after() {
    let mut multiplexer = Multiplexer::new(8);
    for token in [1u64, 2] {
        let asked = multiplexer.handle(request(token, 64, 0, SECOND), 0);
        send(&mut multiplexer, asked, 0);
    }
    let stopped = multiplexer.handle(Input::Stop, 1);
    assert!(stopped.halt);
    assert_eq!(
        stopped.resolutions,
        vec![
            Resolution {
                token: 1,
                result: Err(PingError::BackendClosed)
            },
            Resolution {
                token: 2,
                result: Err(PingError::BackendClosed)
            }
        ]
    );
    assert_eq!(multiplexer.in_flight(), 0);
    for token in [3u64, 4] {
        let after = multiplexer.handle(request(token, 64, 0, SECOND), 2);
        assert!(after.transmission.is_none());
        assert_eq!(
            after.resolutions,
            vec![Resolution {
                token,
                result: Err(PingError::BackendClosed)
            }]
        );
    }
}

#[test]
fn deadline_is_clamped_to_the_range_of_the_clock() {
    let mut multiplexer = Multiplexer::new(8);
    let asked = multiplexer.handle(request(1, 64, 0, u64::MAX), 0);
    send(&mut multiplexer, asked, 10);
    let swept = multiplexer.handle(Input::Timeout, u64::MAX - 1);
    assert!(swept.resolutions.is_empty());
    assert_eq!(swept.timer, Some(1));
    let swept = multiplexer.handle(Input::Timeout, u64::MAX);
    assert_eq!(swept.resolutions.len(), 1);
}
