use netprobe::configuration::{
    decode_header, encode_header, CursorConfiguration, CursorType, DecodeError, Header,
    PingConfiguration,
};
use netprobe::cursor::Cursor;
use netprobe::legacy::{
    Configuration, ConfigurationError, IteratorConfiguration, IteratorType, TargetSource,
};

const SECOND: u64 = 1_000_000_000;

fn check(conf: Configuration) {
    let encoded = conf.encode();
    let (decoded, decoded_size) = Configuration::decode(&encoded).unwrap();
    assert_eq!(conf, decoded);
    assert_eq!(encoded.len(), decoded_size);
}

#[test]
fn configuration_decode_consistency() {
    check(Configuration {
        iterator: IteratorConfiguration {
            ty: IteratorType::Sampling,
            offset: 42,
            nb: 99,
        },
        ping: PingConfiguration {
            timeout: 33 * SECOND,
            size: 444,
            parallelism: 90,
            ttl: 34,
        },
        out_file: "/root/plop".to_string(),
    });

    check(Configuration {
        iterator: IteratorConfiguration {
            ty: IteratorType::Sequential,
            offset: 0,
            nb: 0xFF_FF_FF_FF,
        },
        ping: PingConfiguration {
            timeout: 33 * SECOND,
            size: 345,
            parallelism: 4,
            ttl: 22,
        },
        out_file: "".to_string(),
    });
}

#[test]
fn ping_configuration_has_the_documented_bytes() {
    let conf = PingConfiguration {
        timeout: 0x0102_0304_0506_0708,
        size: 0x1122,
        parallelism: 0x3344_5566,
        ttl: 7,
    };
    assert_eq!(
        conf.encode(),
        vec![
            15, 0, 0, 0, 8, 7, 6, 5, 4, 3, 2, 1, 0x22, 0x11, 0x66, 0x55, 0x44, 0x33, 7
        ]
    );
    assert_eq!(PingConfiguration::decode(&conf.encode()), Ok((conf, 19)));
}

#[test]
fn ping_configuration_decode_rejects_bad_input() {
    let conf = PingConfiguration {
        timeout: 1,
        size: 64,
        parallelism: 2,
        ttl: 3,
    };
    let mut data = conf.encode();
    assert_eq!(
        PingConfiguration::decode(&data[..18]),
        Err(DecodeError::Truncated)
    );
    data[0] = 16;
    assert_eq!(
        PingConfiguration::decode(&data),
        Err(DecodeError::BadTotalSize {
            found: 16,
            expected: 15
        })
    );
}

#[test]
fn iterator_configuration_round_trip_and_errors() {
    let conf = IteratorConfiguration {
        ty: IteratorType::Periodic,
        offset: 0x0A0B_0C0D,
        nb: 3,
    };
    let data = conf.encode();
    assert_eq!(data, vec![9, 0, 0, 0, 2, 0x0D, 0x0C, 0x0B, 0x0A, 3, 0, 0, 0]);
    assert_eq!(IteratorConfiguration::decode(&data), Ok((conf, 13)));
    assert_eq!(
        IteratorConfiguration::decode(&data[..12]),
        Err(DecodeError::Truncated)
    );
    let mut unknown = data.clone();
    unknown[4] = 9;
    assert_eq!(
        IteratorConfiguration::decode(&unknown),
        Err(DecodeError::UnknownType(9))
    );
    let mut bad_size = data.clone();
    bad_size[0] = 8;
    assert_eq!(
        IteratorConfiguration::decode(&bad_size),
        Err(DecodeError::BadTotalSize {
            found: 8,
            expected: 9
        })
    );
}

#[test]
fn configuration_decode_reports_each_error() {
    let conf = Configuration {
        iterator: IteratorConfiguration {
            ty: IteratorType::ReverseEndianSequential,
            offset: 1,
            nb: 2,
        },
        ping: PingConfiguration {
            timeout: 5,
            size: 64,
            parallelism: 8,
            ttl: 9,
        },
        out_file: "é.bin".to_string(),
    };
    let data = conf.encode();
    assert_eq!(data.len(), 4 + 13 + 19 + 4 + 6);
    assert_eq!(
        Configuration::decode(&data[..3]),
        Err(ConfigurationError::Truncated)
    );
    assert_eq!(
        Configuration::decode(&data[..10]),
        Err(ConfigurationError::Iterator(DecodeError::Truncated))
    );
    assert_eq!(
        Configuration::decode(&data[..20]),
        Err(ConfigurationError::Ping(DecodeError::Truncated))
    );
    assert_eq!(
        Configuration::decode(&data[..data.len() - 1]),
        Err(ConfigurationError::Truncated)
    );
    let mut text = data.clone();
    text[40] = 0xFF;
    assert_eq!(
        Configuration::decode(&text),
        Err(ConfigurationError::InvalidText)
    );
    let mut size = data.clone();
    size[0] += 1;
    assert_eq!(
        Configuration::decode(&size),
        Err(ConfigurationError::BadTotalSize {
            found: 43,
            expected: 42
        })
    );
    let mut followed = data.clone();
    followed.extend_from_slice(&[1, 2, 3]);
    assert_eq!(Configuration::decode(&followed), Ok((conf, data.len())));
}

#[test]
fn cursor_type_names_and_numbers() {
    assert_eq!(CursorType::from_str("sampling"), Ok(CursorType::Sampling));
    assert_eq!(CursorType::from_str("sequential"), Ok(CursorType::Sequential));
    assert_eq!(CursorType::from_str("periodic"), Ok(CursorType::Periodic));
    assert_eq!(
        CursorType::from_str("reverse_endian"),
        Ok(CursorType::ReverseEndianSequential)
    );
    assert_eq!(CursorType::from_str("Sampling"), Err(()));
    assert_eq!(CursorType::from_str(""), Err(()));
    assert_eq!(CursorType::from_u8(0), Ok(CursorType::Sampling));
    assert_eq!(CursorType::from_u8(1), Ok(CursorType::Sequential));
    assert_eq!(CursorType::from_u8(2), Ok(CursorType::Periodic));
    assert_eq!(
        CursorType::from_u8(3),
        Ok(CursorType::ReverseEndianSequential)
    );
    assert_eq!(CursorType::from_u8(4), Err(()));
    for n in 0..4 {
        assert_eq!(CursorType::from_u8(n).unwrap().to_u8(), n);
    }
}

#[test]
fn iterator_type_names_and_numbers() {
    assert_eq!(IteratorType::from_str("sampling"), Ok(IteratorType::Sampling));
    assert_eq!(
        IteratorType::from_str("reverse_endian"),
        Ok(IteratorType::ReverseEndianSequential)
    );
    assert_eq!(IteratorType::from_str("reverse"), Err(()));
    assert_eq!(IteratorType::from_u8(2), Ok(IteratorType::Periodic));
    assert_eq!(IteratorType::from_u8(255), Err(()));
    assert_eq!(IteratorType::Sequential.to_u8(), 1);
    assert_eq!(
        IteratorType::Periodic.to_cursor_type(),
        CursorType::Periodic
    );
}

#[test]
fn header_round_trip() {
    let body = b"{\"out_file\":\"/root/plop\"}".to_vec();
    let mut file = encode_header(&body);
    assert_eq!(file[0], 1);
    assert_eq!(&file[1..5], &[body.len() as u8, 0, 0, 0]);
    assert_eq!(&file[5..], &body[..]);
    let size = file.len();
    file.extend_from_slice(&[0; 16]);
    match decode_header(&file) {
        Ok(Header::Versioned {
            start,
            len,
            size: decoded_size,
        }) => {
            assert_eq!(&file[start..start + len], &body[..]);
            assert_eq!(decoded_size, size);
        }
        other => panic!("unexpected header: {:?}", other),
    }
}

#[test]
fn header_errors() {
    assert_eq!(decode_header(&[]), Err(DecodeError::Truncated));
    assert_eq!(decode_header(&[0, 1, 2]), Ok(Header::Legacy));
    assert_eq!(
        decode_header(&[7, 0, 0, 0, 0]),
        Err(DecodeError::UnknownConfigurationVersion(7))
    );
    assert_eq!(decode_header(&[1, 0, 0]), Err(DecodeError::Truncated));
    assert_eq!(
        decode_header(&[1, 3, 0, 0, 0, b'{', b'}']),
        Err(DecodeError::Truncated)
    );
    assert_eq!(
        decode_header(&[1, 2, 0, 0, 0, b'{', b'}']),
        Ok(Header::Versioned {
            start: 5,
            len: 2,
            size: 7
        })
    );
}

fn walk(conf: CursorConfiguration) -> Vec<u32> {
    let mut cursor = conf.generate().unwrap();
    let mut seen = vec![cursor.value()];
    while cursor.move_next().is_ok() {
        seen.push(cursor.value());
    }
    seen
}

#[test]
fn generated_sequential_cursor_skips_reserved_blocks() {
    let seen = walk(CursorConfiguration {
        ty: CursorType::Sequential,
        offset: 0,
        nb: 4,
        native_cursor: true,
    });
    assert_eq!(seen, vec![0x0100_0000, 0x0100_0001, 0x0100_0002, 0x0100_0003]);
    let seen = walk(CursorConfiguration {
        ty: CursorType::Sequential,
        offset: 9 * 0x0100_0000 - 1,
        nb: 3,
        native_cursor: true,
    });
    // 1.0.0.0 to 9.255.255.255 are valid, 10.0.0.0/8 is not.
    assert_eq!(seen, vec![0x09FF_FFFF, 0x0B00_0000, 0x0B00_0001]);
}

#[test]
fn generated_sampling_cursor_starts_on_the_midpoint() {
    let seen = walk(CursorConfiguration {
        ty: CursorType::Sampling,
        offset: 0,
        nb: 3,
        native_cursor: true,
    });
    assert_eq!(seen, vec![0x4000_0000, 0x2000_0000, 0x6000_0000]);
    let seen = walk(CursorConfiguration {
        ty: CursorType::Sampling,
        offset: 0,
        nb: 2,
        native_cursor: false,
    });
    assert_eq!(seen, vec![0x2000_0000, 0x6000_0000]);
}

#[test]
fn generated_periodic_and_reverse_cursors() {
    let seen = walk(CursorConfiguration {
        ty: CursorType::Periodic,
        offset: 0,
        nb: 2,
        native_cursor: false,
    });
    // steps of 256 from offset 0: 0.0.1.0 is reserved, and so is all of 0.0.0.0/8.
    assert_eq!(seen, vec![0x0100_0000, 0x0100_0100]);
    let seen = walk(CursorConfiguration {
        ty: CursorType::ReverseEndianSequential,
        offset: 0,
        nb: 3,
        native_cursor: true,
    });
    assert_eq!(seen, vec![0x0100_0000, 0x0200_0000, 0x0300_0000]);
}

#[test]
fn generated_cursor_is_bounded_below_and_above() {
    let mut cursor = CursorConfiguration {
        ty: CursorType::Sequential,
        offset: 5,
        nb: 2,
        native_cursor: true,
    }
    .generate()
    .unwrap();
    assert_eq!(cursor.value(), 0x0100_0005);
    assert!(cursor.move_prev().is_err());
    assert_eq!(cursor.value(), 0x0100_0005);
    assert!(cursor.move_next().is_ok());
    assert!(cursor.move_next().is_err());
    assert_eq!(cursor.value(), 0x0100_0006);
    assert!(cursor.move_prev().is_ok());
    assert_eq!(cursor.value(), 0x0100_0005);
}

#[test]
fn no_cursor_without_targets() {
    let none = CursorConfiguration {
        ty: CursorType::Sequential,
        offset: 0,
        nb: 0,
        native_cursor: true,
    };
    assert!(none.generate().is_err());
}

#[test]
fn legacy_iterator_yields_the_requested_number_of_targets() {
    let mut iter = IteratorConfiguration {
        ty: IteratorType::Sequential,
        offset: 2,
        nb: 3,
    }
    .generate();
    assert_eq!(iter.next(), Some(0x0100_0002));
    assert_eq!(iter.next(), Some(0x0100_0003));
    assert_eq!(iter.next(), Some(0x0100_0004));
    assert_eq!(iter.next(), None);
    assert_eq!(iter.next(), None);
    let mut none = IteratorConfiguration {
        ty: IteratorType::Sampling,
        offset: 0,
        nb: 0,
    }
    .generate();
    assert_eq!(none.next(), None);
}
