use netprobe::internet::{ip_is_valid, ip_to_u32, u32_to_ip};
use netprobe::result_stream::{decode_records, decode_result, encode_result};
use netprobe::wire::{
    push_le_u16, push_le_u32, push_le_u64, read_be_u16, read_be_u32, read_le_u16, read_le_u32,
    read_le_u64,
};

#[test]
fn little_endian_round_trip() {
    let mut out = Vec::new();
    push_le_u16(&mut out, 0x1234);
    push_le_u32(&mut out, 0x89AB_CDEF);
    push_le_u64(&mut out, 0x0102_0304_0506_0708);
    assert_eq!(
        out,
        vec![0x34, 0x12, 0xEF, 0xCD, 0xAB, 0x89, 8, 7, 6, 5, 4, 3, 2, 1]
    );
    let mut input: &[u8] = &out;
    assert_eq!(read_le_u16(&mut input), 0x1234);
    assert_eq!(read_le_u32(&mut input), 0x89AB_CDEF);
    assert_eq!(read_le_u64(&mut input), 0x0102_0304_0506_0708);
    assert!(input.is_empty());
}

#[test]
fn big_endian_reads() {
    let data = [0xDE, 0xAD, 0xBE, 0xEF, 0x01];
    assert_eq!(read_be_u16(&data, 0), 0xDEAD);
    assert_eq!(read_be_u16(&data, 3), 0xEF01);
    assert_eq!(read_be_u32(&data, 0), 0xDEAD_BEEF);
    assert_eq!(read_be_u32(&data, 1), 0xADBE_EF01);
}

#[test]
fn reserved_blocks_are_not_valid() {
    let reserved: [(u32, u32); 18] = [
        (0x0000_0000, 0x00FF_FFFF),
        (0x0A00_0000, 0x0AFF_FFFF),
        (0x6440_0000, 0x647F_FFFF),
        (0x7F00_0000, 0x7FFF_FFFF),
        (0xA9FE_0000, 0xA9FE_FFFF),
        (0xAC10_0000, 0xAC1F_FFFF),
        (0xC000_0000, 0xC000_00FF),
        (0xC000_0200, 0xC000_02FF),
        (0xC01F_C400, 0xC01F_C4FF),
        (0xC034_C100, 0xC034_C1FF),
        (0xC058_6300, 0xC058_63FF),
        (0xC0A8_0000, 0xC0A8_FFFF),
        (0xC0AF_3000, 0xC0AF_30FF),
        (0xC612_0000, 0xC613_FFFF),
        (0xC633_6400, 0xC633_64FF),
        (0xCB00_7100, 0xCB00_71FF),
        (0xE000_0000, 0xEFFF_FFFF),
        (0xF000_0000, 0xFFFF_FFFF),
    ];
    for (first, last) in reserved {
        assert!(!ip_is_valid(&first));
        assert!(!ip_is_valid(&last));
        assert!(!ip_is_valid(&(first + (last - first) / 2)));
    }
    for valid in [
        0x0100_0000u32,
        0x0808_0808,
        0x09FF_FFFF,
        0x0B00_0000,
        0x643F_FFFF,
        0x6480_0000,
        0xAC0F_FFFF,
        0xAC20_0000,
        0xC000_0100,
        0xC0A7_FFFF,
        0xC0A9_0000,
        0xC611_FFFF,
        0xC614_0000,
        0xDFFF_FFFF,
    ] {
        assert!(ip_is_valid(&valid), "{:08x}", valid);
    }
}

#[test]
fn addresses_and_octets() {
    assert_eq!(u32_to_ip(0x0102_0304), [1, 2, 3, 4]);
    assert_eq!(u32_to_ip(0xFFFF_FF00), [255, 255, 255, 0]);
    assert_eq!(ip_to_u32([8, 8, 4, 4]), 0x0808_0404);
    for n in [0u32, 1, 0x7F00_0001, 0xC0A8_0101, u32::MAX] {
        assert_eq!(ip_to_u32(u32_to_ip(n)), n);
    }
}

#[test]
fn records_are_index_then_latency_in_tens_of_nanoseconds() {
    assert_eq!(encode_result(1, 20), vec![1, 0, 0, 0, 2, 0, 0, 0]);
    assert_eq!(
        encode_result(0x0A0B_0C0D, 10_000_005),
        vec![0x0D, 0x0C, 0x0B, 0x0A, 0x40, 0x42, 0x0F, 0x00]
    );
    // a latency of 2^32 tens of nanoseconds wraps.
    assert_eq!(
        encode_result(7, 10 * (1u64 << 32) + 30),
        vec![7, 0, 0, 0, 3, 0, 0, 0]
    );
    assert_eq!(decode_result(&[1, 0, 0, 0, 2, 0, 0, 0]), (1, 20));
    assert_eq!(
        decode_result(&encode_result(0xFFFF_FFFF, 123_456_789)),
        (0xFFFF_FFFF, 123_456_780)
    );
}

#[test]
fn record_streams_decode_with_duplicates() {
    let mut stream = Vec::new();
    stream.extend(encode_result(0, 100));
    stream.extend(encode_result(1, 200));
    stream.extend(encode_result(1, 300));
    assert_eq!(
        decode_records(&stream),
        Some(vec![(0, 10), (1, 20), (1, 30)])
    );
    assert_eq!(decode_records(&stream[..15]), None);
    assert_eq!(decode_records(&[]), Some(vec![]));
}
