//! ICMP echo on the wire: the request that is sent, and what the messages
//! that come back say about the probe they answer.

use vstd::prelude::*;
use crate::wire::{be_u16, be_u32, read_be_u16, read_be_u32};

verus! {

/// The ICMP type of an echo reply.
pub const ECHO_REPLY: u8 = 0;

/// The ICMP type of an echo request.
pub const ECHO_REQUEST: u8 = 8;

/// The ICMP type of a time-exceeded message.
pub const TIME_EXCEEDED: u8 = 11;

/// The length of the header of an echo message and of an ICMP error.
pub const ECHO_HEADER_LEN: usize = 8;

/// The length of an IPv4 header without options.
pub const IPV4_HEADER_LEN: usize = 20;

/// The internet checksum of `data`, taken with the 16-bit word at word offset
/// `skipword` left out.
pub uninterp spec fn internet_checksum(data: Seq<u8>, skipword: nat) -> u16;

/// `pnet::util::checksum`: the one's-complement sum of the big-endian 16-bit
/// words of `data`, folded to 16 bits and inverted, the word at `skipword`
/// taken as zero. The result is a function of the two arguments alone. The
/// function adds the words in 32 bits: the bound on the length keeps that sum
/// within range.
#[verifier::external_body]
fn checksum(data: &[u8], skipword: usize) -> (sum: u16)
    requires
        data@.len() <= 0x1_0000,
    ensures
        sum == internet_checksum(data@, skipword as nat),
{
    pnet::util::checksum(data, skipword)
}

/// An echo request of `size` bytes: type 8, code 0, the checksum, the
/// identifier and the sequence number in network order, and a payload of zeros.
pub open spec fn echo_request_bytes(
    size: nat,
    identifier: u16,
    sequence_number: u16,
    checksum: u16,
) -> Seq<u8> {
    seq![
        8u8,
        0u8,
        (checksum / 256) as u8,
        (checksum % 256) as u8,
        (identifier / 256) as u8,
        (identifier % 256) as u8,
        (sequence_number / 256) as u8,
        (sequence_number % 256) as u8,
    ] + Seq::new((size - 8) as nat, |i: int| 0u8)
}

/// The echo request of `size` bytes with its checksum field left at zero.
pub fn unsummed_echo_request(size: u16, identifier: u16, sequence_number: u16) -> (packet: Vec<u8>)
    requires
        size >= 8,
    ensures
        packet@ == echo_request_bytes(size as nat, identifier, sequence_number, 0),
{
    let mut packet: Vec<u8> = vec![0u8; size as usize];
    packet.set(0, ECHO_REQUEST);
    packet.set(4, (identifier / 256) as u8);
    packet.set(5, (identifier % 256) as u8);
    packet.set(6, (sequence_number / 256) as u8);
    packet.set(7, (sequence_number % 256) as u8);
    assert(packet@ =~= echo_request_bytes(size as nat, identifier, sequence_number, 0));
    packet
}

/// `packet` with `checksum` stored in its checksum field, bytes 2 and 3, in
/// network order.
pub fn with_checksum(packet: Vec<u8>, checksum: u16) -> (summed: Vec<u8>)
    requires
        packet@.len() >= 4,
    ensures
        summed@ == packet@.update(2, (checksum / 256) as u8).update(3, (checksum % 256) as u8),
{
    let mut summed = packet;
    summed.set(2, (checksum / 256) as u8);
    summed.set(3, (checksum % 256) as u8);
    summed
}

/// The echo request of `size` bytes for a probe, ready to be sent: its
/// checksum is the internet checksum of the message, taken with the checksum
/// field left out.
pub fn build_echo_request(size: u16, identifier: u16, sequence_number: u16) -> (packet: Vec<u8>)
    requires
        size >= 8,
    ensures
        packet@ == echo_request_bytes(
            size as nat,
            identifier,
            sequence_number,
            internet_checksum(
                echo_request_bytes(size as nat, identifier, sequence_number, 0),
                1,
            ),
        ),
{
    let packet = unsummed_echo_request(size, identifier, sequence_number);
    let sum = checksum(packet.as_slice(), 1);
    let summed = with_checksum(packet, sum);
    assert(summed@ =~= echo_request_bytes(size as nat, identifier, sequence_number, sum));
    summed
}

/// The identity of a probe as a message gives it: the identifier and the
/// sequence number of the echo header, and the destination of the probe.
#[derive(Debug, Clone, Copy, PartialEq, Eq, Structural)]
pub struct ProbeIdentity {
    pub identifier: u16,
    pub sequence_number: u16,
    pub destination: u32,
}

/// The identifier and the sequence number of an echo header: bytes 4 to 7,
/// in network order.
pub open spec fn echo_fields(header: Seq<u8>) -> (u16, u16) {
    (be_u16(header[4], header[5]), be_u16(header[6], header[7]))
}

/// The length in bytes that an IPv4 header gives for itself: four times its
/// low nibble.
pub open spec fn ipv4_header_len(datagram: Seq<u8>) -> int {
    4 * (datagram[0] % 16)
}

/// The payload of an IPv4 datagram of which only the first bytes may be
/// there. It starts after the header, which is never taken shorter than 20
/// bytes, and runs for the total length less the header length, or to the
/// end of what is there.
pub open spec fn ipv4_payload(datagram: Seq<u8>) -> Seq<u8> {
    let header_len = ipv4_header_len(datagram);
    let total_len = be_u16(datagram[2], datagram[3]) as int;
    let start = if header_len > 20 {
        header_len
    } else {
        20
    };
    let payload_len = if total_len > header_len {
        total_len - header_len
    } else {
        0
    };
    let end = if start + payload_len < datagram.len() {
        start + payload_len
    } else {
        datagram.len() as int
    };
    if datagram.len() <= start {
        Seq::empty()
    } else {
        datagram.subrange(start, end)
    }
}

/// The destination of an IPv4 datagram: bytes 16 to 19 of its header.
pub open spec fn ipv4_destination(datagram: Seq<u8>) -> u32 {
    be_u32(datagram[16], datagram[17], datagram[18], datagram[19])
}

/// The probe that an ICMP error quotes: after the 8 bytes of its own header
/// the error carries the IPv4 header of the datagram it answers and the
/// first bytes of that datagram's payload, the echo header of the probe.
/// `None` where the message is too short to hold one of the three.
pub open spec fn quoted_probe(message: Seq<u8>) -> Option<ProbeIdentity> {
    if message.len() < 8 {
        None
    } else {
        let datagram = message.skip(8);
        if datagram.len() < 20 {
            None
        } else {
            let echo = ipv4_payload(datagram);
            if echo.len() < 8 {
                None
            } else {
                Some(
                    ProbeIdentity {
                        identifier: echo_fields(echo).0,
                        sequence_number: echo_fields(echo).1,
                        destination: ipv4_destination(datagram),
                    },
                )
            }
        }
    }
}

/// The probe that an echo reply from `source` answers: the reply repeats the
/// identifier and the sequence number, and comes from the destination.
/// `None` where the message is shorter than an echo header.
pub open spec fn replied_probe(source: u32, message: Seq<u8>) -> Option<ProbeIdentity> {
    if message.len() < 8 {
        None
    } else {
        Some(
            ProbeIdentity {
                identifier: echo_fields(message).0,
                sequence_number: echo_fields(message).1,
                destination: source,
            },
        )
    }
}

/// Reads the probe that an ICMP error quotes.
pub fn read_quoted_probe(message: &[u8]) -> (probe: Option<ProbeIdentity>)
    ensures
        probe == quoted_probe(message@),
{
    if message.len() < ECHO_HEADER_LEN {
        return None;
    }
    let datagram = vstd::slice::slice_subrange(message, ECHO_HEADER_LEN, message.len());
    assert(datagram@ =~= message@.skip(8));
    if datagram.len() < IPV4_HEADER_LEN {
        return None;
    }
    let header_len: usize = 4 * ((datagram[0] % 16) as usize);
    let total_len: usize = read_be_u16(datagram, 2) as usize;
    let start: usize = if header_len > IPV4_HEADER_LEN {
        header_len
    } else {
        IPV4_HEADER_LEN
    };
    let payload_len: usize = if total_len > header_len {
        total_len - header_len
    } else {
        0
    };
    if datagram.len() <= start {
        return None;
    }
    let end: usize = if payload_len < datagram.len() - start {
        start + payload_len
    } else {
        datagram.len()
    };
    if end - start < ECHO_HEADER_LEN {
        return None;
    }
    let ghost echo = ipv4_payload(datagram@);
    assert(echo =~= datagram@.subrange(start as int, end as int));
    let identifier = read_be_u16(datagram, start + 4);
    let sequence_number = read_be_u16(datagram, start + 6);
    let destination = read_be_u32(datagram, 16);
    Some(ProbeIdentity { identifier, sequence_number, destination })
}

/// Reads the probe that an echo reply from `source` answers.
pub fn read_replied_probe(source: u32, message: &[u8]) -> (probe: Option<ProbeIdentity>)
    ensures
        probe == replied_probe(source, message@),
{
    if message.len() < ECHO_HEADER_LEN {
        return None;
    }
    let identifier = read_be_u16(message, 4);
    let sequence_number = read_be_u16(message, 6);
    Some(ProbeIdentity { identifier, sequence_number, destination: source })
}

} // verus!
