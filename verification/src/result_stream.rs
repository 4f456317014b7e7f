//! The body of a result file: a flat run of 8-byte records, each an index
//! and a latency in tens of nanoseconds, both 32-bit little-endian.

use vstd::prelude::*;
use crate::wire::{le_u32, from_le_u32, push_le_u32, read_le_u32, lemma_le_u32_round_trip};

verus! {

/// The length of one record in bytes.
pub const RECORD_LEN: usize = 8;

/// A latency of `nanos` nanoseconds as a record stores it: in tens of
/// nanoseconds, reduced to 32 bits.
pub open spec fn latency_units(nanos: u64) -> u32 {
    (nanos / 10 % 0x1_0000_0000) as u32
}

/// The record of probe `index` answered after `nanos` nanoseconds.
pub open spec fn record_bytes(index: u32, nanos: u64) -> Seq<u8> {
    le_u32(index) + le_u32(latency_units(nanos))
}

/// The records that `bytes` holds, in order; a tail shorter than a record is left out.
pub open spec fn records_of(bytes: Seq<u8>) -> Seq<(u32, u32)> {
    Seq::new(
        bytes.len() / 8,
        |k: int| (from_le_u32(bytes.subrange(8 * k, 8 * k + 4)), from_le_u32(bytes.subrange(8 * k + 4, 8 * k + 8))),
    )
}

/// Encodes one result as a record.
pub fn encode_result(index: u32, duration: u64) -> (record: Vec<u8>)
    ensures
        record@ == record_bytes(index, duration),
        record@.len() == RECORD_LEN,
{
    let mut record: Vec<u8> = Vec::new();
    push_le_u32(&mut record, index);
    push_le_u32(&mut record, (duration / 10 % 0x1_0000_0000) as u32);
    assert(record@ =~= record_bytes(index, duration));
    record
}

/// Decodes the record at the front of `data` into the probe index and the
/// latency in nanoseconds.
pub fn decode_result(data: &[u8]) -> (result: (u32, u64))
    requires
        data@.len() >= RECORD_LEN,
    ensures
        result.0 == from_le_u32(data@.subrange(0, 4)),
        result.1 == 10 * from_le_u32(data@.subrange(4, 8)),
{
    let mut rest: &[u8] = data;
    let index = read_le_u32(&mut rest);
    let latency = read_le_u32(&mut rest);
    assert(from_le_u32(data@) == from_le_u32(data@.subrange(0, 4)));
    assert(from_le_u32(data@.subrange(4, data@.len() as int)) == from_le_u32(
        data@.subrange(4, 8),
    ));
    (index, latency as u64 * 10)
}

/// Decodes every record of `data`. Returns `None` when `data` is not a whole
/// number of records.
pub fn decode_records(data: &[u8]) -> (result: Option<Vec<(u32, u32)>>)
    ensures
        result.is_some() <==> data@.len() % 8 == 0,
        result matches Some(records) ==> records@ == records_of(data@),
{
    if data.len() % RECORD_LEN != 0 {
        return None;
    }
    let count = data.len() / RECORD_LEN;
    let mut records: Vec<(u32, u32)> = Vec::new();
    let mut k: usize = 0;
    while k < count
        invariant
            k <= count,
            count == data@.len() / 8,
            data@.len() == 8 * count,
            data@.len() <= usize::MAX,
            records@.len() == k,
            forall|j: int| 0 <= j < k ==> records@[j] == #[trigger] records_of(data@)[j],
        decreases count - k,
    {
        let mut rest: &[u8] = vstd::slice::slice_subrange(data, 8 * k, 8 * k + 8);
        let ghost chunk = rest@;
        let index = read_le_u32(&mut rest);
        let latency = read_le_u32(&mut rest);
        proof {
            assert(chunk.subrange(0, 4) =~= data@.subrange(8 * k, 8 * k + 4));
            assert(chunk.subrange(4, 8) =~= data@.subrange(8 * k + 4, 8 * k + 8));
            assert(from_le_u32(chunk) == from_le_u32(chunk.subrange(0, 4)));
            assert(from_le_u32(chunk.subrange(4, 8)) == from_le_u32(
                chunk.subrange(4, chunk.len() as int),
            ));
        }
        records.push((index, latency));
        k += 1;
    }
    assert(records@ =~= records_of(data@));
    Some(records)
}

/// A record decodes to the index and to the latency it was encoded from,
/// the latency rounded down to tens of nanoseconds and reduced to 32 bits.
pub proof fn lemma_record_round_trip(index: u32, nanos: u64)
    ensures
        record_bytes(index, nanos).len() == 8,
        from_le_u32(record_bytes(index, nanos).subrange(0, 4)) == index,
        from_le_u32(record_bytes(index, nanos).subrange(4, 8)) == latency_units(nanos),
        records_of(record_bytes(index, nanos)) == seq![(index, latency_units(nanos))],
{
    let r = record_bytes(index, nanos);
    lemma_le_u32_round_trip(index);
    lemma_le_u32_round_trip(latency_units(nanos));
    assert(r.subrange(0, 4) =~= le_u32(index));
    assert(r.subrange(4, 8) =~= le_u32(latency_units(nanos)));
    assert(records_of(r) =~= seq![(index, latency_units(nanos))]);
}

/// A stream followed by one more record holds the records of the stream
/// followed by that record.
pub proof fn lemma_records_append(stream: Seq<u8>, index: u32, nanos: u64)
    requires
        stream.len() % 8 == 0,
    ensures
        (stream + record_bytes(index, nanos)).len() % 8 == 0,
        records_of(stream + record_bytes(index, nanos)) == records_of(stream).push(
            (index, latency_units(nanos)),
        ),
{
    let r = record_bytes(index, nanos);
    let all = stream + r;
    lemma_record_round_trip(index, nanos);
    let n = stream.len() / 8;
    assert(all.len() / 8 == n + 1);
    assert forall|k: int| 0 <= k < n + 1 implies #[trigger] records_of(all)[k] == records_of(
        stream,
    ).push((index, latency_units(nanos)))[k] by {
        if k < n {
            assert(all.subrange(8 * k, 8 * k + 4) =~= stream.subrange(8 * k, 8 * k + 4));
            assert(all.subrange(8 * k + 4, 8 * k + 8) =~= stream.subrange(8 * k + 4, 8 * k + 8));
        } else {
            assert(all.subrange(8 * k, 8 * k + 4) =~= r.subrange(0, 4));
            assert(all.subrange(8 * k + 4, 8 * k + 8) =~= r.subrange(4, 8));
        }
    }
    assert(records_of(all) =~= records_of(stream).push((index, latency_units(nanos))));
}

} // verus!
