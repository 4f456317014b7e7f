//! The configuration of a scan, the cursor it asks for, and the header of a
//! result file: a version byte, a little-endian length and a body of that
//! length.

use vstd::prelude::*;
use vstd::arithmetic::power2::lemma_pow2_pos;
use vstd::utf8::encode_utf8;
use crate::args::{dotted_quad, number_from_args, number_option, parse_ipv4, text_from_args,
    text_option, ArgsError, ArgsErrorKind, Field};
use crate::cursor::filter::{acceptance, accepted_before, FilterCursor, Predicate};
use crate::cursor::periodic::{periodic_items, PeriodicCursor};
use crate::cursor::sampling::{sample_levels, U32SamplingCursor, MAX_DEPTH};
use crate::cursor::sequential::U32Cursor;
use crate::cursor::{Cursor, CursorExt, MapCursor, Mapping, SkipCursor, TakeCursor};
use crate::internet::{ip_is_valid, is_valid_target};
use crate::wire::{be_u32, from_le_u16, from_le_u32, from_le_u64, le_u16, le_u32, le_u64,
    lemma_le_u16_round_trip, lemma_le_u32_round_trip, lemma_le_u64_round_trip, push_le_u16,
    push_le_u32, push_le_u64, read_le_u16, read_le_u32, read_le_u64};

verus! {

/// How a binary section or a header can fail to decode.
#[derive(Debug, Clone, Copy, PartialEq, Eq, Structural)]
pub enum DecodeError {
    /// The data ends before the section does.
    Truncated,
    /// The section gives another length for itself than its format has.
    BadTotalSize { found: u32, expected: u32 },
    /// The number does not name an order of targets.
    UnknownType(u8),
    /// The version byte names no known format.
    UnknownConfigurationVersion(u8),
}

/// The parameters of the probes of a scan.
#[derive(Debug, Clone, Copy, PartialEq, Eq, Structural)]
pub struct PingConfiguration {
    /// How long to wait for an answer, in nanoseconds.
    pub timeout: u64,
    /// The length of an echo request, in bytes.
    pub size: u16,
    /// How many probes are in flight at a time.
    pub parallelism: u32,
    /// The time-to-live of the probes.
    pub ttl: u8,
}

/// The length of the body of an encoded `PingConfiguration`.
pub const PING_CONFIGURATION_LEN: u32 = 15;

/// The binary form of a `PingConfiguration`: the length of what follows,
/// then the timeout, the size, the parallelism and the time-to-live, each
/// little-endian.
pub open spec fn ping_configuration_bytes(conf: PingConfiguration) -> Seq<u8> {
    le_u32(PING_CONFIGURATION_LEN) + le_u64(conf.timeout) + le_u16(conf.size) + le_u32(
        conf.parallelism,
    ) + seq![conf.ttl]
}

/// What the front of `data` decodes to as a `PingConfiguration`, with the
/// number of bytes that it takes.
pub open spec fn ping_configuration_of(data: Seq<u8>) -> Result<(PingConfiguration, usize), DecodeError> {
    if data.len() < 19 {
        Err(DecodeError::Truncated)
    } else if from_le_u32(data) != PING_CONFIGURATION_LEN {
        Err(DecodeError::BadTotalSize { found: from_le_u32(data), expected: PING_CONFIGURATION_LEN })
    } else {
        Ok(
            (
                PingConfiguration {
                    timeout: from_le_u64(data.subrange(4, 12)),
                    size: from_le_u16(data.subrange(12, 14)),
                    parallelism: from_le_u32(data.subrange(14, 18)),
                    ttl: data[18],
                },
                19usize,
            ),
        )
    }
}

/// The largest timeout in milliseconds that a count of nanoseconds can hold.
pub const MAX_MILLISECONDS: u64 = 18_446_744_073_709;

/// The duration in nanoseconds of the number of milliseconds that the option `field` gives.
pub open spec fn milliseconds_option(args: Seq<String>, field: Field) -> Result<u64, ArgsError> {
    match number_option(args, field, MAX_MILLISECONDS) {
        Err(error) => Err(error),
        Ok(milliseconds) => Ok((milliseconds * 1_000_000) as u64),
    }
}

/// Reads the option `field` as a number of milliseconds, and returns the
/// duration in nanoseconds.
pub fn milliseconds_from_args(args: &[String], field: Field) -> (duration: Result<u64, ArgsError>)
    ensures
        duration == milliseconds_option(args@, field),
{
    let milliseconds = number_from_args(args, field, MAX_MILLISECONDS)?;
    Ok(milliseconds * 1_000_000)
}

/// The parameters of the probes that the command line gives: the timeout in
/// milliseconds, the size, the parallelism and the time-to-live; the first
/// option that fails is reported.
pub open spec fn ping_configuration_from(args: Seq<String>) -> Result<PingConfiguration, ArgsError> {
    match milliseconds_option(args, Field::PingTimeout) {
        Err(error) => Err(error),
        Ok(timeout) => match number_option(args, Field::PingSize, 0xFFFF) {
            Err(error) => Err(error),
            Ok(size) => match number_option(args, Field::PingParallelism, 0xFFFF_FFFF) {
                Err(error) => Err(error),
                Ok(parallelism) => match number_option(args, Field::PingTtl, 0xFF) {
                    Err(error) => Err(error),
                    Ok(ttl) => Ok(
                        PingConfiguration {
                            timeout,
                            size: size as u16,
                            parallelism: parallelism as u32,
                            ttl: ttl as u8,
                        },
                    ),
                },
            },
        },
    }
}

impl PingConfiguration {
    /// Reads the parameters of the probes from the command line.
    pub fn from_args(args: &[String]) -> (result: Result<Self, ArgsError>)
        ensures
            result == ping_configuration_from(args@),
    {
        let timeout = milliseconds_from_args(args, Field::PingTimeout)?;
        let size = number_from_args(args, Field::PingSize, 0xFFFF)?;
        let parallelism = number_from_args(args, Field::PingParallelism, 0xFFFF_FFFF)?;
        let ttl = number_from_args(args, Field::PingTtl, 0xFF)?;
        Ok(Self { timeout, size: size as u16, parallelism: parallelism as u32, ttl: ttl as u8 })
    }

    /// Encodes the configuration in its binary form.
    pub fn encode(&self) -> (data: Vec<u8>)
        ensures
            data@ == ping_configuration_bytes(*self),
            data@.len() == 19,
    {
        let mut data: Vec<u8> = Vec::new();
        push_le_u32(&mut data, PING_CONFIGURATION_LEN);
        push_le_u64(&mut data, self.timeout);
        push_le_u16(&mut data, self.size);
        push_le_u32(&mut data, self.parallelism);
        data.push(self.ttl);
        assert(data@ =~= ping_configuration_bytes(*self));
        data
    }

    /// Decodes a configuration from the front of `data`, and says how many bytes it took.
    pub fn decode(data: &[u8]) -> (result: Result<(Self, usize), DecodeError>)
        ensures
            result == ping_configuration_of(data@),
    {
        if data.len() < 19 {
            return Err(DecodeError::Truncated);
        }
        let mut rest: &[u8] = data;
        let tot_size = read_le_u32(&mut rest);
        let ghost after_size = rest@;
        let timeout = read_le_u64(&mut rest);
        let ghost after_timeout = rest@;
        let size = read_le_u16(&mut rest);
        let ghost after_len = rest@;
        let parallelism = read_le_u32(&mut rest);
        let ttl = rest[0];
        proof {
            assert(after_size.subrange(0, 8) =~= data@.subrange(4, 12));
            assert(from_le_u64(after_size) == from_le_u64(after_size.subrange(0, 8))) by {
                assert(after_size.subrange(0, 8).subrange(4, 8) =~= after_size.subrange(4, 8));
            }
            assert(after_timeout.subrange(0, 2) =~= data@.subrange(12, 14));
            assert(after_len.subrange(0, 4) =~= data@.subrange(14, 18));
        }
        if tot_size != PING_CONFIGURATION_LEN {
            return Err(
                DecodeError::BadTotalSize { found: tot_size, expected: PING_CONFIGURATION_LEN },
            );
        }
        Ok((Self { timeout, size, parallelism, ttl }, 19))
    }
}

/// An encoded `PingConfiguration` decodes to itself, whatever follows it,
/// and takes as many bytes as it was encoded in.
pub proof fn lemma_ping_configuration_round_trip(conf: PingConfiguration, rest: Seq<u8>)
    ensures
        ping_configuration_bytes(conf).len() == 19,
        ping_configuration_of(ping_configuration_bytes(conf) + rest) == Ok::<
            (PingConfiguration, usize),
            DecodeError,
        >((conf, 19usize)),
{
    let data = ping_configuration_bytes(conf) + rest;
    lemma_le_u32_round_trip(PING_CONFIGURATION_LEN);
    lemma_le_u64_round_trip(conf.timeout);
    lemma_le_u16_round_trip(conf.size);
    lemma_le_u32_round_trip(conf.parallelism);
    assert(data.subrange(0, 4) =~= le_u32(PING_CONFIGURATION_LEN));
    assert(from_le_u32(data) == from_le_u32(data.subrange(0, 4)));
    assert(data.subrange(4, 12) =~= le_u64(conf.timeout));
    assert(data.subrange(12, 14) =~= le_u16(conf.size));
    assert(data.subrange(14, 18) =~= le_u32(conf.parallelism));
    assert(data[18] == conf.ttl);
}

/// The order in which a scan visits its targets.
#[derive(Debug, Clone, Copy, PartialEq, Eq, Structural)]
pub enum CursorType {
    /// From coarse to fine: midpoints first.
    Sampling,
    /// In ascending order.
    Sequential,
    /// Every 256th address, then the same from the next offset.
    Periodic,
    /// In ascending order of the address read with its bytes reversed.
    ReverseEndianSequential,
}

/// The order that `n` names.
pub open spec fn cursor_type_of(n: u8) -> Result<CursorType, ()> {
    if n == 0 {
        Ok(CursorType::Sampling)
    } else if n == 1 {
        Ok(CursorType::Sequential)
    } else if n == 2 {
        Ok(CursorType::Periodic)
    } else if n == 3 {
        Ok(CursorType::ReverseEndianSequential)
    } else {
        Err(())
    }
}

/// The order that the word `s` names.
pub open spec fn cursor_type_named(s: Seq<char>) -> Result<CursorType, ()> {
    if s == "sampling"@ {
        Ok(CursorType::Sampling)
    } else if s == "sequential"@ {
        Ok(CursorType::Sequential)
    } else if s == "periodic"@ {
        Ok(CursorType::Periodic)
    } else if s == "reverse_endian"@ {
        Ok(CursorType::ReverseEndianSequential)
    } else {
        Err(())
    }
}

/// Whether `s` is the word `word`.
pub fn text_is(s: &str, word: &str) -> (same: bool)
    ensures
        same == (s@ == word@),
{
    let left = s.to_owned();
    let right = word.to_owned();
    left == right
}

impl CursorType {
    /// The order that the word `s` names: `sampling`, `sequential`,
    /// `periodic` or `reverse_endian`.
    pub fn from_str(s: &str) -> (result: Result<Self, ()>)
        ensures
            result == cursor_type_named(s@),
    {
        if text_is(s, "sampling") {
            Ok(Self::Sampling)
        } else if text_is(s, "sequential") {
            Ok(Self::Sequential)
        } else if text_is(s, "periodic") {
            Ok(Self::Periodic)
        } else if text_is(s, "reverse_endian") {
            Ok(Self::ReverseEndianSequential)
        } else {
            Err(())
        }
    }

    /// The order that `n` names: 0 to 3, in the order of the variants.
    pub fn from_u8(n: u8) -> (result: Result<Self, ()>)
        ensures
            result == cursor_type_of(n),
    {
        match n {
            0 => Ok(Self::Sampling),
            1 => Ok(Self::Sequential),
            2 => Ok(Self::Periodic),
            3 => Ok(Self::ReverseEndianSequential),
            _ => Err(()),
        }
    }

    /// The number that names the order.
    pub fn to_u8(self) -> (n: u8)
        ensures
            cursor_type_of(n) == Ok::<CursorType, ()>(self),
    {
        match self {
            Self::Sampling => 0,
            Self::Sequential => 1,
            Self::Periodic => 2,
            Self::ReverseEndianSequential => 3,
        }
    }
}

/// The test that keeps the addresses that may be probed.
#[derive(Debug, Clone, Copy, PartialEq, Eq, Structural)]
pub struct ValidAddress;

impl Predicate<u32> for ValidAddress {
    open spec fn accepts(&self, x: u32) -> bool {
        is_valid_target(x)
    }

    fn test(&self, x: &u32) -> (kept: bool) {
        ip_is_valid(x)
    }
}

/// The address with the bytes of `n` in reverse order.
pub open spec fn reversed_bytes(n: u32) -> u32 {
    be_u32((n % 256) as u8, (n / 256 % 256) as u8, (n / 65536 % 256) as u8, (n / 16777216) as u8)
}

/// The map that reverses the bytes of an address.
#[derive(Debug, Clone, Copy, PartialEq, Eq, Structural)]
pub struct ReverseEndian;

impl Mapping<u32> for ReverseEndian {
    type Output = u32;

    open spec fn image(&self, x: u32) -> u32 {
        reversed_bytes(x)
    }

    fn apply(&self, x: u32) -> (y: u32) {
        16777216 * (x % 256) + 65536 * (x / 256 % 256) + 256 * (x / 65536 % 256) + x / 16777216
    }
}

/// A cursor over all addresses, in one of the four orders.
pub enum SourceCursor {
    Sampling(U32SamplingCursor),
    Sequential(U32Cursor),
    Periodic(PeriodicCursor),
    ReverseEndianSequential(MapCursor<U32Cursor, ReverseEndian>),
}

impl Cursor for SourceCursor {
    type Item = u32;

    open spec fn items(&self) -> Seq<u32> {
        match self {
            SourceCursor::Sampling(cursor) => cursor.items(),
            SourceCursor::Sequential(cursor) => cursor.items(),
            SourceCursor::Periodic(cursor) => cursor.items(),
            SourceCursor::ReverseEndianSequential(cursor) => cursor.items(),
        }
    }

    open spec fn position(&self) -> int {
        match self {
            SourceCursor::Sampling(cursor) => cursor.position(),
            SourceCursor::Sequential(cursor) => cursor.position(),
            SourceCursor::Periodic(cursor) => cursor.position(),
            SourceCursor::ReverseEndianSequential(cursor) => cursor.position(),
        }
    }

    open spec fn wf(&self) -> bool {
        match self {
            SourceCursor::Sampling(cursor) => cursor.wf(),
            SourceCursor::Sequential(cursor) => cursor.wf(),
            SourceCursor::Periodic(cursor) => cursor.wf(),
            SourceCursor::ReverseEndianSequential(cursor) => cursor.wf(),
        }
    }

    proof fn lemma_position_in_range(&self) {
        match self {
            SourceCursor::Sampling(cursor) => cursor.lemma_position_in_range(),
            SourceCursor::Sequential(cursor) => cursor.lemma_position_in_range(),
            SourceCursor::Periodic(cursor) => cursor.lemma_position_in_range(),
            SourceCursor::ReverseEndianSequential(cursor) => cursor.lemma_position_in_range(),
        }
    }

    fn value(&mut self) -> (v: u32) {
        match self {
            SourceCursor::Sampling(cursor) => cursor.value(),
            SourceCursor::Sequential(cursor) => cursor.value(),
            SourceCursor::Periodic(cursor) => cursor.value(),
            SourceCursor::ReverseEndianSequential(cursor) => cursor.value(),
        }
    }

    fn move_next(&mut self) -> (r: Result<(), ()>) {
        match self {
            SourceCursor::Sampling(cursor) => cursor.move_next(),
            SourceCursor::Sequential(cursor) => cursor.move_next(),
            SourceCursor::Periodic(cursor) => cursor.move_next(),
            SourceCursor::ReverseEndianSequential(cursor) => cursor.move_next(),
        }
    }

    fn move_prev(&mut self) -> (r: Result<(), ()>) {
        match self {
            SourceCursor::Sampling(cursor) => cursor.move_prev(),
            SourceCursor::Sequential(cursor) => cursor.move_prev(),
            SourceCursor::Periodic(cursor) => cursor.move_prev(),
            SourceCursor::ReverseEndianSequential(cursor) => cursor.move_prev(),
        }
    }
}

/// The cursor that a configuration asks for: the valid addresses of a
/// source, from an offset on, for a bounded number of moves.
pub type TargetCursor = TakeCursor<SkipCursor<FilterCursor<SourceCursor, ValidAddress>>>;

/// Which targets a scan visits.
#[derive(Debug, Clone, Copy, PartialEq, Eq, Structural)]
pub struct CursorConfiguration {
    /// The order of the targets.
    pub ty: CursorType,
    /// How many valid targets are passed over at the start.
    pub offset: u32,
    /// How many targets are visited at most.
    pub nb: u32,
    /// Whether the walk starts on its first value; if not, on its second level or step.
    pub native_cursor: bool,
}

/// All addresses in the order `ty`.
pub open spec fn source_items(ty: CursorType) -> Seq<u32> {
    match ty {
        CursorType::Sampling => sample_levels(MAX_DEPTH as nat, MAX_DEPTH as nat),
        CursorType::Sequential => Seq::new(0x1_0000_0000, |i: int| i as u32),
        CursorType::Periodic => periodic_items(256, 0xFF_FF_FF),
        CursorType::ReverseEndianSequential => Seq::new(0x1_0000_0000, |i: int| i as u32).map_values(
            |x: u32| reversed_bytes(x),
        ),
    }
}

/// Where the walk in the order `ty` starts.
pub open spec fn source_start(ty: CursorType, native_cursor: bool) -> int {
    match ty {
        CursorType::Sampling => if native_cursor {
            0
        } else {
            1
        },
        CursorType::Sequential => 0,
        CursorType::Periodic => if native_cursor {
            0
        } else {
            1
        },
        CursorType::ReverseEndianSequential => 0,
    }
}

/// The valid addresses in the order `ty`.
pub open spec fn valid_items(ty: CursorType) -> Seq<u32> {
    source_items(ty).filter(acceptance(ValidAddress))
}

/// The rank among the valid addresses of the first target of `conf`: the
/// valid addresses before the start of the walk and the offset are passed over.
pub open spec fn first_target(conf: CursorConfiguration) -> int {
    accepted_before(
        source_items(conf.ty),
        acceptance(ValidAddress),
        source_start(conf.ty, conf.native_cursor),
    ) + conf.offset
}

/// Whether a valid address is left at or after the start of the walk.
pub open spec fn has_valid_start(conf: CursorConfiguration) -> bool {
    exists|j: int|
        source_start(conf.ty, conf.native_cursor) <= j < source_items(conf.ty).len()
            && is_valid_target(#[trigger] source_items(conf.ty)[j])
}

/// The targets of `conf`: the valid addresses from the first target on,
/// `nb` of them at most.
pub open spec fn targets(conf: CursorConfiguration) -> Seq<u32> {
    let rest = valid_items(conf.ty).skip(first_target(conf));
    rest.take(
        if conf.nb < rest.len() {
            conf.nb as int
        } else {
            rest.len() as int
        },
    )
}

/// The targets that the command line asks for: the order, the offset and
/// the count; the first option that fails is reported, an unknown order last.
pub open spec fn cursor_configuration_from(args: Seq<String>) -> Result<
    CursorConfiguration,
    ArgsError,
> {
    match text_option(args, Field::CursorType) {
        Err(error) => Err(error),
        Ok(name) => match number_option(args, Field::CursorOffset, 0xFFFF_FFFF) {
            Err(error) => Err(error),
            Ok(offset) => match number_option(args, Field::CursorNb, 0xFFFF_FFFF) {
                Err(error) => Err(error),
                Ok(nb) => match cursor_type_named(name) {
                    Err(_) => Err(
                        ArgsError { field: Field::CursorType, kind: ArgsErrorKind::Invalid },
                    ),
                    Ok(ty) => Ok(
                        CursorConfiguration {
                            ty,
                            offset: offset as u32,
                            nb: nb as u32,
                            native_cursor: true,
                        },
                    ),
                },
            },
        },
    }
}

/// A configuration has at most as many targets as it asks for, so that the
/// rank of every target is below that count.
pub proof fn lemma_targets_within_count(conf: CursorConfiguration)
    ensures
        targets(conf).len() <= conf.nb,
{
    let rest = valid_items(conf.ty).skip(first_target(conf));
    if conf.nb < rest.len() {
        assert(rest.take(conf.nb as int).len() == conf.nb);
    }
}

impl CursorConfiguration {
    /// Reads the targets from the command line.
    pub fn from_args(args: &[String]) -> (result: Result<Self, ArgsError>)
        ensures
            result == cursor_configuration_from(args@),
    {
        let name = text_from_args(args, Field::CursorType)?;
        let offset = number_from_args(args, Field::CursorOffset, 0xFFFF_FFFF)?;
        let nb = number_from_args(args, Field::CursorNb, 0xFFFF_FFFF)?;
        match CursorType::from_str(name.as_str()) {
            Ok(ty) => Ok(Self { ty, offset: offset as u32, nb: nb as u32, native_cursor: true }),
            Err(_) => Err(ArgsError { field: Field::CursorType, kind: ArgsErrorKind::Invalid }),
        }
    }

    /// The source of the addresses, at the start of its walk.
    fn source(&self) -> (source: SourceCursor)
        ensures
            source.wf(),
            source.items() == source_items(self.ty),
            source.position() == source_start(self.ty, self.native_cursor),
    {
        let start: u32 = if self.native_cursor {
            0
        } else {
            1
        };
        match self.ty {
            CursorType::Sampling => {
                proof {
                    lemma_pow2_pos(start as nat);
                    vstd::arithmetic::power2::lemma2_to64();
                }
                SourceCursor::Sampling(U32SamplingCursor::new(start, 0, MAX_DEPTH))
            },
            CursorType::Sequential => SourceCursor::Sequential(U32Cursor::new()),
            CursorType::Periodic => SourceCursor::Periodic(
                PeriodicCursor::new(start, 256, 0xFF_FF_FF, 0),
            ),
            CursorType::ReverseEndianSequential => {
                let mapped = U32Cursor::new().map(ReverseEndian);
                assert(mapped.items() =~= source_items(self.ty));
                SourceCursor::ReverseEndianSequential(mapped)
            },
        }
    }

    /// Makes the cursor over the targets. Fails where there is no target:
    /// where none is asked for, or none is left after the offset.
    pub fn generate(&self) -> (result: Result<TargetCursor, ()>)
        ensures
            result.is_ok() <==> self.nb > 0 && has_valid_start(*self) && first_target(*self)
                < valid_items(self.ty).len(),
            result matches Ok(cursor) ==> {
                &&& cursor.wf()
                &&& cursor.position() == 0
                &&& cursor.items() == targets(*self)
                &&& 1 <= cursor.items().len() <= self.nb
            },
    {
        if self.nb == 0 {
            return Err(());
        }
        let source = self.source();
        let filtered = match FilterCursor::new(source, ValidAddress) {
            Ok(filtered) => filtered,
            Err(_) => {
                return Err(());
            },
        };
        let skipped = match filtered.skip(self.offset as usize) {
            Ok(skipped) => skipped,
            Err(_) => {
                return Err(());
            },
        };
        let taken = skipped.take((self.nb - 1) as usize);
        proof {
            taken.lemma_position_in_range();
        }
        Ok(taken)
    }
}

/// The parameters of the link monitor.
#[derive(Debug, Clone, Copy, PartialEq, Eq, Structural)]
pub struct LinkStateMonitorConfiguration {
    /// The address that is probed to watch the link.
    pub target: u32,
    /// The time-to-live of the probes.
    pub ttl: u8,
    /// How long to wait for an answer, in nanoseconds.
    pub timeout: u64,
    /// The time between two probes, in nanoseconds.
    pub period: u64,
    /// How many probes in a row have to fail before the link counts as down.
    pub max_consecutive_fails: u8,
}

/// The parameters of the link monitor that the command line gives: the
/// target in dotted notation, the time-to-live, the timeout and the period
/// in milliseconds, and the number of failures; the first option that fails
/// is reported.
pub open spec fn link_state_monitor_configuration_from(args: Seq<String>) -> Result<
    LinkStateMonitorConfiguration,
    ArgsError,
> {
    match text_option(args, Field::MonitorTarget) {
        Err(error) => Err(error),
        Ok(text) => match dotted_quad(encode_utf8(text)) {
            None => Err(ArgsError { field: Field::MonitorTarget, kind: ArgsErrorKind::Invalid }),
            Some(target) => match number_option(args, Field::MonitorTtl, 0xFF) {
                Err(error) => Err(error),
                Ok(ttl) => match milliseconds_option(args, Field::MonitorTimeout) {
                    Err(error) => Err(error),
                    Ok(timeout) => match milliseconds_option(args, Field::MonitorPeriod) {
                        Err(error) => Err(error),
                        Ok(period) => match number_option(args, Field::MonitorMaxFails, 0xFF) {
                            Err(error) => Err(error),
                            Ok(max_consecutive_fails) => Ok(
                                LinkStateMonitorConfiguration {
                                    target,
                                    ttl: ttl as u8,
                                    timeout,
                                    period,
                                    max_consecutive_fails: max_consecutive_fails as u8,
                                },
                            ),
                        },
                    },
                },
            },
        },
    }
}

impl LinkStateMonitorConfiguration {
    /// Reads the parameters of the link monitor from the command line.
    pub fn from_args(args: &[String]) -> (result: Result<Self, ArgsError>)
        ensures
            result == link_state_monitor_configuration_from(args@),
    {
        let text = text_from_args(args, Field::MonitorTarget)?;
        let target = match parse_ipv4(text.as_str()) {
            Some(target) => target,
            None => {
                return Err(
                    ArgsError { field: Field::MonitorTarget, kind: ArgsErrorKind::Invalid },
                );
            },
        };
        let ttl = number_from_args(args, Field::MonitorTtl, 0xFF)?;
        let timeout = milliseconds_from_args(args, Field::MonitorTimeout)?;
        let period = milliseconds_from_args(args, Field::MonitorPeriod)?;
        let max_consecutive_fails = number_from_args(args, Field::MonitorMaxFails, 0xFF)?;
        Ok(
            Self {
                target,
                ttl: ttl as u8,
                timeout,
                period,
                max_consecutive_fails: max_consecutive_fails as u8,
            },
        )
    }
}

/// The parameters of the load monitor. Loads are in thousandths.
#[derive(Debug, Clone, Copy, PartialEq, Eq, Structural)]
pub struct CpuLoadMonitorConfiguration {
    /// Below this load the parallelism is raised.
    pub min: u64,
    /// Above this load the parallelism is lowered.
    pub max: u64,
    /// The time between two samples, in nanoseconds.
    pub refresh_rate: u64,
}

/// What the records of a result file hold.
#[derive(Debug, Clone, Copy, PartialEq, Eq, Structural)]
pub enum DataType {
    /// The latency of each answered probe.
    PingLatency,
}

/// The configuration of a scan.
#[derive(Debug, Clone, PartialEq, Eq)]
pub struct Configuration {
    pub cursor: CursorConfiguration,
    pub ping: PingConfiguration,
    pub link_state_monitor: Option<LinkStateMonitorConfiguration>,
    pub cpu_load_monitor: Option<CpuLoadMonitorConfiguration>,
    pub data_type: DataType,
    /// When the scan started, in seconds since the epoch.
    pub start_date: u64,
    /// Where the results are written.
    pub out_file: String,
}

/// The model of a `Configuration`.
pub struct ConfigurationView {
    pub cursor: CursorConfiguration,
    pub ping: PingConfiguration,
    pub link_state_monitor: Option<LinkStateMonitorConfiguration>,
    pub cpu_load_monitor: Option<CpuLoadMonitorConfiguration>,
    pub data_type: DataType,
    pub start_date: u64,
    pub out_file: Seq<char>,
}

impl View for Configuration {
    type V = ConfigurationView;

    open spec fn view(&self) -> ConfigurationView {
        ConfigurationView {
            cursor: self.cursor,
            ping: self.ping,
            link_state_monitor: self.link_state_monitor,
            cpu_load_monitor: self.cpu_load_monitor,
            data_type: self.data_type,
            start_date: self.start_date,
            out_file: self.out_file@,
        }
    }
}

/// The configuration that the command line gives: the targets, the probes,
/// the link monitor and the output file, without a load monitor and with a
/// start date of zero; the first option that fails is reported.
pub open spec fn configuration_from(args: Seq<String>) -> Result<ConfigurationView, ArgsError> {
    match cursor_configuration_from(args) {
        Err(error) => Err(error),
        Ok(cursor) => match ping_configuration_from(args) {
            Err(error) => Err(error),
            Ok(ping) => match link_state_monitor_configuration_from(args) {
                Err(error) => Err(error),
                Ok(link_state_monitor) => match text_option(args, Field::OutFile) {
                    Err(error) => Err(error),
                    Ok(out_file) => Ok(
                        ConfigurationView {
                            cursor,
                            ping,
                            link_state_monitor: Some(link_state_monitor),
                            cpu_load_monitor: None,
                            data_type: DataType::PingLatency,
                            start_date: 0,
                            out_file,
                        },
                    ),
                },
            },
        },
    }
}

/// The model of what `Configuration::from_args` returns.
pub open spec fn configuration_result_view(result: Result<Configuration, ArgsError>) -> Result<
    ConfigurationView,
    ArgsError,
> {
    match result {
        Ok(conf) => Ok(conf@),
        Err(error) => Err(error),
    }
}

impl Configuration {
    /// Reads the configuration of a scan from the command line.
    pub fn from_args(args: &[String]) -> (result: Result<Self, ArgsError>)
        ensures
            configuration_result_view(result) == configuration_from(args@),
    {
        let cursor = CursorConfiguration::from_args(args)?;
        let ping = PingConfiguration::from_args(args)?;
        let link_state_monitor = LinkStateMonitorConfiguration::from_args(args)?;
        let out_file = text_from_args(args, Field::OutFile)?;
        Ok(
            Self {
                cursor,
                ping,
                link_state_monitor: Some(link_state_monitor),
                cpu_load_monitor: None,
                data_type: DataType::PingLatency,
                start_date: 0,
                out_file: out_file.clone(),
            },
        )
    }
}

/// The version of the header that is written.
pub const CURRENT_VERSION: u8 = 1;

/// The header of a result file around `body`: the version, the length of
/// the body as a little-endian `u32`, and the body.
pub open spec fn header_bytes(version: u8, body: Seq<u8>) -> Seq<u8> {
    seq![version] + le_u32(body.len() as u32) + body
}

/// What the front of a result file says of its header.
#[derive(Debug, Clone, Copy, PartialEq, Eq, Structural)]
pub enum Header {
    /// The file is of the first format, without a version byte: the whole
    /// of it is to be read as such.
    Legacy,
    /// The body of the header is `data[start..start + len]`, and the
    /// records start at `size`.
    Versioned { start: usize, len: usize, size: usize },
}

/// What the front of `data` says of its header.
pub open spec fn header_of(data: Seq<u8>) -> Result<Header, DecodeError> {
    if data.len() == 0 {
        Err(DecodeError::Truncated)
    } else if data[0] == 0 {
        Ok(Header::Legacy)
    } else if data[0] != CURRENT_VERSION {
        Err(DecodeError::UnknownConfigurationVersion(data[0]))
    } else if data.len() < 5 || data.len() - 5 < from_le_u32(data.subrange(1, 5)) {
        Err(DecodeError::Truncated)
    } else {
        Ok(
            Header::Versioned {
                start: 5,
                len: from_le_u32(data.subrange(1, 5)) as usize,
                size: (5 + from_le_u32(data.subrange(1, 5))) as usize,
            },
        )
    }
}

/// Writes the header of a result file around `body`.
pub fn encode_header(body: &[u8]) -> (data: Vec<u8>)
    requires
        body@.len() <= u32::MAX,
    ensures
        data@ == header_bytes(CURRENT_VERSION, body@),
{
    let mut data: Vec<u8> = Vec::new();
    data.push(CURRENT_VERSION);
    push_le_u32(&mut data, body.len() as u32);
    data.extend_from_slice(body);
    assert(data@ =~= header_bytes(CURRENT_VERSION, body@));
    data
}

/// Reads the header at the front of a result file.
pub fn decode_header(data: &[u8]) -> (result: Result<Header, DecodeError>)
    ensures
        result == header_of(data@),
{
    if data.len() == 0 {
        return Err(DecodeError::Truncated);
    }
    let version = data[0];
    if version == 0 {
        return Ok(Header::Legacy);
    }
    if version != CURRENT_VERSION {
        return Err(DecodeError::UnknownConfigurationVersion(version));
    }
    if data.len() < 5 {
        return Err(DecodeError::Truncated);
    }
    let mut rest: &[u8] = vstd::slice::slice_subrange(data, 1, data.len());
    let ghost tail = rest@;
    let len = read_le_u32(&mut rest);
    proof {
        assert(tail.subrange(0, 4) =~= data@.subrange(1, 5));
        assert(from_le_u32(tail) == from_le_u32(tail.subrange(0, 4)));
    }
    if data.len() - 5 < len as usize {
        return Err(DecodeError::Truncated);
    }
    Ok(Header::Versioned { start: 5, len: len as usize, size: 5 + len as usize })
}

/// A header that was written is read back whatever records follow it: its
/// body is found where it was put, and the records start after as many
/// bytes as were written.
pub proof fn lemma_header_round_trip(body: Seq<u8>, records: Seq<u8>)
    requires
        body.len() <= u32::MAX,
        5 + body.len() + records.len() <= usize::MAX,
    ensures
        header_of(header_bytes(CURRENT_VERSION, body) + records) == Ok::<Header, DecodeError>(
            Header::Versioned {
                start: 5,
                len: body.len() as usize,
                size: header_bytes(CURRENT_VERSION, body).len() as usize,
            },
        ),
        (header_bytes(CURRENT_VERSION, body) + records).subrange(5, 5 + body.len() as int) == body,
        (header_bytes(CURRENT_VERSION, body) + records).skip(
            header_bytes(CURRENT_VERSION, body).len() as int,
        ) == records,
{
    let data = header_bytes(CURRENT_VERSION, body) + records;
    lemma_le_u32_round_trip(body.len() as u32);
    assert(data.subrange(1, 5) =~= le_u32(body.len() as u32));
    assert(data.subrange(5, 5 + body.len() as int) =~= body);
    assert(data.skip(header_bytes(CURRENT_VERSION, body).len() as int) =~= records);
}

} // verus!
