//! The first format of a result file and the iterators it was written
//! with: a binary configuration without a version byte, and targets that
//! are walked forward only.

use vstd::prelude::*;
use vstd::utf8::{decode_utf8, encode_utf8, encode_utf8_decode_utf8, encode_utf8_valid_utf8,
    valid_utf8};
use crate::configuration::{first_target, has_valid_start, ping_configuration_bytes,
    ping_configuration_of, targets, text_is, valid_items,
    lemma_ping_configuration_round_trip, CursorConfiguration, CursorType, DecodeError,
    PingConfiguration, TargetCursor};
use crate::cursor::periodic::{periodic_items, periodic_parameters_valid, PeriodicCursor};
use crate::cursor::sampling::{sample_levels, sampling_parameters_valid, U32SamplingCursor};
use crate::cursor::{Cursor, CursorIterator};
use crate::wire::{from_le_u32, le_u32, lemma_le_u32_round_trip, push_le_u32, read_le_u32};
use vstd::arithmetic::power2::pow2;
use crate::args::{number_from_args, number_option, text_from_args, text_option, ArgsError,
    ArgsErrorKind, Field};
use crate::configuration::ping_configuration_from;

verus! {

/// A source of targets that is walked forward.
pub trait TargetSource {
    /// The invariant of the source.
    spec fn wf(&self) -> bool;

    /// The targets that are still to come, in order.
    spec fn pending(&self) -> Seq<u32>;

    /// The next target, or `None` when none is left.
    fn next(&mut self) -> (target: Option<u32>)
        requires
            old(self).wf(),
        ensures
            final(self).wf(),
            old(self).pending().len() == 0 ==> target.is_none() && final(self).pending().len()
                == 0,
            old(self).pending().len() > 0 ==> target == Some(old(self).pending()[0]),
            old(self).pending().len() > 0 ==> final(self).pending() == old(self).pending().skip(1),
    ;
}

/// The sampling walk as an iterator: it starts after the value it is created on.
pub struct U32SamplingIterator {
    cursor: U32SamplingCursor,
    exhausted: bool,
}

impl U32SamplingIterator {
    /// An iterator over the values that follow value `index` of level `depth`.
    pub fn new(depth: u32, index: u32, max_depth: u32) -> (iter: Self)
        requires
            sampling_parameters_valid(depth, index, max_depth),
        ensures
            iter.wf(),
            iter.pending() == sample_levels(max_depth as nat, max_depth as nat).skip(
                pow2(depth as nat) + index,
            ),
    {
        Self { cursor: U32SamplingCursor::new(depth, index, max_depth), exhausted: false }
    }
}

impl TargetSource for U32SamplingIterator {
    closed spec fn wf(&self) -> bool {
        self.cursor.wf()
    }

    closed spec fn pending(&self) -> Seq<u32> {
        if self.exhausted {
            Seq::empty()
        } else {
            self.cursor.items().skip(self.cursor.position() + 1)
        }
    }

    fn next(&mut self) -> (target: Option<u32>) {
        proof {
            self.cursor.lemma_position_in_range();
        }
        if self.exhausted {
            return None;
        }
        if self.cursor.move_next().is_err() {
            self.exhausted = true;
            return None;
        }
        proof {
            self.cursor.lemma_position_in_range();
        }
        let value = self.cursor.value();
        assert(self.pending() =~= old(self).pending().skip(1));
        Some(value)
    }
}

/// The periodic walk as an iterator: it starts after the value it is created on.
pub struct PeriodicIterator {
    cursor: PeriodicCursor,
    exhausted: bool,
}

impl PeriodicIterator {
    /// An iterator over the values that follow step `index` of offset `offset`.
    pub fn new(index: u32, period: u32, nb_period: u32, offset: u32) -> (iter: Self)
        requires
            periodic_parameters_valid(index, period, nb_period, offset),
        ensures
            iter.wf(),
            iter.pending() == periodic_items(period, nb_period).skip(
                offset * nb_period + index + 1,
            ),
    {
        Self { cursor: PeriodicCursor::new(index, period, nb_period, offset), exhausted: false }
    }
}

impl TargetSource for PeriodicIterator {
    closed spec fn wf(&self) -> bool {
        self.cursor.wf()
    }

    closed spec fn pending(&self) -> Seq<u32> {
        if self.exhausted {
            Seq::empty()
        } else {
            self.cursor.items().skip(self.cursor.position() + 1)
        }
    }

    fn next(&mut self) -> (target: Option<u32>) {
        proof {
            self.cursor.lemma_position_in_range();
        }
        if self.exhausted {
            return None;
        }
        if self.cursor.move_next().is_err() {
            self.exhausted = true;
            return None;
        }
        proof {
            self.cursor.lemma_position_in_range();
        }
        let value = self.cursor.value();
        assert(self.pending() =~= old(self).pending().skip(1));
        Some(value)
    }
}

/// The order in which a scan of the first format visits its targets.
#[derive(Debug, Clone, Copy, PartialEq, Eq, Structural)]
pub enum IteratorType {
    Sampling,
    Sequential,
    Periodic,
    ReverseEndianSequential,
}

/// The order that `n` names.
pub open spec fn iterator_type_of(n: u8) -> Result<IteratorType, ()> {
    if n == 0 {
        Ok(IteratorType::Sampling)
    } else if n == 1 {
        Ok(IteratorType::Sequential)
    } else if n == 2 {
        Ok(IteratorType::Periodic)
    } else if n == 3 {
        Ok(IteratorType::ReverseEndianSequential)
    } else {
        Err(())
    }
}

/// The number that names `ty`.
pub open spec fn iterator_type_number(ty: IteratorType) -> u8 {
    match ty {
        IteratorType::Sampling => 0,
        IteratorType::Sequential => 1,
        IteratorType::Periodic => 2,
        IteratorType::ReverseEndianSequential => 3,
    }
}

/// The order that the word `s` names.
pub open spec fn iterator_type_named(s: Seq<char>) -> Result<IteratorType, ()> {
    if s == "sampling"@ {
        Ok(IteratorType::Sampling)
    } else if s == "sequential"@ {
        Ok(IteratorType::Sequential)
    } else if s == "periodic"@ {
        Ok(IteratorType::Periodic)
    } else if s == "reverse_endian"@ {
        Ok(IteratorType::ReverseEndianSequential)
    } else {
        Err(())
    }
}

/// The same order, as a cursor takes it.
pub open spec fn cursor_type(ty: IteratorType) -> CursorType {
    match ty {
        IteratorType::Sampling => CursorType::Sampling,
        IteratorType::Sequential => CursorType::Sequential,
        IteratorType::Periodic => CursorType::Periodic,
        IteratorType::ReverseEndianSequential => CursorType::ReverseEndianSequential,
    }
}

impl IteratorType {
    /// The order that the word `s` names: `sampling`, `sequential`,
    /// `periodic` or `reverse_endian`.
    pub fn from_str(s: &str) -> (result: Result<Self, ()>)
        ensures
            result == iterator_type_named(s@),
    {
        if text_is(s, "sampling") {
            Ok(Self::Sampling)
        } else if text_is(s, "sequential") {
            Ok(Self::Sequential)
        } else if text_is(s, "periodic") {
            Ok(Self::Periodic)
        } else if text_is(s, "reverse_endian") {
            Ok(Self::ReverseEndianSequential)
        } else {
            Err(())
        }
    }

    /// The order that `n` names: 0 to 3, in the order of the variants.
    pub fn from_u8(n: u8) -> (result: Result<Self, ()>)
        ensures
            result == iterator_type_of(n),
    {
        match n {
            0 => Ok(Self::Sampling),
            1 => Ok(Self::Sequential),
            2 => Ok(Self::Periodic),
            3 => Ok(Self::ReverseEndianSequential),
            _ => Err(()),
        }
    }

    /// The number that names the order.
    pub fn to_u8(self) -> (n: u8)
        ensures
            n == iterator_type_number(self),
            iterator_type_of(n) == Ok::<IteratorType, ()>(self),
    {
        match self {
            Self::Sampling => 0,
            Self::Sequential => 1,
            Self::Periodic => 2,
            Self::ReverseEndianSequential => 3,
        }
    }

    /// The same order, as a cursor takes it.
    pub fn to_cursor_type(self) -> (ty: CursorType)
        ensures
            ty == cursor_type(self),
    {
        match self {
            Self::Sampling => CursorType::Sampling,
            Self::Sequential => CursorType::Sequential,
            Self::Periodic => CursorType::Periodic,
            Self::ReverseEndianSequential => CursorType::ReverseEndianSequential,
        }
    }
}

/// Which targets a scan of the first format visits.
#[derive(Debug, Clone, Copy, PartialEq, Eq, Structural)]
pub struct IteratorConfiguration {
    /// The order of the targets.
    pub ty: IteratorType,
    /// How many valid targets are passed over at the start.
    pub offset: u32,
    /// How many targets are visited at most.
    pub nb: u32,
}

/// The length of the body of an encoded `IteratorConfiguration`.
pub const ITERATOR_CONFIGURATION_LEN: u32 = 9;

/// The binary form of an `IteratorConfiguration`: the length of what
/// follows, then the number of the order, the offset and the count.
pub open spec fn iterator_configuration_bytes(conf: IteratorConfiguration) -> Seq<u8> {
    le_u32(ITERATOR_CONFIGURATION_LEN) + seq![iterator_type_number(conf.ty)] + le_u32(conf.offset)
        + le_u32(conf.nb)
}

/// What the front of `data` decodes to as an `IteratorConfiguration`, with
/// the number of bytes that it takes.
pub open spec fn iterator_configuration_of(data: Seq<u8>) -> Result<
    (IteratorConfiguration, usize),
    DecodeError,
> {
    if data.len() < 13 {
        Err(DecodeError::Truncated)
    } else if from_le_u32(data) != ITERATOR_CONFIGURATION_LEN {
        Err(
            DecodeError::BadTotalSize {
                found: from_le_u32(data),
                expected: ITERATOR_CONFIGURATION_LEN,
            },
        )
    } else {
        match iterator_type_of(data[4]) {
            Err(_) => Err(DecodeError::UnknownType(data[4])),
            Ok(ty) => Ok(
                (
                    IteratorConfiguration {
                        ty,
                        offset: from_le_u32(data.subrange(5, 9)),
                        nb: from_le_u32(data.subrange(9, 13)),
                    },
                    13usize,
                ),
            ),
        }
    }
}

/// The targets of a configuration of the first format: the valid addresses
/// after the first value of the walk and after the offset, `nb` of them at most.
pub open spec fn legacy_targets(conf: IteratorConfiguration) -> Seq<u32> {
    let cursor = as_cursor_configuration(conf);
    if conf.nb > 0 && has_valid_start(cursor) && first_target(cursor) < valid_items(
        cursor.ty,
    ).len() {
        targets(cursor)
    } else {
        Seq::empty()
    }
}

/// The configuration of the cursor that walks the targets of `conf`.
pub open spec fn as_cursor_configuration(conf: IteratorConfiguration) -> CursorConfiguration {
    CursorConfiguration {
        ty: cursor_type(conf.ty),
        offset: conf.offset,
        nb: conf.nb,
        native_cursor: false,
    }
}

/// The targets of a scan of the first format.
pub struct TargetIterator {
    inner: Option<CursorIterator<TargetCursor>>,
}

impl TargetSource for TargetIterator {
    closed spec fn wf(&self) -> bool {
        match self.inner {
            Some(iter) => iter.wf(),
            None => true,
        }
    }

    closed spec fn pending(&self) -> Seq<u32> {
        match self.inner {
            Some(iter) => iter.pending(),
            None => Seq::empty(),
        }
    }

    fn next(&mut self) -> (target: Option<u32>) {
        match &mut self.inner {
            Some(iter) => iter.next(),
            None => None,
        }
    }
}

/// The targets that the command line asks for: the order, the offset and
/// the count; the first option that fails is reported, an unknown order last.
pub open spec fn iterator_configuration_from(args: Seq<String>) -> Result<
    IteratorConfiguration,
    ArgsError,
> {
    match text_option(args, Field::IteratorType) {
        Err(error) => Err(error),
        Ok(name) => match number_option(args, Field::IteratorOffset, 0xFFFF_FFFF) {
            Err(error) => Err(error),
            Ok(offset) => match number_option(args, Field::IteratorNb, 0xFFFF_FFFF) {
                Err(error) => Err(error),
                Ok(nb) => match iterator_type_named(name) {
                    Err(_) => Err(
                        ArgsError { field: Field::IteratorType, kind: ArgsErrorKind::Invalid },
                    ),
                    Ok(ty) => Ok(IteratorConfiguration { ty, offset: offset as u32, nb: nb as u32 }),
                },
            },
        },
    }
}

impl IteratorConfiguration {
    /// Reads the targets from the command line.
    pub fn from_args(args: &[String]) -> (result: Result<Self, ArgsError>)
        ensures
            result == iterator_configuration_from(args@),
    {
        let name = text_from_args(args, Field::IteratorType)?;
        let offset = number_from_args(args, Field::IteratorOffset, 0xFFFF_FFFF)?;
        let nb = number_from_args(args, Field::IteratorNb, 0xFFFF_FFFF)?;
        match IteratorType::from_str(name.as_str()) {
            Ok(ty) => Ok(Self { ty, offset: offset as u32, nb: nb as u32 }),
            Err(_) => Err(ArgsError { field: Field::IteratorType, kind: ArgsErrorKind::Invalid }),
        }
    }

    /// Encodes the configuration in its binary form.
    pub fn encode(&self) -> (data: Vec<u8>)
        ensures
            data@ == iterator_configuration_bytes(*self),
            data@.len() == 13,
    {
        let mut data: Vec<u8> = Vec::new();
        push_le_u32(&mut data, ITERATOR_CONFIGURATION_LEN);
        data.push(self.ty.to_u8());
        push_le_u32(&mut data, self.offset);
        push_le_u32(&mut data, self.nb);
        assert(data@ =~= iterator_configuration_bytes(*self));
        data
    }

    /// Decodes a configuration from the front of `data`, and says how many bytes it took.
    pub fn decode(data: &[u8]) -> (result: Result<(Self, usize), DecodeError>)
        ensures
            result == iterator_configuration_of(data@),
    {
        if data.len() < 13 {
            return Err(DecodeError::Truncated);
        }
        let mut rest: &[u8] = data;
        let tot_size = read_le_u32(&mut rest);
        let ty = rest[0];
        rest = vstd::slice::slice_subrange(rest, 1, rest.len());
        let ghost after_type = rest@;
        let offset = read_le_u32(&mut rest);
        let ghost after_offset = rest@;
        let nb = read_le_u32(&mut rest);
        proof {
            assert(after_type.subrange(0, 4) =~= data@.subrange(5, 9));
            assert(from_le_u32(after_type) == from_le_u32(after_type.subrange(0, 4)));
            assert(after_offset.subrange(0, 4) =~= data@.subrange(9, 13));
            assert(from_le_u32(after_offset) == from_le_u32(after_offset.subrange(0, 4)));
        }
        if tot_size != ITERATOR_CONFIGURATION_LEN {
            return Err(
                DecodeError::BadTotalSize { found: tot_size, expected: ITERATOR_CONFIGURATION_LEN },
            );
        }
        match IteratorType::from_u8(ty) {
            Ok(ty) => Ok((Self { ty, offset, nb }, 13)),
            Err(_) => Err(DecodeError::UnknownType(ty)),
        }
    }

    /// Makes the iterator over the targets.
    pub fn generate(&self) -> (iter: TargetIterator)
        ensures
            iter.wf(),
            iter.pending() == legacy_targets(*self),
            iter.pending().len() <= self.nb,
    {
        proof {
            crate::configuration::lemma_targets_within_count(as_cursor_configuration(*self));
        }
        let conf = CursorConfiguration {
            ty: self.ty.to_cursor_type(),
            offset: self.offset,
            nb: self.nb,
            native_cursor: false,
        };
        match conf.generate() {
            Ok(cursor) => {
                assert(cursor.items().skip(0) =~= cursor.items());
                TargetIterator { inner: Some(CursorIterator::new(cursor)) }
            },
            Err(_) => TargetIterator { inner: None },
        }
    }
}


/// An encoded `IteratorConfiguration` decodes to itself, whatever follows
/// it, and takes as many bytes as it was encoded in.
pub proof fn lemma_iterator_configuration_round_trip(conf: IteratorConfiguration, rest: Seq<u8>)
    ensures
        iterator_configuration_bytes(conf).len() == 13,
        iterator_configuration_of(iterator_configuration_bytes(conf) + rest) == Ok::<
            (IteratorConfiguration, usize),
            DecodeError,
        >((conf, 13usize)),
{
    let data = iterator_configuration_bytes(conf) + rest;
    lemma_le_u32_round_trip(ITERATOR_CONFIGURATION_LEN);
    lemma_le_u32_round_trip(conf.offset);
    lemma_le_u32_round_trip(conf.nb);
    assert(data.subrange(0, 4) =~= le_u32(ITERATOR_CONFIGURATION_LEN));
    assert(from_le_u32(data) == from_le_u32(data.subrange(0, 4)));
    assert(data.subrange(5, 9) =~= le_u32(conf.offset));
    assert(data.subrange(9, 13) =~= le_u32(conf.nb));
    assert(data[4] == iterator_type_number(conf.ty));
}

/// The configuration of a scan of the first format.
#[derive(Debug, Clone, PartialEq, Eq)]
pub struct Configuration {
    pub iterator: IteratorConfiguration,
    pub ping: PingConfiguration,
    /// Where the results are written.
    pub out_file: String,
}

/// The model of a `Configuration`.
pub struct ConfigurationView {
    pub iterator: IteratorConfiguration,
    pub ping: PingConfiguration,
    pub out_file: Seq<char>,
}

impl View for Configuration {
    type V = ConfigurationView;

    open spec fn view(&self) -> ConfigurationView {
        ConfigurationView { iterator: self.iterator, ping: self.ping, out_file: self.out_file@ }
    }
}

/// How a configuration of the first format can fail to decode.
#[derive(Debug, Clone, Copy, PartialEq, Eq, Structural)]
pub enum ConfigurationError {
    /// The data ends before the configuration does.
    Truncated,
    /// The section of the iterator does not decode.
    Iterator(DecodeError),
    /// The section of the probes does not decode.
    Ping(DecodeError),
    /// The name of the output file is not UTF-8.
    InvalidText,
    /// The configuration gives another length for itself than its sections have.
    BadTotalSize { found: u32, expected: u64 },
}

/// The length of the sections before the name of the output file: the
/// iterator, the probes and the length of the name.
pub const FIXED_SECTIONS_LEN: u32 = 36;

/// The binary form of a configuration: the length of what follows, the
/// section of the iterator, the section of the probes, and the name of the
/// output file in UTF-8 after its length.
pub open spec fn configuration_bytes(conf: ConfigurationView) -> Seq<u8> {
    let text = encode_utf8(conf.out_file);
    le_u32((FIXED_SECTIONS_LEN + text.len()) as u32) + iterator_configuration_bytes(conf.iterator)
        + ping_configuration_bytes(conf.ping) + le_u32(text.len() as u32) + text
}

/// What the front of `data` decodes to as a configuration, with the number
/// of bytes that it takes.
pub open spec fn configuration_of(data: Seq<u8>) -> Result<
    (ConfigurationView, usize),
    ConfigurationError,
> {
    if data.len() < 4 {
        Err(ConfigurationError::Truncated)
    } else {
        match iterator_configuration_of(data.skip(4)) {
            Err(error) => Err(ConfigurationError::Iterator(error)),
            Ok((iterator, _)) => match ping_configuration_of(data.skip(17)) {
                Err(error) => Err(ConfigurationError::Ping(error)),
                Ok((ping, _)) => {
                    let len = from_le_u32(data.subrange(36, 40));
                    if data.len() < 40 || data.len() - 40 < len {
                        Err(ConfigurationError::Truncated)
                    } else if !valid_utf8(data.subrange(40, 40 + len)) {
                        Err(ConfigurationError::InvalidText)
                    } else if from_le_u32(data) != FIXED_SECTIONS_LEN + len {
                        Err(
                            ConfigurationError::BadTotalSize {
                                found: from_le_u32(data),
                                expected: (FIXED_SECTIONS_LEN + len) as u64,
                            },
                        )
                    } else {
                        Ok(
                            (
                                ConfigurationView {
                                    iterator,
                                    ping,
                                    out_file: decode_utf8(data.subrange(40, 40 + len)),
                                },
                                (4 + from_le_u32(data)) as usize,
                            ),
                        )
                    }
                },
            },
        }
    }
}

/// `core::str::from_utf8`: the text that `bytes` encode in UTF-8, or
/// nothing where they encode none.
#[verifier::external_body]
fn text_from_utf8<'a>(bytes: &'a [u8]) -> (text: Option<&'a str>)
    ensures
        text.is_some() <==> valid_utf8(bytes@),
        text matches Some(s) ==> s@ == decode_utf8(bytes@),
{
    core::str::from_utf8(bytes).ok()
}

/// The model of what `Configuration::decode` returns.
pub open spec fn decoded_view(result: Result<(Configuration, usize), ConfigurationError>) -> Result<
    (ConfigurationView, usize),
    ConfigurationError,
> {
    match result {
        Ok((conf, size)) => Ok((conf@, size)),
        Err(error) => Err(error),
    }
}

/// The configuration that the command line gives: the targets, the probes
/// and the output file; the first option that fails is reported.
pub open spec fn configuration_from(args: Seq<String>) -> Result<ConfigurationView, ArgsError> {
    match iterator_configuration_from(args) {
        Err(error) => Err(error),
        Ok(iterator) => match ping_configuration_from(args) {
            Err(error) => Err(error),
            Ok(ping) => match text_option(args, Field::OutFile) {
                Err(error) => Err(error),
                Ok(out_file) => Ok(ConfigurationView { iterator, ping, out_file }),
            },
        },
    }
}

/// The model of what `Configuration::from_args` returns.
pub open spec fn configuration_result_view(result: Result<Configuration, ArgsError>) -> Result<
    ConfigurationView,
    ArgsError,
> {
    match result {
        Ok(conf) => Ok(conf@),
        Err(error) => Err(error),
    }
}

impl Configuration {
    /// Reads the configuration of a scan from the command line.
    pub fn from_args(args: &[String]) -> (result: Result<Self, ArgsError>)
        ensures
            configuration_result_view(result) == configuration_from(args@),
    {
        let iterator = IteratorConfiguration::from_args(args)?;
        let ping = PingConfiguration::from_args(args)?;
        let out_file = text_from_args(args, Field::OutFile)?;
        Ok(Self { iterator, ping, out_file: out_file.clone() })
    }

    /// Encodes the configuration in its binary form.
    pub fn encode(&self) -> (data: Vec<u8>)
        requires
            encode_utf8(self.out_file@).len() <= u32::MAX - FIXED_SECTIONS_LEN,
        ensures
            data@ == configuration_bytes(self@),
    {
        let text = self.out_file.as_str().as_bytes();
        let mut data: Vec<u8> = Vec::new();
        push_le_u32(&mut data, FIXED_SECTIONS_LEN + text.len() as u32);
        let mut iterator = self.iterator.encode();
        data.append(&mut iterator);
        let mut ping = self.ping.encode();
        data.append(&mut ping);
        push_le_u32(&mut data, text.len() as u32);
        data.extend_from_slice(text);
        assert(data@ =~= configuration_bytes(self@));
        data
    }

    /// Decodes a configuration from the front of `data`, and says how many bytes it took.
    pub fn decode(data: &[u8]) -> (result: Result<(Self, usize), ConfigurationError>)
        ensures
            decoded_view(result) == configuration_of(data@),
    {
        if data.len() < 4 {
            return Err(ConfigurationError::Truncated);
        }
        let mut rest: &[u8] = data;
        let tot_size = read_le_u32(&mut rest);
        assert(rest@ =~= data@.skip(4));
        let (iterator, iterator_size) = match IteratorConfiguration::decode(rest) {
            Ok(decoded) => decoded,
            Err(error) => {
                return Err(ConfigurationError::Iterator(error));
            },
        };
        rest = vstd::slice::slice_subrange(rest, iterator_size, rest.len());
        assert(rest@ =~= data@.skip(17));
        let (ping, ping_size) = match PingConfiguration::decode(rest) {
            Ok(decoded) => decoded,
            Err(error) => {
                return Err(ConfigurationError::Ping(error));
            },
        };
        rest = vstd::slice::slice_subrange(rest, ping_size, rest.len());
        assert(rest@ =~= data@.skip(36));
        if rest.len() < 4 {
            return Err(ConfigurationError::Truncated);
        }
        let ghost before_len = rest@;
        let out_file_size = read_le_u32(&mut rest) as usize;
        proof {
            assert(before_len.subrange(0, 4) =~= data@.subrange(36, 40));
            assert(from_le_u32(before_len) == from_le_u32(before_len.subrange(0, 4)));
            assert(rest@ =~= data@.skip(40));
        }
        if rest.len() < out_file_size {
            return Err(ConfigurationError::Truncated);
        }
        let text = vstd::slice::slice_subrange(rest, 0, out_file_size);
        assert(text@ =~= data@.subrange(40, 40 + out_file_size));
        let out_file = match text_from_utf8(text) {
            Some(s) => s.to_owned(),
            None => {
                return Err(ConfigurationError::InvalidText);
            },
        };
        let expected_size: u64 = FIXED_SECTIONS_LEN as u64 + out_file_size as u64;
        if tot_size as u64 != expected_size {
            return Err(ConfigurationError::BadTotalSize { found: tot_size, expected: expected_size });
        }
        Ok((Self { iterator, ping, out_file }, 4 + tot_size as usize))
    }
}

/// Where the sections of an encoded configuration lie.
proof fn lemma_configuration_layout(conf: ConfigurationView, rest: Seq<u8>)
    requires
        encode_utf8(conf.out_file).len() <= u32::MAX - FIXED_SECTIONS_LEN,
    ensures
        ({
            let text = encode_utf8(conf.out_file);
            let data = configuration_bytes(conf) + rest;
            &&& data.len() == 40 + text.len() + rest.len()
            &&& configuration_bytes(conf).len() == 40 + text.len()
            &&& data.subrange(0, 4) == le_u32((FIXED_SECTIONS_LEN + text.len()) as u32)
            &&& data.skip(4) == iterator_configuration_bytes(conf.iterator) + (
            ping_configuration_bytes(conf.ping) + le_u32(text.len() as u32) + text + rest)
            &&& data.skip(17) == ping_configuration_bytes(conf.ping) + (le_u32(text.len() as u32)
                + text + rest)
            &&& data.subrange(36, 40) == le_u32(text.len() as u32)
            &&& data.subrange(40, 40 + text.len() as int) == text
        }),
{
    let text = encode_utf8(conf.out_file);
    let head = le_u32((FIXED_SECTIONS_LEN + text.len()) as u32);
    let iterator = iterator_configuration_bytes(conf.iterator);
    let ping = ping_configuration_bytes(conf.ping);
    let len = le_u32(text.len() as u32);
    let data = configuration_bytes(conf) + rest;
    assert(head.len() == 4 && len.len() == 4);
    assert(iterator.len() == 13) by {
        lemma_iterator_configuration_round_trip(conf.iterator, Seq::empty());
    }
    assert(ping.len() == 19) by {
        lemma_ping_configuration_round_trip(conf.ping, Seq::empty());
    }
    assert(data =~= head + iterator + ping + len + text + rest);
    assert(data.subrange(0, 4) =~= head);
    assert(data.skip(4) =~= iterator + (ping + len + text + rest));
    assert(data.skip(17) =~= ping + (len + text + rest));
    assert(data.subrange(36, 40) =~= len);
    assert(data.subrange(40, 40 + text.len() as int) =~= text);
}

/// An encoded configuration decodes to itself, whatever follows it, and
/// takes as many bytes as it was encoded in.
pub proof fn lemma_configuration_round_trip(conf: ConfigurationView, rest: Seq<u8>)
    requires
        encode_utf8(conf.out_file).len() <= u32::MAX - FIXED_SECTIONS_LEN,
        configuration_bytes(conf).len() <= usize::MAX,
    ensures
        configuration_of(configuration_bytes(conf) + rest) == Ok::<
            (ConfigurationView, usize),
            ConfigurationError,
        >((conf, configuration_bytes(conf).len() as usize)),
{
    let text = encode_utf8(conf.out_file);
    let total = (FIXED_SECTIONS_LEN + text.len()) as u32;
    let data = configuration_bytes(conf) + rest;
    lemma_configuration_layout(conf, rest);
    lemma_le_u32_round_trip(total);
    lemma_le_u32_round_trip(text.len() as u32);
    lemma_iterator_configuration_round_trip(
        conf.iterator,
        ping_configuration_bytes(conf.ping) + le_u32(text.len() as u32) + text + rest,
    );
    lemma_ping_configuration_round_trip(conf.ping, le_u32(text.len() as u32) + text + rest);
    encode_utf8_valid_utf8(conf.out_file);
    encode_utf8_decode_utf8(conf.out_file);
    assert(from_le_u32(data) == from_le_u32(data.subrange(0, 4)));
    assert(from_le_u32(data) == total);
    assert(from_le_u32(data.subrange(36, 40)) == text.len());
}

/// A reader of targets by rank: it walks a source forward as far as it is
/// asked and remembers what it passed, so that a rank can be asked for
/// again.
pub struct IteratorCherryPick<Iter: TargetSource> {
    iter: Iter,
    buffer: Vec<u32>,
}

impl<Iter: TargetSource> IteratorCherryPick<Iter> {
    /// The invariant of the reader.
    pub closed spec fn wf(&self) -> bool {
        self.iter.wf()
    }

    /// All targets of the source, in order: those read and those to come.
    pub closed spec fn targets(&self) -> Seq<u32> {
        self.buffer@ + self.iter.pending()
    }

    /// How many targets were read from the source.
    pub closed spec fn read(&self) -> nat {
        self.buffer@.len()
    }

    /// A reader of the targets of `iter`.
    pub fn new(iter: Iter) -> (reader: Self)
        requires
            iter.wf(),
        ensures
            reader.wf(),
            reader.targets() == iter.pending(),
            reader.read() == 0,
    {
        let reader = Self { iter, buffer: Vec::new() };
        assert(reader.targets() =~= iter.pending());
        reader
    }

    /// Reads `n` more targets from the source. Returns `false`, having read
    /// what was left, where fewer are left.
    pub fn pump_data(&mut self, n: u32) -> (complete: bool)
        requires
            old(self).wf(),
        ensures
            final(self).wf(),
            final(self).targets() == old(self).targets(),
            complete <==> old(self).read() + n <= old(self).targets().len(),
            final(self).read() == if complete {
                old(self).read() + n
            } else {
                old(self).targets().len() as int
            },
    {
        let mut i: u32 = 0;
        while i < n
            invariant
                i <= n,
                self.wf(),
                self.targets() == old(self).targets(),
                self.read() == old(self).read() + i,
            decreases n - i,
        {
            let ghost before = self.iter.pending();
            match self.iter.next() {
                Some(value) => {
                    self.buffer.push(value);
                    assert(self.targets() =~= old(self).targets());
                },
                None => {
                    assert(self.targets() =~= old(self).targets());
                    return false;
                },
            }
            i += 1;
        }
        true
    }

    /// The target of rank `index`; `None` where the source has fewer targets.
    pub fn get(&mut self, index: u32) -> (target: Option<u32>)
        requires
            old(self).wf(),
        ensures
            final(self).wf(),
            final(self).targets() == old(self).targets(),
            target == if index < old(self).targets().len() {
                Some(old(self).targets()[index as int])
            } else {
                None::<u32>
            },
    {
        if index as usize >= self.buffer.len() {
            let gap: u32 = index - self.buffer.len() as u32;
            if !self.pump_data(gap) {
                return None;
            }
            if !self.pump_data(1) {
                return None;
            }
        }
        Some(self.buffer[index as usize])
    }
}


/// The model of an executor.
pub struct ExecutorView {
    /// The targets that are still to be started, in order.
    pub pending: Seq<u32>,
    /// How many tasks run at a time; it falls as the tasks of the last wave end.
    pub parallelism: nat,
    /// How many tasks were started.
    pub index: nat,
}

/// How many tasks the first wave starts: one for each slot, as long as targets are left.
pub open spec fn first_wave_len(v: ExecutorView) -> nat {
    if v.parallelism <= v.pending.len() {
        v.parallelism
    } else {
        v.pending.len()
    }
}

/// The tasks of the first wave: the first pending targets, numbered from the
/// number of tasks started before.
pub open spec fn first_wave(v: ExecutorView) -> Seq<(u64, u32)> {
    Seq::new(first_wave_len(v), |k: int| ((v.index + k) as u64, v.pending[k]))
}

/// The executor after its first wave: where the targets ran out, the
/// parallelism is the number of tasks that were started.
pub open spec fn after_first_wave(v: ExecutorView) -> ExecutorView {
    ExecutorView {
        pending: v.pending.skip(first_wave_len(v) as int),
        parallelism: first_wave_len(v),
        index: v.index + first_wave_len(v),
    }
}

/// The executor after a task ended, and the task that takes its place: the
/// next pending target, if one is left; if not, one task less runs.
pub open spec fn after_return(v: ExecutorView) -> (ExecutorView, Option<(u64, u32)>) {
    if v.pending.len() > 0 {
        (
            ExecutorView { pending: v.pending.skip(1), index: v.index + 1, ..v },
            Some((v.index as u64, v.pending[0])),
        )
    } else {
        (
            ExecutorView {
                parallelism: if v.parallelism > 0 {
                    (v.parallelism - 1) as nat
                } else {
                    0
                },
                ..v
            },
            None,
        )
    }
}

/// Runs one task per target, a bounded number of them at a time: it says
/// which tasks to start, first in a wave and then one for each task that ends.
pub struct TracerouteExecutor<Iter: TargetSource> {
    parallelism: usize,
    iter: Iter,
    index: u64,
}

impl<Iter: TargetSource> View for TracerouteExecutor<Iter> {
    type V = ExecutorView;

    closed spec fn view(&self) -> ExecutorView {
        ExecutorView {
            pending: self.iter.pending(),
            parallelism: self.parallelism as nat,
            index: self.index as nat,
        }
    }
}

impl<Iter: TargetSource> TracerouteExecutor<Iter> {
    /// The invariant of the executor: a valid source, and a count of tasks
    /// that can still grow by what is pending.
    pub closed spec fn wf(&self) -> bool {
        &&& self.iter.wf()
        &&& self.index + self.iter.pending().len() <= u64::MAX
    }

    /// An executor that runs `parallelism` tasks at a time over the targets of `iter`.
    pub fn new(iter: Iter, parallelism: usize) -> (executor: Self)
        requires
            iter.wf(),
            iter.pending().len() <= u64::MAX,
        ensures
            executor.wf(),
            executor@ == (ExecutorView {
                pending: iter.pending(),
                parallelism: parallelism as nat,
                index: 0,
            }),
    {
        Self { parallelism, iter, index: 0 }
    }

    /// Starts the first wave: returns the tasks to start, each with its
    /// number and its target.
    pub fn start(&mut self) -> (tasks: Vec<(u64, u32)>)
        requires
            old(self).wf(),
        ensures
            final(self).wf(),
            final(self)@ == after_first_wave(old(self)@),
            tasks@ == first_wave(old(self)@),
    {
        let mut tasks: Vec<(u64, u32)> = Vec::new();
        let mut i: usize = 0;
        while i < self.parallelism
            invariant
                i <= self.parallelism,
                self.wf(),
                self.parallelism == old(self).parallelism,
                i <= old(self).iter.pending().len(),
                self.iter.pending() == old(self).iter.pending().skip(i as int),
                self.index == old(self).index + i,
                tasks@.len() == i,
                forall|k: int|
                    0 <= k < i ==> #[trigger] tasks@[k] == ((old(self).index + k) as u64, old(
                        self,
                    ).iter.pending()[k]),
            decreases self.parallelism - i,
        {
            match self.iter.next() {
                Some(target) => {
                    tasks.push((self.index, target));
                    self.index += 1;
                    assert(self.iter.pending() =~= old(self).iter.pending().skip(i + 1));
                },
                None => {
                    self.parallelism = i;
                    assert(tasks@ =~= first_wave(old(self)@));
                    assert(self.iter.pending() =~= old(self).iter.pending().skip(i as int));
                    return tasks;
                },
            }
            i += 1;
        }
        assert(tasks@ =~= first_wave(old(self)@));
        tasks
    }

    /// Handles the end of a task: returns the task to start in its place, if any.
    pub fn wait_for_next(&mut self) -> (task: Option<(u64, u32)>)
        requires
            old(self).wf(),
        ensures
            final(self).wf(),
            (final(self)@, task) == after_return(old(self)@),
    {
        match self.iter.next() {
            Some(target) => {
                let task = (self.index, target);
                self.index += 1;
                Some(task)
            },
            None => {
                assert(self.iter.pending() =~= old(self).iter.pending());
                if self.parallelism > 0 {
                    self.parallelism -= 1;
                }
                None
            },
        }
    }

    /// Whether every task has ended.
    pub fn is_done(&self) -> (done: bool)
        ensures
            done == (self@.parallelism == 0),
    {
        self.parallelism == 0
    }
}

} // verus!
