//! Options on the command line: `--name value` pairs, decimal numbers and
//! dotted addresses.

use vstd::prelude::*;
use vstd::utf8::encode_utf8;
use crate::wire::be_u32;

verus! {

/// How an option can fail to give its value.
#[derive(Debug, Clone, Copy, PartialEq, Eq, Structural)]
pub enum ArgsErrorKind {
    /// The option is not on the command line.
    Missing,
    /// The option is the last word: no value follows it.
    Empty,
    /// The value is not of the kind that the option takes.
    Invalid,
}

/// The options that a scan takes.
#[derive(Debug, Clone, Copy, PartialEq, Eq, Structural)]
pub enum Field {
    PingTimeout,
    PingSize,
    PingParallelism,
    PingTtl,
    CursorType,
    CursorOffset,
    CursorNb,
    IteratorType,
    IteratorOffset,
    IteratorNb,
    MonitorTarget,
    MonitorTtl,
    MonitorTimeout,
    MonitorPeriod,
    MonitorMaxFails,
    OutFile,
}

/// Which option failed, and how.
#[derive(Debug, Clone, Copy, PartialEq, Eq, Structural)]
pub struct ArgsError {
    pub field: Field,
    pub kind: ArgsErrorKind,
}

/// The name of an option on the command line.
pub open spec fn option_name(field: Field) -> Seq<char> {
    match field {
        Field::PingTimeout => "--ping_timeout"@,
        Field::PingSize => "--ping_size"@,
        Field::PingParallelism => "--ping_parallelism"@,
        Field::PingTtl => "--ping_ttl"@,
        Field::CursorType => "--cursor_type"@,
        Field::CursorOffset => "--cursor_offset"@,
        Field::CursorNb => "--cursor_nb"@,
        Field::IteratorType => "--iterator_type"@,
        Field::IteratorOffset => "--iterator_offset"@,
        Field::IteratorNb => "--iterator_nb"@,
        Field::MonitorTarget => "--monitor_target"@,
        Field::MonitorTtl => "--monitor_ttl"@,
        Field::MonitorTimeout => "--monitor_timeout"@,
        Field::MonitorPeriod => "--monitor_period"@,
        Field::MonitorMaxFails => "--monitor_max_fails"@,
        Field::OutFile => "--out_file"@,
    }
}

impl Field {
    /// The name of the option on the command line.
    pub fn name(self) -> (name: &'static str)
        ensures
            name@ == option_name(self),
    {
        match self {
            Field::PingTimeout => "--ping_timeout",
            Field::PingSize => "--ping_size",
            Field::PingParallelism => "--ping_parallelism",
            Field::PingTtl => "--ping_ttl",
            Field::CursorType => "--cursor_type",
            Field::CursorOffset => "--cursor_offset",
            Field::CursorNb => "--cursor_nb",
            Field::IteratorType => "--iterator_type",
            Field::IteratorOffset => "--iterator_offset",
            Field::IteratorNb => "--iterator_nb",
            Field::MonitorTarget => "--monitor_target",
            Field::MonitorTtl => "--monitor_ttl",
            Field::MonitorTimeout => "--monitor_timeout",
            Field::MonitorPeriod => "--monitor_period",
            Field::MonitorMaxFails => "--monitor_max_fails",
            Field::OutFile => "--out_file",
        }
    }
}

/// The index of the first word of `args` that is `name`; the number of
/// words if none is.
pub open spec fn first_position(args: Seq<String>, name: Seq<char>) -> int
    decreases args.len(),
{
    if args.len() == 0 {
        0
    } else if args[0]@ == name {
        0
    } else {
        1 + first_position(args.drop_first(), name)
    }
}

/// The index of the value of the option `name`: the word after the first
/// occurrence of the name.
pub open spec fn value_position(args: Seq<String>, name: Seq<char>) -> Result<int, ArgsErrorKind> {
    let position = first_position(args, name);
    if position >= args.len() {
        Err(ArgsErrorKind::Missing)
    } else if position + 1 >= args.len() {
        Err(ArgsErrorKind::Empty)
    } else {
        Ok(position + 1)
    }
}

/// The first occurrence of a word is where it is and not before.
pub proof fn lemma_first_position(args: Seq<String>, name: Seq<char>, i: int)
    requires
        0 <= i <= args.len(),
        forall|j: int| 0 <= j < i ==> (#[trigger] args[j])@ != name,
        i < args.len() ==> args[i]@ == name,
    ensures
        first_position(args, name) == i,
    decreases i,
{
    if i > 0 {
        let rest = args.drop_first();
        assert(args[0]@ != name);
        assert forall|j: int| 0 <= j < i - 1 implies (#[trigger] rest[j])@ != name by {
            assert(rest[j] == args[j + 1]);
        }
        if i < args.len() {
            assert(rest[i - 1] == args[i]);
        }
        lemma_first_position(rest, name, i - 1);
    }
}

/// Finds the value of the option `field_name`: the word that follows its
/// first occurrence.
pub fn field_from_args<'a>(args: &'a [String], field_name: &str) -> (value: Result<
    &'a String,
    ArgsErrorKind,
>)
    ensures
        value matches Ok(text) ==> value_position(args@, field_name@) matches Ok(position)
            && *text == args@[position],
        value matches Err(kind) ==> value_position(args@, field_name@) == Err::<
            int,
            ArgsErrorKind,
        >(kind),
{
    let name = field_name.to_owned();
    let mut i: usize = 0;
    while i < args.len()
        invariant
            i <= args@.len(),
            name@ == field_name@,
            forall|j: int| 0 <= j < i ==> (#[trigger] args@[j])@ != field_name@,
        decreases args@.len() - i,
    {
        if args[i] == name {
            proof {
                lemma_first_position(args@, field_name@, i as int);
            }
            if args.len() - i <= 1 {
                return Err(ArgsErrorKind::Empty);
            }
            return Ok(&args[i + 1]);
        }
        i += 1;
    }
    proof {
        lemma_first_position(args@, field_name@, i as int);
    }
    Err(ArgsErrorKind::Missing)
}

/// Whether `byte` is a decimal digit.
pub open spec fn is_digit(byte: u8) -> bool {
    48 <= byte <= 57
}

/// Whether every byte of `text` is a decimal digit.
pub open spec fn all_digits(text: Seq<u8>) -> bool {
    forall|i: int| 0 <= i < text.len() ==> is_digit(#[trigger] text[i])
}

/// The number that the digits of `text` write in base ten.
pub open spec fn digits_value(text: Seq<u8>) -> nat
    decreases text.len(),
{
    if text.len() == 0 {
        0
    } else {
        digits_value(text.drop_last()) * 10 + (text.last() - 48) as nat
    }
}

/// The digits of a number: the text without a leading `+`.
pub open spec fn unsigned_part(text: Seq<u8>) -> Seq<u8> {
    if text.len() > 0 && text[0] == 43 {
        text.skip(1)
    } else {
        text
    }
}

/// The number that `text` writes, if it is one and is at most `max`: one or
/// more decimal digits, after a `+` or not.
pub open spec fn decimal(text: Seq<u8>, max: u64) -> Option<u64> {
    let digits = unsigned_part(text);
    if digits.len() > 0 && all_digits(digits) && digits_value(digits) <= max {
        Some(digits_value(digits) as u64)
    } else {
        None
    }
}

/// More digits never write a smaller number.
pub proof fn lemma_digits_value_grows(text: Seq<u8>, n: int)
    requires
        0 <= n <= text.len(),
        all_digits(text),
    ensures
        digits_value(text.take(n)) <= digits_value(text),
    decreases text.len() - n,
{
    if n < text.len() {
        assert(text.take(n + 1).drop_last() =~= text.take(n));
        assert(is_digit(text[n]));
        assert(text.take(n + 1).last() == text[n]);
        lemma_digits_value_grows(text, n + 1);
    } else {
        assert(text.take(n) =~= text);
    }
}

/// Reads a decimal number of at most `max` from `text`.
pub fn parse_decimal(text: &str, max: u64) -> (number: Option<u64>)
    ensures
        number == decimal(encode_utf8(text@), max),
{
    let bytes = text.as_bytes();
    let start: usize = if bytes.len() > 0 && bytes[0] == 43 {
        1
    } else {
        0
    };
    let digits = vstd::slice::slice_subrange(bytes, start, bytes.len());
    assert(digits@ =~= unsigned_part(bytes@));
    if digits.len() == 0 {
        return None;
    }
    let mut value: u64 = 0;
    let mut i: usize = 0;
    while i < digits.len()
        invariant
            i <= digits@.len(),
            digits@.len() > 0,
            digits@ == unsigned_part(encode_utf8(text@)),
            all_digits(digits@.take(i as int)),
            value == digits_value(digits@.take(i as int)),
            value <= max,
        decreases digits@.len() - i,
    {
        let byte = digits[i];
        proof {
            assert(digits@.take(i + 1).drop_last() =~= digits@.take(i as int));
            assert(digits@.take(i + 1).last() == byte);
        }
        if byte < 48 || byte > 57 {
            assert(!is_digit(digits@[i as int]));
            return None;
        }
        let digit: u64 = (byte - 48) as u64;
        if digit > max || value > (max - digit) / 10 {
            proof {
                assert(digits_value(digits@.take(i + 1)) > max);
                if all_digits(digits@) {
                    lemma_digits_value_grows(digits@, i + 1);
                }
            }
            return None;
        }
        value = value * 10 + digit;
        proof {
            assert forall|j: int| 0 <= j < i + 1 implies is_digit(
                #[trigger] digits@.take(i + 1)[j],
            ) by {
                if j < i {
                    assert(digits@.take(i + 1)[j] == digits@.take(i as int)[j]);
                }
            }
        }
        i += 1;
    }
    assert(digits@.take(i as int) =~= digits@);
    Some(value)
}

/// How many decimal digits `text` holds from `start` on, in a row.
pub open spec fn digit_run(text: Seq<u8>, start: int) -> int
    decreases text.len() - start,
{
    if 0 <= start < text.len() && is_digit(text[start]) {
        1 + digit_run(text, start + 1)
    } else {
        0
    }
}

/// A run of digits has no negative length.
pub proof fn lemma_digit_run_is_natural(text: Seq<u8>, start: int)
    ensures
        digit_run(text, start) >= 0,
    decreases text.len() - start,
{
    if 0 <= start < text.len() && is_digit(text[start]) {
        lemma_digit_run_is_natural(text, start + 1);
    }
}

/// The octet written at `start`, and where it ends: one to three digits,
/// without a leading zero, that write at most 255.
pub open spec fn octet_at(text: Seq<u8>, start: int) -> Option<(u8, int)> {
    let len = digit_run(text, start);
    let digits = text.subrange(start, start + len);
    if 1 <= len <= 3 && (len == 1 || text[start] != 48) && digits_value(digits) <= 255 {
        Some((digits_value(digits) as u8, start + len))
    } else {
        None
    }
}

/// Whether a dot stands at `at`.
pub open spec fn dot_at(text: Seq<u8>, at: int) -> bool {
    0 <= at < text.len() && text[at] == 46
}

/// The address that `text` writes: four octets with a dot between each two,
/// and nothing else.
pub open spec fn dotted_quad(text: Seq<u8>) -> Option<u32> {
    match octet_at(text, 0) {
        Some((a, after_a)) if dot_at(text, after_a) => match octet_at(text, after_a + 1) {
            Some((b, after_b)) if dot_at(text, after_b) => match octet_at(text, after_b + 1) {
                Some((c, after_c)) if dot_at(text, after_c) => match octet_at(text, after_c + 1) {
                    Some((d, after_d)) if after_d == text.len() => Some(be_u32(a, b, c, d)),
                    _ => None,
                },
                _ => None,
            },
            _ => None,
        },
        _ => None,
    }
}

/// Reads the octet written at `start`.
fn read_octet(text: &[u8], start: usize) -> (octet: Option<(u8, usize)>)
    requires
        start <= text@.len(),
    ensures
        octet matches Some((value, end)) ==> octet_at(text@, start as int) == Some(
            (value, end as int),
        ) && end <= text@.len(),
        octet.is_none() ==> octet_at(text@, start as int).is_none(),
{
    let total = text.len();
    let mut value: u16 = 0;
    let mut len: usize = 0;
    while start + len < total && text[start + len] >= 48 && text[start + len] <= 57
        invariant
            start + len <= text@.len(),
            total == text@.len(),
            len <= 3,
            value == digits_value(text@.subrange(start as int, start + len)),
            value <= 999,
            digit_run(text@, start as int) == len + digit_run(text@, start + len),
            len == 0 ==> value == 0,
            len == 1 ==> value <= 9,
            len == 2 ==> value <= 99,
        decreases text@.len() - start - len,
    {
        proof {
            lemma_digit_run_is_natural(text@, start + len + 1);
            assert(is_digit(text@[start + len]));
            assert(digit_run(text@, start + len) == 1 + digit_run(text@, start + len + 1));
        }
        if len == 3 {
            return None;
        }
        proof {
            assert(text@.subrange(start as int, start + len + 1).drop_last() =~= text@.subrange(
                start as int,
                start + len,
            ));
        }
        value = value * 10 + (text[start + len] - 48) as u16;
        len += 1;
    }
    if len == 0 || (len > 1 && text[start] == 48) || value > 255 {
        return None;
    }
    Some((value as u8, start + len))
}

/// Reads an address in dotted notation.
pub fn parse_ipv4(text: &str) -> (address: Option<u32>)
    ensures
        address == dotted_quad(encode_utf8(text@)),
{
    let bytes = text.as_bytes();
    let (a, after_a) = match read_octet(bytes, 0) {
        Some(octet) => octet,
        None => {
            return None;
        },
    };
    if after_a >= bytes.len() || bytes[after_a] != 46 {
        return None;
    }
    let (b, after_b) = match read_octet(bytes, after_a + 1) {
        Some(octet) => octet,
        None => {
            return None;
        },
    };
    if after_b >= bytes.len() || bytes[after_b] != 46 {
        return None;
    }
    let (c, after_c) = match read_octet(bytes, after_b + 1) {
        Some(octet) => octet,
        None => {
            return None;
        },
    };
    if after_c >= bytes.len() || bytes[after_c] != 46 {
        return None;
    }
    let (d, after_d) = match read_octet(bytes, after_c + 1) {
        Some(octet) => octet,
        None => {
            return None;
        },
    };
    if after_d != bytes.len() {
        return None;
    }
    Some(
        16777216 * (a as u32) + 65536 * (b as u32) + 256 * (c as u32) + d as u32,
    )
}

/// The value of the option `field` as a number of at most `max`.
pub open spec fn number_option(args: Seq<String>, field: Field, max: u64) -> Result<u64, ArgsError> {
    match value_position(args, option_name(field)) {
        Err(kind) => Err(ArgsError { field, kind }),
        Ok(position) => match decimal(encode_utf8(args[position]@), max) {
            Some(number) => Ok(number),
            None => Err(ArgsError { field, kind: ArgsErrorKind::Invalid }),
        },
    }
}

/// The value of the option `field`, as it is written.
pub open spec fn text_option(args: Seq<String>, field: Field) -> Result<Seq<char>, ArgsError> {
    match value_position(args, option_name(field)) {
        Err(kind) => Err(ArgsError { field, kind }),
        Ok(position) => Ok(args[position]@),
    }
}

/// Reads the value of the option `field` as a number of at most `max`.
pub fn number_from_args(args: &[String], field: Field, max: u64) -> (number: Result<u64, ArgsError>)
    ensures
        number == number_option(args@, field, max),
{
    match field_from_args(args, field.name()) {
        Err(kind) => Err(ArgsError { field, kind }),
        Ok(text) => match parse_decimal(text.as_str(), max) {
            Some(number) => Ok(number),
            None => Err(ArgsError { field, kind: ArgsErrorKind::Invalid }),
        },
    }
}

/// Reads the value of the option `field` as it is written.
pub fn text_from_args<'a>(args: &'a [String], field: Field) -> (text: Result<&'a String, ArgsError>)
    ensures
        text matches Ok(value) ==> text_option(args@, field) == Ok::<Seq<char>, ArgsError>(value@),
        text matches Err(error) ==> text_option(args@, field) == Err::<Seq<char>, ArgsError>(
            error,
        ),
{
    match field_from_args(args, field.name()) {
        Err(kind) => Err(ArgsError { field, kind }),
        Ok(text) => Ok(text),
    }
}

} // verus!
