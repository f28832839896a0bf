//! What a temperature sensor holds, and how its content is read.
//!
//! A sensor's content is text: a non-negative decimal integer of milli-degrees
//! Celsius, with white space allowed around it. `"45230\n"` stands for
//! 45.230 degrees.

use crate::error::FanError;
use vstd::prelude::*;

verus! {

/// The white-space characters that take one byte: tab, line feed, vertical
/// tab, form feed, carriage return and space.
pub open spec fn is_ascii_space(b: u8) -> bool {
    (0x09 <= b && b <= 0x0d) || b == 0x20
}

/// The white-space characters that take two bytes in UTF-8: next line
/// (U+0085) and no-break space (U+00A0).
pub open spec fn is_two_byte_space(a: u8, b: u8) -> bool {
    a == 0xc2 && (b == 0x85 || b == 0xa0)
}

/// The white-space characters that take three bytes in UTF-8: U+1680,
/// U+2000 to U+200A, U+2028, U+2029, U+202F, U+205F and U+3000.
pub open spec fn is_three_byte_space(a: u8, b: u8, c: u8) -> bool {
    ||| a == 0xe1 && b == 0x9a && c == 0x80
    ||| a == 0xe2 && b == 0x80 && ((0x80 <= c && c <= 0x8a) || c == 0xa8 || c == 0xa9 || c == 0xaf)
    ||| a == 0xe2 && b == 0x81 && c == 0x9f
    ||| a == 0xe3 && b == 0x80 && c == 0x80
}

/// How many bytes the white-space character at the front of `s` takes; 0 if
/// `s` does not start with one.
pub open spec fn leading_space(s: Seq<u8>) -> nat {
    if s.len() >= 1 && is_ascii_space(s[0]) {
        1
    } else if s.len() >= 2 && is_two_byte_space(s[0], s[1]) {
        2
    } else if s.len() >= 3 && is_three_byte_space(s[0], s[1], s[2]) {
        3
    } else {
        0
    }
}

/// How many bytes the white-space character at the back of `s` takes; 0 if
/// `s` does not end with one.
pub open spec fn trailing_space(s: Seq<u8>) -> nat {
    let n = s.len() as int;
    if n >= 1 && is_ascii_space(s[n - 1]) {
        1
    } else if n >= 2 && is_two_byte_space(s[n - 2], s[n - 1]) {
        2
    } else if n >= 3 && is_three_byte_space(s[n - 3], s[n - 2], s[n - 1]) {
        3
    } else {
        0
    }
}

/// `s` without the white space at its front.
pub open spec fn trim_start(s: Seq<u8>) -> Seq<u8>
    decreases s.len(),
{
    let k = leading_space(s);
    if k == 0 {
        s
    } else {
        trim_start(s.skip(k as int))
    }
}

/// `s` without the white space at its back.
pub open spec fn trim_end(s: Seq<u8>) -> Seq<u8>
    decreases s.len(),
{
    let k = trailing_space(s);
    if k == 0 {
        s
    } else {
        trim_end(s.take(s.len() - k))
    }
}

/// `s` without the white space around it.
pub open spec fn trim(s: Seq<u8>) -> Seq<u8> {
    trim_end(trim_start(s))
}

/// The ASCII digits `'0'` to `'9'`.
pub open spec fn is_digit(b: u8) -> bool {
    0x30 <= b && b <= 0x39
}

/// The number that a digit stands for; 0 for any other byte.
pub open spec fn digit_value(b: u8) -> nat {
    if is_digit(b) {
        (b - 0x30) as nat
    } else {
        0
    }
}

/// The number that a run of decimal digits stands for, the most significant
/// digit first.
pub open spec fn digits_value(s: Seq<u8>) -> nat
    decreases s.len(),
{
    if s.len() == 0 {
        0
    } else {
        digits_value(s.drop_last()) * 10 + digit_value(s.last())
    }
}

/// `s` without the one `'+'` that may stand at its front.
pub open spec fn unsigned_part(s: Seq<u8>) -> Seq<u8> {
    if s.len() > 0 && s[0] == 0x2b {
        s.skip(1)
    } else {
        s
    }
}

/// Whether `s` is made of digits only.
pub open spec fn all_digits(s: Seq<u8>) -> bool {
    forall|i: int| 0 <= i < s.len() ==> is_digit(#[trigger] s[i])
}

/// The number that `s` denotes: an optional `'+'`, then at least one digit,
/// and a value that fits in 32 bits. Anything else denotes nothing.
pub open spec fn numeral(s: Seq<u8>) -> Option<u32> {
    let d = unsigned_part(s);
    if d.len() > 0 && all_digits(d) && digits_value(d) <= u32::MAX {
        Some(digits_value(d) as u32)
    } else {
        None
    }
}

/// The milli-degrees that a sensor's content stands for, if it stands for any.
pub open spec fn millidegrees(content: Seq<u8>) -> Option<u32> {
    numeral(trim(content))
}

/// A leading part of a run of digits never stands for more than the whole.
pub proof fn lemma_digits_value_grows(s: Seq<u8>, k: int)
    requires
        0 <= k <= s.len(),
    ensures
        digits_value(s.take(k)) <= digits_value(s),
    decreases s.len(),
{
    if k == s.len() {
        assert(s.take(k) =~= s);
    } else {
        assert(s.drop_last().take(k) =~= s.take(k));
        lemma_digits_value_grows(s.drop_last(), k);
    }
}

/// The sensor protocol in its plain form: a run of digits whose value fits in
/// 32 bits stands for that value, alone and with a line feed after it.
pub proof fn lemma_digits_read_as_their_value(digits: Seq<u8>)
    requires
        digits.len() > 0,
        all_digits(digits),
        digits_value(digits) <= u32::MAX,
    ensures
        millidegrees(digits) == Some(digits_value(digits) as u32),
        millidegrees(digits.push(0x0a)) == Some(digits_value(digits) as u32),
{
    let n = digits.len() as int;
    let line = digits.push(0x0a);
    assert(is_digit(digits[0]) && is_digit(digits[n - 1]));
    assert(n >= 2 ==> is_digit(digits[n - 2]));
    assert(n >= 3 ==> is_digit(digits[n - 3]));
    assert(trim_start(digits) == digits);
    assert(trim_end(digits) == digits);
    assert(line[0] == digits[0]);
    assert(trim_start(line) == line);
    assert(line.take(line.len() - 1) =~= digits);
    assert(trailing_space(line) == 1);
    assert(trim_end(line) == trim_end(digits));
}

fn ascii_space(b: u8) -> (result: bool)
    ensures
        result == is_ascii_space(b),
{
    (0x09 <= b && b <= 0x0d) || b == 0x20
}

fn two_byte_space(a: u8, b: u8) -> (result: bool)
    ensures
        result == is_two_byte_space(a, b),
{
    a == 0xc2 && (b == 0x85 || b == 0xa0)
}

fn three_byte_space(a: u8, b: u8, c: u8) -> (result: bool)
    ensures
        result == is_three_byte_space(a, b, c),
{
    if a == 0xe1 {
        b == 0x9a && c == 0x80
    } else if a == 0xe2 {
        (b == 0x80 && ((0x80 <= c && c <= 0x8a) || c == 0xa8 || c == 0xa9 || c == 0xaf)) || (b
            == 0x81 && c == 0x9f)
    } else {
        a == 0xe3 && b == 0x80 && c == 0x80
    }
}

/// The length of the white-space character that starts at `i`.
fn space_at(content: &[u8], i: usize) -> (k: usize)
    requires
        i <= content@.len(),
    ensures
        k == leading_space(content@.skip(i as int)),
        i + k <= content@.len(),
{
    let n: usize = content.len() - i;
    if n >= 1 && ascii_space(content[i]) {
        1
    } else if n >= 2 && two_byte_space(content[i], content[i + 1]) {
        2
    } else if n >= 3 && three_byte_space(content[i], content[i + 1], content[i + 2]) {
        3
    } else {
        0
    }
}

/// The length of the white-space character that ends at `end`, within the
/// part of `content` from `start` on.
fn space_before(content: &[u8], start: usize, end: usize) -> (k: usize)
    requires
        start <= end <= content@.len(),
    ensures
        k == trailing_space(content@.subrange(start as int, end as int)),
        start + k <= end,
{
    let n: usize = end - start;
    if n >= 1 && ascii_space(content[end - 1]) {
        1
    } else if n >= 2 && two_byte_space(content[end - 2], content[end - 1]) {
        2
    } else if n >= 3 && three_byte_space(content[end - 3], content[end - 2], content[end - 1]) {
        3
    } else {
        0
    }
}

/// Finds the part of `content` that is left when the white space around it is
/// taken away.
fn trim_bounds(content: &[u8]) -> (bounds: (usize, usize))
    ensures
        bounds.0 <= bounds.1 <= content@.len(),
        content@.subrange(bounds.0 as int, bounds.1 as int) == trim(content@),
{
    let n: usize = content.len();
    let mut start: usize = 0;
    let mut k: usize = space_at(content, 0);
    assert(content@.skip(0) =~= content@);
    while k > 0
        invariant
            n == content@.len(),
            start + k <= n,
            k == leading_space(content@.skip(start as int)),
            trim_start(content@) == trim_start(content@.skip(start as int)),
        decreases n - start,
    {
        assert(content@.skip(start as int).skip(k as int) =~= content@.skip(start + k));
        start = start + k;
        k = space_at(content, start);
    }
    assert(content@.skip(start as int) =~= content@.subrange(start as int, n as int));
    let mut end: usize = n;
    let mut k: usize = space_before(content, start, end);
    while k > 0
        invariant
            start <= end <= n,
            n == content@.len(),
            start + k <= end,
            k == trailing_space(content@.subrange(start as int, end as int)),
            trim(content@) == trim_end(content@.subrange(start as int, end as int)),
        decreases end - start,
    {
        assert(content@.subrange(start as int, end as int).take(end - start - k)
            =~= content@.subrange(start as int, end - k));
        end = end - k;
        k = space_before(content, start, end);
    }
    (start, end)
}

/// Reads the milli-degrees that a sensor's content stands for.
///
/// The white space around the content is dropped. What is left has to be a
/// decimal integer that fits in 32 bits, with at most a `'+'` before it.
/// Anything else, the empty content too, is a format error.
pub fn parse_millidegrees(content: &[u8]) -> (result: Result<u32, FanError>)
    ensures
        result == match millidegrees(content@) {
            Some(v) => Ok::<u32, FanError>(v),
            None => Err(FanError::Format),
        },
{
    let (start, end) = trim_bounds(content);
    let ghost core = content@.subrange(start as int, end as int);
    let first: usize = if start < end && content[start] == 0x2b {
        start + 1
    } else {
        start
    };
    let ghost digits = content@.subrange(first as int, end as int);
    assert(digits =~= unsigned_part(core));
    if first == end {
        return Err(FanError::Format);
    }
    let mut value: u64 = 0;
    let mut i: usize = first;
    while i < end
        invariant
            first <= i <= end <= content@.len(),
            digits == content@.subrange(first as int, end as int),
            digits == unsigned_part(trim(content@)),
            all_digits(digits.take(i - first)),
            value == digits_value(digits.take(i - first)),
            value <= u32::MAX,
        decreases end - i,
    {
        let b: u8 = content[i];
        assert(digits[i - first] == b);
        if b < 0x30 || b > 0x39 {
            return Err(FanError::Format);
        }
        proof {
            assert(digits.take(i + 1 - first).drop_last() =~= digits.take(i - first));
            assert(digits.take(i + 1 - first).last() == b);
            lemma_digits_value_grows(digits, i + 1 - first);
        }
        value = value * 10 + (b - 0x30) as u64;
        if value > 0xffff_ffff {
            return Err(FanError::Format);
        }
        i = i + 1;
    }
    assert(digits.take(end - first) =~= digits);
    Ok(value as u32)
}

/// What reading one sensor in full, from its start, gave.
#[derive(Debug, PartialEq, Eq)]
pub enum SensorRead {
    /// Every byte that the sensor holds.
    Content(Vec<u8>),
    /// The sensor could not be read.
    Failed,
}

impl SensorRead {
    /// The temperature that this read gives, in milli-degrees Celsius, or the
    /// error that it ends in.
    pub open spec fn reading(self) -> Result<u32, FanError> {
        match self {
            SensorRead::Content(bytes) => match millidegrees(bytes@) {
                Some(v) => Ok(v),
                None => Err(FanError::Format),
            },
            SensorRead::Failed => Err(FanError::Io),
        }
    }
}

/// Turns what one read of a sensor gave into a temperature in milli-degrees
/// Celsius.
///
/// A read that failed is an I/O error, content that is no temperature is a
/// format error.
pub fn read_temperature(read: &SensorRead) -> (result: Result<u32, FanError>)
    ensures
        result == read.reading(),
{
    match read {
        SensorRead::Content(bytes) => parse_millidegrees(bytes.as_slice()),
        SensorRead::Failed => Err(FanError::Io),
    }
}

} // verus!
