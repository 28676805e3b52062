//! Reading numbers out of device files, and percentages.
use vstd::prelude::*;
use vstd::utf8::{valid_utf8, decode_utf8, encode_utf8};
use crate::shared::DeviceError;
use crate::text::{
    chars_of, decimal, is_digit, lemma_decimal_digits,
    lemma_parse_decimal, parse_usize, parse_usize_chars, push_char, push_decimal, trim, trim_chars,
    trim_end, trim_start,
};

verus! {

/// `std::str::from_utf8`: the text that `bytes` encode, `None` where they
/// are not UTF-8. The claim is that it accepts exactly the valid UTF-8
/// sequences and decodes them.
#[verifier::external_body]
fn utf8_text(bytes: &[u8]) -> (r: Option<&str>)
    ensures
        r is Some <==> valid_utf8(bytes@),
        r matches Some(s) ==> s@ == decode_utf8(bytes@),
{
    std::str::from_utf8(bytes).ok()
}

/// the number that a device file's text holds: surrounding whitespace is
/// ignored
pub open spec fn spec_number_text(s: Seq<char>) -> Result<usize, DeviceError> {
    match parse_usize(trim(s)) {
        Some(n) => Ok(n),
        None => Err(DeviceError::InvalidNumber),
    }
}

/// the number that a device file's contents hold
pub open spec fn spec_number(bytes: Seq<u8>) -> Result<usize, DeviceError> {
    if valid_utf8(bytes) {
        spec_number_text(decode_utf8(bytes))
    } else {
        Err(DeviceError::InvalidUtf8)
    }
}

/// the number in the text of a device file
pub fn number_from_text(s: &str) -> (r: Result<usize, DeviceError>)
    ensures
        r == spec_number_text(s@),
{
    let c = chars_of(s);
    let t = trim_chars(&c);
    match parse_usize_chars(&t) {
        Some(n) => Ok(n),
        None => Err(DeviceError::InvalidNumber),
    }
}

/// the number in the contents of a device file: UTF-8 text holding a
/// decimal number, possibly surrounded by whitespace
pub fn number_from_bytes(bytes: &[u8]) -> (r: Result<usize, DeviceError>)
    ensures
        r == spec_number(bytes@),
{
    match utf8_text(bytes) {
        None => Err(DeviceError::InvalidUtf8),
        Some(s) => number_from_text(s),
    }
}

/// `value` as a whole percentage of `max`, rounded down; 0 for a device
/// whose maximum is 0
pub open spec fn spec_percent(value: nat, max: nat) -> nat {
    if max == 0 {
        0
    } else {
        (value * 100) / max
    }
}

/// `value` as a whole percentage of `max`, rounded down; 0 where `max` is 0
pub fn percent(value: usize, max: usize) -> (r: usize)
    requires
        max == 0 || value * 100 <= usize::MAX,
    ensures
        r == spec_percent(value as nat, max as nat),
{
    if max == 0 {
        0
    } else {
        (value * 100) / max
    }
}

/// A value within its maximum is at most 100 percent of it.
pub proof fn lemma_percent_at_most_hundred(value: nat, max: nat)
    requires
        value <= max,
    ensures
        spec_percent(value, max) <= 100,
{
    if max > 0 {
        assert((value * 100) / max <= (max * 100) / max) by (nonlinear_arith)
            requires
                value <= max,
                max > 0,
        ;
        assert((max * 100) / max == 100) by (nonlinear_arith)
            requires
                max > 0,
        ;
    }
}


/// the line that sets a device to brightness `b`: its decimal number and a
/// line feed
pub open spec fn spec_brightness_line(b: nat) -> Seq<char> {
    decimal(b).push('\n')
}

/// the contents to write to the brightness file of a device whose maximum is
/// `max` to set it to `b`
pub fn brightness_request(b: usize, max: usize) -> (r: Result<String, DeviceError>)
    ensures
        r is Ok <==> b <= max,
        r matches Ok(s) ==> s@ == spec_brightness_line(b as nat),
        r matches Err(e) ==> e == DeviceError::ExceedsMax,
{
    if b > max {
        return Err(DeviceError::ExceedsMax);
    }
    let mut s = String::new();
    push_decimal(&mut s, b);
    push_char(&mut s, '\n');
    assert(s@ =~= spec_brightness_line(b as nat));
    Ok(s)
}

/// A brightness written to a device file is read back unchanged: the bytes
/// of the line that sets brightness `b` hold the number `b`.
pub proof fn lemma_brightness_reads_back(b: usize)
    ensures
        spec_number(encode_utf8(spec_brightness_line(b as nat))) == Ok::<usize, DeviceError>(b),
{
    let line = spec_brightness_line(b as nat);
    let d = decimal(b as nat);
    vstd::utf8::encode_utf8_valid_utf8(line);
    vstd::utf8::encode_utf8_decode_utf8(line);
    lemma_decimal_digits(b as nat);
    lemma_parse_decimal(b);
    assert(is_digit(line[0]));
    assert(trim_start(line) == line);
    assert(line.last() == '\n');
    assert(line.drop_last() =~= d);
    assert(is_digit(d.last()));
    assert(trim_end(line) == trim_end(d));
    assert(trim_end(d) == d);
}

/// the lines that report a device's brightness and maximum
pub open spec fn spec_brightness_lines(brightness: nat, max: nat) -> Seq<char> {
    "\tCurrent brightness: "@ + decimal(brightness) + " ("@ + decimal(spec_percent(brightness, max))
        + "%)\n"@ + "\tMax brightness: "@ + decimal(max) + seq!['\n']
}

/// appends the lines that report a device's brightness and maximum to `s`
pub fn push_brightness_lines(s: &mut String, brightness: usize, max: usize)
    requires
        max == 0 || brightness * 100 <= usize::MAX,
    ensures
        final(s)@ == old(s)@ + spec_brightness_lines(brightness as nat, max as nat),
{
    s.append("\tCurrent brightness: ");
    push_decimal(s, brightness);
    s.append(" (");
    push_decimal(s, percent(brightness, max));
    s.append("%)\n");
    s.append("\tMax brightness: ");
    push_decimal(s, max);
    push_char(s, '\n');
    assert(s@ =~= old(s)@ + spec_brightness_lines(brightness as nat, max as nat));
}

} // verus!
