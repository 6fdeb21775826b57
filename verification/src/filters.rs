//! The logic of the template filters that compute on plain values.
use chrono::{DateTime, TimeZone, Utc};
use std::fmt::Write;
use vstd::prelude::*;

use crate::text::push_char;

verus! {

/// An upper-case hexadecimal digit.
pub open spec fn hex_digit_upper(d: int) -> char {
    if d < 10 {
        (('0' as int) + d) as char
    } else {
        (('A' as int) + d - 10) as char
    }
}

/// `n` in upper-case hexadecimal, without leading zeros (`0` for zero).
pub open spec fn hex_upper(n: nat) -> Seq<char>
    decreases n,
{
    if n < 16 {
        seq![hex_digit_upper(n as int)]
    } else {
        hex_upper(n / 16) + seq![hex_digit_upper((n % 16) as int)]
    }
}

/// `s` left-padded with `0` to at least `width` characters.
pub open spec fn zero_padded(s: Seq<char>, width: nat) -> Seq<char> {
    if s.len() >= width {
        s
    } else {
        Seq::new((width - s.len()) as nat, |i: int| '0') + s
    }
}

/// The text of the `to_hex` filter: `0x`, then the value in upper-case
/// hexadecimal padded with zeros to `width` digits.
pub open spec fn hex_text(value: u64, width: nat) -> Seq<char> {
    "0x"@ + zero_padded(hex_upper(value as nat), width)
}

fn hex_upper_char(d: u64) -> (c: char)
    requires
        d < 16,
    ensures
        c == hex_digit_upper(d as int),
{
    let digits: [char; 16] = [
        '0', '1', '2', '3', '4', '5', '6', '7', '8', '9', 'A', 'B', 'C', 'D', 'E', 'F',
    ];
    let c = digits[d as usize];
    proof {
        assert(c == hex_digit_upper(d as int)) by {
            assert(digits@[d as int] == c);
        }
    }
    c
}

fn push_hex_upper(out: &mut Vec<char>, n: u64)
    ensures
        final(out)@ == old(out)@ + hex_upper(n as nat),
    decreases n,
{
    if n < 16 {
        out.push(hex_upper_char(n));
        assert(final(out)@ =~= old(out)@ + hex_upper(n as nat));
    } else {
        push_hex_upper(out, n / 16);
        out.push(hex_upper_char(n % 16));
        assert(final(out)@ =~= old(out)@ + hex_upper(n as nat));
    }
}

/// Formats `value` as the `to_hex` filter does.
pub fn to_hex(value: u64, width: usize) -> (r: String)
    ensures
        r@ == hex_text(value, width as nat),
{
    let mut digits: Vec<char> = Vec::new();
    push_hex_upper(&mut digits, value);
    assert(digits@ =~= hex_upper(value as nat));
    let mut out = "0x".to_owned();
    let ghost prefix = out@;
    let mut k: usize = digits.len();
    while k < width
        invariant
            digits@.len() <= k <= width || (k == digits@.len() && k >= width),
            out@ == prefix + Seq::new((k - digits@.len()) as nat, |i: int| '0'),
        decreases width - k,
    {
        push_char(&mut out, '0');
        k += 1;
        assert(out@ =~= prefix + Seq::new((k - digits@.len()) as nat, |i: int| '0'));
    }
    let mut i: usize = 0;
    let ghost padded = out@;
    while i < digits.len()
        invariant
            0 <= i <= digits@.len(),
            out@ == padded + digits@.subrange(0, i as int),
        decreases digits@.len() - i,
    {
        push_char(&mut out, digits[i]);
        i += 1;
        assert(out@ =~= padded + digits@.subrange(0, i as int));
    }
    proof {
        reveal_strlit("0x");
        assert(digits@.subrange(0, digits@.len() as int) =~= digits@);
        if digits@.len() >= width {
            assert(Seq::new((k - digits@.len()) as nat, |i: int| '0') =~= Seq::<char>::empty());
            assert(out@ =~= hex_text(value, width as nat));
        } else {
            assert(out@ =~= hex_text(value, width as nat));
        }
    }
    out
}

/// Whether the `datetime_format` filter reads a timestamp as milliseconds:
/// when its magnitude exceeds ten digits of seconds.
pub open spec fn millis_timestamp(ts: i64) -> bool {
    ts > 9_999_999_999 || ts < -9_999_999_999
}

pub fn timestamp_is_millis(ts: i64) -> (r: bool)
    ensures
        r == millis_timestamp(ts),
{
    ts > 9_999_999_999i64 || ts < -9_999_999_999i64
}

/// The message of the `datetime_format` filter for a timestamp it cannot
/// turn into a date.
pub open spec fn invalid_timestamp_text() -> Seq<char> {
    "非法的时间戳数据"@
}

pub fn invalid_timestamp_message() -> (r: String)
    ensures
        r@ == invalid_timestamp_text(),
{
    "非法的时间戳数据".to_owned()
}

/// The text chrono writes for the UTC date `ts` milliseconds after the Unix
/// epoch with `format` (its `strftime`-like syntax): `None` when chrono has
/// no date for `ts`, the formatting error's text when `format` is refused.
pub uninterp spec fn date_text_from_millis(ts: i64, format: Seq<char>) -> Option<
    Result<Seq<char>, Seq<char>>,
>;

/// As [`date_text_from_millis`], for `ts` seconds after the Unix epoch.
pub uninterp spec fn date_text_from_seconds(ts: i64, format: Seq<char>) -> Option<
    Result<Seq<char>, Seq<char>>,
>;

pub open spec fn result_text(r: Result<String, String>) -> Result<Seq<char>, Seq<char>> {
    match r {
        Ok(s) => Ok(s@),
        Err(m) => Err(m@),
    }
}

pub open spec fn opt_result_text(r: Option<Result<String, String>>) -> Option<
    Result<Seq<char>, Seq<char>>,
> {
    match r {
        Some(x) => Some(result_text(x)),
        None => None,
    }
}

/// `DateTime::from_timestamp_millis(ts)` from chrono, written with
/// `DateTime::format(format)` into a `String` (the writing fails on a
/// format chrono refuses). Claims that the outcome is
/// `date_text_from_millis(ts, format)`, a function of its arguments alone.
#[verifier::external_body]
fn millis_date_text(ts: i64, format: &str) -> (r: Option<Result<String, String>>)
    ensures
        opt_result_text(r) == date_text_from_millis(ts, format@),
{
    match DateTime::from_timestamp_millis(ts) {
        None => None,
        Some(moment) => {
            let mut out = String::new();
            Some(write!(out, "{}", moment.format(format)).map(|_| out).map_err(|e| e.to_string()))
        },
    }
}

/// `Utc.timestamp_opt(ts, 0).single()` from chrono, written with
/// `DateTime::format(format)` into a `String` (the writing fails on a
/// format chrono refuses). Claims that the outcome is
/// `date_text_from_seconds(ts, format)`, a function of its arguments alone.
#[verifier::external_body]
fn seconds_date_text(ts: i64, format: &str) -> (r: Option<Result<String, String>>)
    ensures
        opt_result_text(r) == date_text_from_seconds(ts, format@),
{
    match Utc.timestamp_opt(ts, 0).single() {
        None => None,
        Some(moment) => {
            let mut out = String::new();
            Some(write!(out, "{}", moment.format(format)).map(|_| out).map_err(|e| e.to_string()))
        },
    }
}

/// What the `datetime_format` filter makes of a timestamp: the date, read
/// as milliseconds or seconds (see [`millis_timestamp`]), written with
/// `format`; the invalid-timestamp message when there is no such date, or
/// the formatting error.
pub open spec fn formatted_timestamp(ts: i64, format: Seq<char>) -> Result<Seq<char>, Seq<char>> {
    let date = if millis_timestamp(ts) {
        date_text_from_millis(ts, format)
    } else {
        date_text_from_seconds(ts, format)
    };
    match date {
        None => Err(invalid_timestamp_text()),
        Some(text) => text,
    }
}

/// The `datetime_format` filter: `ts` as a UTC date written with `format`.
pub fn format_timestamp(ts: i64, format: &str) -> (r: Result<String, String>)
    ensures
        result_text(r) == formatted_timestamp(ts, format@),
{
    let date = if timestamp_is_millis(ts) {
        millis_date_text(ts, format)
    } else {
        seconds_date_text(ts, format)
    };
    match date {
        None => Err(invalid_timestamp_message()),
        Some(text) => text,
    }
}

/// The unit in which the `filesize` filter shows a size.
#[derive(Debug, Clone, Copy)]
pub enum SizeUnit {
    Bytes,
    Kilobytes,
    Megabytes,
    Gigabytes,
}

/// The largest binary unit, up to gigabytes, that a size reaches; bytes
/// below a kilobyte.
pub open spec fn size_unit_of(bytes: u64) -> SizeUnit {
    if bytes >= 1024 * 1024 * 1024 {
        SizeUnit::Gigabytes
    } else if bytes >= 1024 * 1024 {
        SizeUnit::Megabytes
    } else if bytes >= 1024 {
        SizeUnit::Kilobytes
    } else {
        SizeUnit::Bytes
    }
}

pub fn size_unit(bytes: u64) -> (u: SizeUnit)
    ensures
        u == size_unit_of(bytes),
{
    if bytes >= 1024 * 1024 * 1024 {
        SizeUnit::Gigabytes
    } else if bytes >= 1024 * 1024 {
        SizeUnit::Megabytes
    } else if bytes >= 1024 {
        SizeUnit::Kilobytes
    } else {
        SizeUnit::Bytes
    }
}

impl SizeUnit {
    /// The number of bytes in one of this unit.
    pub open spec fn bytes_in(self) -> nat {
        match self {
            SizeUnit::Bytes => 1,
            SizeUnit::Kilobytes => 1024,
            SizeUnit::Megabytes => 1024 * 1024,
            SizeUnit::Gigabytes => 1024 * 1024 * 1024,
        }
    }

    /// The unit's symbol as the filter writes it.
    pub open spec fn symbol_text(self) -> Seq<char> {
        match self {
            SizeUnit::Bytes => "B"@,
            SizeUnit::Kilobytes => "KB"@,
            SizeUnit::Megabytes => "MB"@,
            SizeUnit::Gigabytes => "GB"@,
        }
    }

    pub fn divisor(&self) -> (d: u64)
        ensures
            d == self.bytes_in(),
    {
        match self {
            SizeUnit::Bytes => 1,
            SizeUnit::Kilobytes => 1024,
            SizeUnit::Megabytes => 1024 * 1024,
            SizeUnit::Gigabytes => 1024 * 1024 * 1024,
        }
    }

    pub fn symbol(&self) -> (s: String)
        ensures
            s@ == self.symbol_text(),
    {
        match self {
            SizeUnit::Bytes => "B".to_owned(),
            SizeUnit::Kilobytes => "KB".to_owned(),
            SizeUnit::Megabytes => "MB".to_owned(),
            SizeUnit::Gigabytes => "GB".to_owned(),
        }
    }
}

} // verus!
