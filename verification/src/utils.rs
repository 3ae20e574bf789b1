//! Display helpers: level names and colours, timestamps and byte sizes.
use vstd::prelude::*;
use chrono::{Datelike, NaiveDateTime, TimeZone, Timelike, Utc};
use crate::event::{level_text, LogLevel};
use crate::logs::opt_text;
use crate::numfmt::{f64_value, f64_value_of, push_two_decimals, two_decimals};
use crate::text::{decimal, push_decimal};

verus! {

/// The colour a level is drawn in.
#[derive(Debug, Clone, Copy, PartialEq, Eq, Structural)]
pub enum LevelColor {
    Red,
    Magenta,
    Yellow,
    Green,
    Cyan,
    Gray,
}

pub open spec fn kib() -> nat {
    1024
}

pub open spec fn mib() -> nat {
    1024 * 1024
}

pub open spec fn gib() -> nat {
    1024 * 1024 * 1024
}

/// The text `format_size` shows for `size` bytes.
pub open spec fn size_text(size: nat) -> Seq<char> {
    if size >= gib() {
        two_decimals(f64_value(size), gib()) + seq![' ', 'G', 'B']
    } else if size >= mib() {
        two_decimals(f64_value(size), mib()) + seq![' ', 'M', 'B']
    } else if size >= kib() {
        two_decimals(f64_value(size), kib()) + seq![' ', 'K', 'B']
    } else {
        decimal(size) + seq![' ', 'b', 'y', 't', 'e', 's']
    }
}

/// `n` written in decimal with zeros in front up to `width` digits.
pub open spec fn zero_padded(n: nat, width: nat) -> Seq<char> {
    let d = decimal(n);
    if d.len() < width {
        Seq::new((width - d.len()) as nat, |i: int| '0') + d
    } else {
        d
    }
}

/// `{:0width$}` of a signed number: the sign counts toward the width.
pub open spec fn signed_zero_padded(n: int, width: nat) -> Seq<char> {
    if n < 0 {
        seq!['-'] + zero_padded((-n) as nat, if width > 0 { (width - 1) as nat } else { 0 })
    } else {
        zero_padded(n as nat, width)
    }
}

/// Appends `n` in decimal with zeros in front up to `width` digits.
pub fn push_zero_padded(s: &mut String, n: u64, width: usize)
    ensures
        final(s)@ == old(s)@ + zero_padded(n as nat, width as nat),
{
    let mut digits = String::new();
    push_decimal(&mut digits, n);
    let dv = crate::text::chars_of(digits.as_str());
    assert(dv@ == decimal(n as nat));
    let ghost start = s@;
    if dv.len() < width {
        let pad = width - dv.len();
        let mut k: usize = 0;
        while k < pad
            invariant
                k <= pad,
                s@ == start + Seq::new(k as nat, |i: int| '0'),
            decreases pad - k,
        {
            s.push('0');
            k = k + 1;
            assert(s@ =~= start + Seq::new(k as nat, |i: int| '0'));
        }
        crate::text::push_chars(s, &dv);
        assert(s@ =~= start + zero_padded(n as nat, width as nat));
    } else {
        crate::text::push_chars(s, &dv);
    }
}

/// Appends `n` as `{:0width$}` prints a signed number.
pub fn push_signed_zero_padded(s: &mut String, n: i64, width: usize)
    ensures
        final(s)@ == old(s)@ + signed_zero_padded(n as int, width as nat),
{
    if n < 0 {
        s.push('-');
        let mag: u64 = if n == i64::MIN {
            0x8000_0000_0000_0000u64
        } else {
            (-n) as u64
        };
        let w = if width > 0 { width - 1 } else { 0 };
        let ghost mid = s@;
        push_zero_padded(s, mag, w);
    } else {
        push_zero_padded(s, n as u64, width);
    }
}

/// The text `format_timestamp_from_string` shows for a stamp: its calendar
/// fields when chrono parses it, the epoch otherwise.
pub open spec fn compact_stamp_text(s: Seq<char>) -> Seq<char> {
    calendar_text(
        match compact_stamp_fields(s) {
            Some(f) => f,
            None => (1970i32, 1u32, 1u32, 0u32, 0u32, 0u32),
        },
    )
}

/// The date and time shown for a `YYYYMMDDHHMMSS` stamp that parsed to the
/// given calendar fields.
pub open spec fn calendar_text(f: (i32, u32, u32, u32, u32, u32)) -> Seq<char> {
    signed_zero_padded(f.0 as int, 4) + seq!['-'] + zero_padded(f.1 as nat, 2) + seq!['-']
        + zero_padded(f.2 as nat, 2) + seq![' '] + zero_padded(f.3 as nat, 2) + seq![':']
        + zero_padded(f.4 as nat, 2) + seq![':'] + zero_padded(f.5 as nat, 2)
}

/// The calendar fields chrono reads from a `YYYYMMDDHHMMSS` stamp, if it
/// parses.
pub uninterp spec fn compact_stamp_fields(s: Seq<char>) -> Option<(i32, u32, u32, u32, u32, u32)>;

/// Calls `NaiveDateTime::parse_from_str(s, "%Y%m%d%H%M%S")` and reads the
/// year, month, day, hour, minute and second of the result. The calendar
/// rules chrono applies are left to the name `compact_stamp_fields`.
#[verifier::external_body]
fn parse_compact_stamp(s: &str) -> (r: Option<(i32, u32, u32, u32, u32, u32)>)
    ensures
        r == compact_stamp_fields(s@),
{
    match NaiveDateTime::parse_from_str(s, "%Y%m%d%H%M%S") {
        Ok(dt) => Some((dt.year(), dt.month(), dt.day(), dt.hour(), dt.minute(), dt.second())),
        Err(_) => None,
    }
}

/// The text chrono formats with `%Y-%m-%d %H:%M:%S%.3f` for the UTC
/// instant `secs` seconds and `nanos` nanoseconds after the epoch, when
/// that instant exists.
pub uninterp spec fn utc_millis_text(secs: i64, nanos: u32) -> Option<Seq<char>>;

/// Calls `Utc.timestamp_opt(secs, nanos).single()` and formats the instant
/// with `%Y-%m-%d %H:%M:%S%.3f`. The calendar text is left to the name
/// `utc_millis_text`; what is stated is that the epoch itself exists.
#[verifier::external_body]
fn format_utc_instant(secs: i64, nanos: u32) -> (r: Option<String>)
    ensures
        opt_text(r) == utc_millis_text(secs, nanos),
        secs == 0 && nanos == 0 ==> r is Some,
{
    match Utc.timestamp_opt(secs, nanos).single() {
        Some(dt) => Some(dt.format("%Y-%m-%d %H:%M:%S%.3f").to_string()),
        None => None,
    }
}

/// The text `format_timestamp` shows for `ms` milliseconds after the epoch.
pub open spec fn timestamp_text(ms: u64) -> Seq<char> {
    let secs = (ms / 1000) as i64;
    let nanos = ((ms % 1000) * 1_000_000) as u32;
    match utc_millis_text(secs, nanos) {
        Some(t) => t,
        None => utc_millis_text(0, 0)->0,
    }
}

pub struct Utils;

impl Utils {
    /// The upper-case name of a level.
    pub fn level_name(level: LogLevel) -> (r: &'static str)
        ensures
            r@ == level_text(level),
    {
        level.as_str()
    }

    /// The colour a level is drawn in.
    pub fn level_color(level: LogLevel) -> (r: LevelColor)
        ensures
            r == (match level {
                LogLevel::FATAL => LevelColor::Red,
                LogLevel::ERROR => LevelColor::Magenta,
                LogLevel::WARN => LevelColor::Yellow,
                LogLevel::INFO => LevelColor::Green,
                LogLevel::DEBUG => LevelColor::Cyan,
                LogLevel::TRACE => LevelColor::Gray,
            }),
    {
        match level {
            LogLevel::FATAL => LevelColor::Red,
            LogLevel::ERROR => LevelColor::Magenta,
            LogLevel::WARN => LevelColor::Yellow,
            LogLevel::INFO => LevelColor::Green,
            LogLevel::DEBUG => LevelColor::Cyan,
            LogLevel::TRACE => LevelColor::Gray,
        }
    }

    /// `ms` milliseconds after the epoch as `YYYY-MM-DD HH:MM:SS.mmm` (UTC);
    /// an instant chrono cannot represent is shown as the epoch.
    pub fn format_timestamp(ms: u64) -> (r: String)
        ensures
            r@ == timestamp_text(ms),
    {
        let secs: i64 = (ms / 1000) as i64;
        let sub_ms: u32 = (ms % 1000) as u32;
        match format_utc_instant(secs, sub_ms * 1_000_000) {
            Some(t) => t,
            None => match format_utc_instant(0, 0) {
                Some(t) => t,
                None => String::new(),
            },
        }
    }

    /// A `YYYYMMDDHHMMSS` stamp as `YYYY-MM-DD HH:MM:SS`; a stamp that does
    /// not parse is shown as the epoch.
    pub fn format_timestamp_from_string(ts_str: &str) -> (r: String)
        ensures
            r@ == compact_stamp_text(ts_str@),
    {
        let f = match parse_compact_stamp(ts_str) {
            Some(f) => f,
            None => (1970i32, 1u32, 1u32, 0u32, 0u32, 0u32),
        };
        let mut s = String::new();
        push_signed_zero_padded(&mut s, f.0 as i64, 4);
        s.push('-');
        push_zero_padded(&mut s, f.1 as u64, 2);
        s.push('-');
        push_zero_padded(&mut s, f.2 as u64, 2);
        s.push(' ');
        push_zero_padded(&mut s, f.3 as u64, 2);
        s.push(':');
        push_zero_padded(&mut s, f.4 as u64, 2);
        s.push(':');
        push_zero_padded(&mut s, f.5 as u64, 2);
        assert(s@ =~= calendar_text(f));
        s
    }

    /// A byte count as `N bytes`, or with two decimals in KB, MB or GB
    /// (powers of 1024).
    pub fn format_size(size: u64) -> (r: String)
        ensures
            r@ == size_text(size as nat),
    {
        let kb: u64 = 1024;
        let mb: u64 = kb * 1024;
        let gb: u64 = mb * 1024;
        let mut s = String::new();
        if size >= gb {
            push_two_decimals(&mut s, f64_value_of(size), gb as u128);
            s.push(' ');
            s.push('G');
            s.push('B');
        } else if size >= mb {
            push_two_decimals(&mut s, f64_value_of(size), mb as u128);
            s.push(' ');
            s.push('M');
            s.push('B');
        } else if size >= kb {
            push_two_decimals(&mut s, f64_value_of(size), kb as u128);
            s.push(' ');
            s.push('K');
            s.push('B');
        } else {
            push_decimal(&mut s, size);
            s.push(' ');
            s.push('b');
            s.push('y');
            s.push('t');
            s.push('e');
            s.push('s');
        }
        assert(s@ =~= size_text(size as nat));
        s
    }
}

} // verus!
