//! Date-time normalization.
//!
//! QFX spells a date-time in several ways: fourteen digits
//! (`YYYYMMDDHHMMSS`), optionally with a `T` between the date and the time,
//! optionally with fractional seconds after a dot, optionally followed by a
//! literal `Z`, optionally followed by a bracketed timezone annotation such
//! as `[+7:PDT]`.  The annotation and the `Z` are deliberately discarded —
//! every instant is interpreted as already being UTC — and all spellings
//! normalize to one calendar-checked UTC value with millisecond resolution.
//! A bare date without a time of day is rejected.

use vstd::prelude::*;
use crate::errors::ErrorView;
use crate::errors::QFXParsingError;
use crate::errors::concat2;
use crate::digits::all_digits;
use crate::digits::check_digits;
use crate::digits::digits_val;
use crate::digits::lemma_digits_val_bounds;
use crate::digits::pow10;
use crate::digits::read_digits_u32;
use crate::tokenizer::remove_last_bracketed;
use crate::tokenizer::spec_remove_last_bracketed;

verus! {

/// A UTC instant with millisecond resolution, stored as its calendar fields.
#[derive(Clone, Copy, Debug, PartialEq, Eq, Structural)]
pub struct UtcDateTime {
    pub year: u16,
    pub month: u8,
    pub day: u8,
    pub hour: u8,
    pub minute: u8,
    pub second: u8,
    pub millisecond: u16,
}

/// Leap years of the proleptic Gregorian calendar.
pub open spec fn is_leap_year(y: int) -> bool {
    y % 4 == 0 && (y % 100 != 0 || y % 400 == 0)
}

/// Number of days of month `m` of year `y`.
pub open spec fn days_in_month(y: int, m: int) -> int {
    if m == 2 {
        if is_leap_year(y) {
            29
        } else {
            28
        }
    } else if m == 4 || m == 6 || m == 9 || m == 11 {
        30
    } else {
        31
    }
}

fn days_in_month_exec(y: u16, m: u8) -> (r: u8)
    ensures
        r == days_in_month(y as int, m as int),
{
    if m == 2 {
        if y % 4 == 0 && (y % 100 != 0 || y % 400 == 0) {
            29
        } else {
            28
        }
    } else if m == 4 || m == 6 || m == 9 || m == 11 {
        30
    } else {
        31
    }
}

impl UtcDateTime {
    /// The fields describe a real calendar instant.
    pub open spec fn wf(self) -> bool {
        &&& 1 <= self.month <= 12
        &&& 1 <= self.day <= days_in_month(self.year as int, self.month as int)
        &&& self.hour <= 23
        &&& self.minute <= 59
        &&& self.second <= 59
        &&& self.millisecond <= 999
    }

    /// Builds a calendar-checked instant with whole-second resolution.
    pub fn from_ymd_hms(year: u16, month: u8, day: u8, hour: u8, minute: u8, second: u8) -> (r:
        Option<UtcDateTime>)
        ensures
            ({
                let dt = UtcDateTime { year, month, day, hour, minute, second, millisecond: 0 };
                r == if dt.wf() {
                    Some(dt)
                } else {
                    None::<UtcDateTime>
                }
            }),
    {
        UtcDateTime::from_ymd_hms_milli(year, month, day, hour, minute, second, 0)
    }

    /// Builds a calendar-checked instant with millisecond resolution.
    pub fn from_ymd_hms_milli(
        year: u16,
        month: u8,
        day: u8,
        hour: u8,
        minute: u8,
        second: u8,
        millisecond: u16,
    ) -> (r: Option<UtcDateTime>)
        ensures
            ({
                let dt = UtcDateTime { year, month, day, hour, minute, second, millisecond };
                r == if dt.wf() {
                    Some(dt)
                } else {
                    None::<UtcDateTime>
                }
            }),
    {
        if month < 1 || month > 12 {
            return None;
        }
        if day < 1 || day > days_in_month_exec(year, month) {
            return None;
        }
        if hour > 23 || minute > 59 || second > 59 || millisecond > 999 {
            return None;
        }
        Some(UtcDateTime { year, month, day, hour, minute, second, millisecond })
    }
}

/// `s` with one trailing `Z` removed, when it has one.
pub open spec fn spec_strip_z(s: Seq<char>) -> Seq<char> {
    if s.len() > 0 && s[s.len() - 1] == 'Z' {
        s.subrange(0, s.len() - 1)
    } else {
        s
    }
}

/// The instant written by a date-time body (annotation and `Z` already
/// stripped): eight date digits, an optional `T`, six time digits, and an
/// optional dot followed by one to nine fractional-second digits, of which
/// the first three (filled with zeroes on the right) give the millisecond.
/// `None` when the shape or the calendar check fails.
pub open spec fn spec_parse_dt_body(s: Seq<char>) -> Option<UtcDateTime> {
    let t0: int = if s.len() > 8 && s[8] == 'T' {
        9
    } else {
        8
    };
    let fs = t0 + 7;
    if s.len() < t0 + 6 {
        None
    } else if !all_digits(s, 0, 8) || !all_digits(s, t0, t0 + 6) {
        None
    } else if s.len() > t0 + 6 && (s[t0 + 6] != '.' || s.len() < fs + 1 || s.len() > fs + 9
        || !all_digits(s, fs, s.len() as int)) {
        None
    } else {
        let fl: int = if s.len() > t0 + 6 {
            s.len() - fs
        } else {
            0
        };
        let m: int = if fl >= 3 {
            3
        } else {
            fl
        };
        let dt = UtcDateTime {
            year: digits_val(s, 0, 4) as u16,
            month: digits_val(s, 4, 6) as u8,
            day: digits_val(s, 6, 8) as u8,
            hour: digits_val(s, t0, t0 + 2) as u8,
            minute: digits_val(s, t0 + 2, t0 + 4) as u8,
            second: digits_val(s, t0 + 4, t0 + 6) as u8,
            millisecond: (digits_val(s, fs, fs + m) * pow10(3 - m)) as u16,
        };
        if dt.wf() {
            Some(dt)
        } else {
            None
        }
    }
}

/// The UTC instant a raw date-time token normalizes to: a trailing bracketed
/// annotation and a trailing `Z` are discarded, then the body must match one
/// of the accepted digit patterns and name a real calendar instant.
pub open spec fn spec_parse_ofx_datetime(s: Seq<char>) -> Option<UtcDateTime> {
    spec_parse_dt_body(spec_strip_z(spec_remove_last_bracketed(s)))
}

/// Normalizes a raw date-time token, or reports that no accepted pattern
/// matches.
pub(crate) fn try_parse_ofx_datetime(s: &str) -> (r: Option<UtcDateTime>)
    ensures
        r == spec_parse_ofx_datetime(s@),
{
    let stripped = remove_last_bracketed(s);
    let n0 = stripped.unicode_len();
    let body: &str = if n0 > 0 && stripped.get_char(n0 - 1) == 'Z' {
        stripped.substring_char(0, n0 - 1)
    } else {
        stripped
    };
    proof {
        assert(body@ == spec_strip_z(spec_remove_last_bracketed(s@)));
    }
    let n = body.unicode_len();
    let t0: usize = if n > 8 && body.get_char(8) == 'T' {
        9
    } else {
        8
    };
    if n < t0 + 6 {
        return None;
    }
    if !check_digits(body, 0, 8) {
        return None;
    }
    if !check_digits(body, t0, t0 + 6) {
        return None;
    }
    let fs = t0 + 7;
    let mut ms: u16 = 0;
    if n > t0 + 6 {
        if body.get_char(t0 + 6) != '.' {
            return None;
        }
        if n < fs + 1 || n > fs + 9 {
            return None;
        }
        if !check_digits(body, fs, n) {
            return None;
        }
        let fl = n - fs;
        let m: usize = if fl >= 3 {
            3
        } else {
            fl
        };
        let v = read_digits_u32(body, fs, fs + m);
        proof {
            reveal_with_fuel(pow10, 6);
        }
        ms = if m == 1 {
            (v * 100) as u16
        } else if m == 2 {
            (v * 10) as u16
        } else {
            v as u16
        };
        proof {
            assert(ms == digits_val(body@, fs as int, fs + m) * pow10(3 - m));
        }
    }
    proof {
        reveal_with_fuel(pow10, 6);
        lemma_digits_val_bounds(body@, 0, 4);
        lemma_digits_val_bounds(body@, 4, 6);
        lemma_digits_val_bounds(body@, 6, 8);
        lemma_digits_val_bounds(body@, t0 as int, t0 + 2);
        lemma_digits_val_bounds(body@, t0 + 2, t0 + 4);
        lemma_digits_val_bounds(body@, t0 + 4, t0 + 6);
    }
    let year = read_digits_u32(body, 0, 4) as u16;
    let month = read_digits_u32(body, 4, 6) as u8;
    let day = read_digits_u32(body, 6, 8) as u8;
    let hour = read_digits_u32(body, t0, t0 + 2) as u8;
    let minute = read_digits_u32(body, t0 + 2, t0 + 4) as u8;
    let second = read_digits_u32(body, t0 + 4, t0 + 6) as u8;
    let dt = UtcDateTime { year, month, day, hour, minute, second, millisecond: ms };
    if month < 1 || month > 12 {
        return None;
    }
    if day < 1 || day > days_in_month_exec(year, month) {
        return None;
    }
    if hour > 23 || minute > 59 || second > 59 {
        return None;
    }
    Some(dt)
}

/// Parses a date-time token in any of the accepted spellings, for example
/// `20250725143000[+7:PDT]`, `20250725T143000[+7:PDT]`, `20250725T143000Z`
/// or `20250725143000`, into a UTC instant.
pub fn parse_ofx_datetime(s: &str) -> (r: Result<UtcDateTime, QFXParsingError>)
    ensures
        match r {
            Ok(dt) => spec_parse_ofx_datetime(s@) == Some(dt),
            Err(e) => spec_parse_ofx_datetime(s@) is None && e@ == ErrorView::UnexpectedDateFormat(
                "Could not parse the datetime value "@ + s@,
            ),
        },
{
    match try_parse_ofx_datetime(s) {
        Some(dt) => Ok(dt),
        None => Err(
            QFXParsingError::UnexpectedDateFormat(concat2("Could not parse the datetime value ", s)),
        ),
    }
}

} // verus!
