//! The OFX timestamp decoder.
//!
//! OFX 1.02 writes a server time as 14 digits followed by a bracketed
//! time-zone note, e.g. `20250604000000[-3:BRT]`: the digits are local
//! year, month, day, hour, minute and second, and the part of the bracket
//! before the first colon is a signed whole-hour UTC offset (the zone
//! label after the colon is ignored).  The decoder turns such a value into
//! an [`OfxDateTime`], a plain date-time-with-fixed-offset record.

use vstd::prelude::*;
use vstd::string::StrSliceExecFns;
use vstd::string::StringExecFns;

use crate::text::all_digits;
use crate::text::digits_val;
use crate::text::find_from;
use crate::text::first_at;
use crate::text::int_of;
use crate::text::lemma_digits_val_bounds;
use crate::text::lemma_pow10_le;
use crate::text::parse_digits;
use crate::text::parse_i32;
use crate::text::pow10;

verus! {

/// A date and time with a fixed whole-hour UTC offset, the form in which
/// every OFX timestamp reaches the domain model.
#[derive(Clone, Copy, Debug, PartialEq, Eq, Structural, Hash)]
pub struct OfxDateTime {
    pub year: u32,
    pub month: u32,
    pub day: u32,
    pub hour: u32,
    pub minute: u32,
    pub second: u32,
    /// Signed UTC offset in whole hours, e.g. `-3` for `UTC-03:00`.
    pub offset_hours: i32,
}

pub open spec fn leap_year(y: int) -> bool {
    (y % 4 == 0 && y % 100 != 0) || y % 400 == 0
}

pub open spec fn days_in_month(y: int, m: int) -> int {
    if m == 2 {
        if leap_year(y) {
            29
        } else {
            28
        }
    } else if m == 4 || m == 6 || m == 9 || m == 11 {
        30
    } else {
        31
    }
}

impl OfxDateTime {
    /// A well-formed value: fields within calendar ranges (seconds may be
    /// 60 for a leap second) and the offset within a day's reach.
    pub open spec fn wf(self) -> bool {
        &&& self.year <= 9999
        &&& 1 <= self.month <= 12
        &&& 1 <= self.day <= days_in_month(self.year as int, self.month as int)
        &&& self.hour <= 23
        &&& self.minute <= 59
        &&& self.second <= 60
        &&& -23 <= self.offset_hours <= 23
    }

    /// The sentinel put in place of a timestamp that fails to decode:
    /// 1970-01-01 00:00:00 UTC.
    pub open spec fn spec_sentinel() -> OfxDateTime {
        OfxDateTime { year: 1970, month: 1, day: 1, hour: 0, minute: 0, second: 0, offset_hours: 0 }
    }

    pub fn sentinel() -> (r: OfxDateTime)
        ensures
            r == OfxDateTime::spec_sentinel(),
            r.wf(),
    {
        OfxDateTime { year: 1970, month: 1, day: 1, hour: 0, minute: 0, second: 0, offset_hours: 0 }
    }
}

impl Default for OfxDateTime {
    fn default() -> (r: Self)
        ensures
            r == OfxDateTime::spec_sentinel(),
    {
        OfxDateTime::sentinel()
    }
}

/// Why a timestamp failed to decode.
#[derive(Clone, Copy, Debug, PartialEq, Eq, Structural)]
pub enum DtError {
    /// No `[` in the value at all.
    NoBracket,
    /// The part of the bracket before the colon is not a signed integer.
    BadOffset,
    /// The digits are not a valid local date-time, or the offset is not a
    /// representable whole-hour UTC offset.
    BadDate,
}

pub open spec fn dt_error_message(e: DtError) -> Seq<char> {
    match e {
        DtError::NoBracket => "Invalid date format"@,
        DtError::BadOffset => "Unable to parse hour offset"@,
        DtError::BadDate => "Unable to parse processed date"@,
    }
}

/// Fourteen digits making a valid local date-time.
pub open spec fn valid_dt_digits(d: Seq<char>) -> bool {
    &&& d.len() == 14
    &&& all_digits(d)
    &&& 1 <= digits_val(d.subrange(4, 6)) <= 12
    &&& 1 <= digits_val(d.subrange(6, 8)) <= days_in_month(
        digits_val(d.subrange(0, 4)),
        digits_val(d.subrange(4, 6)),
    )
    &&& digits_val(d.subrange(8, 10)) <= 23
    &&& digits_val(d.subrange(10, 12)) <= 59
    &&& digits_val(d.subrange(12, 14)) <= 60
}

/// The date-time denoted by 14 valid digits and a whole-hour offset.
pub open spec fn dt_of(d: Seq<char>, off: int) -> OfxDateTime {
    OfxDateTime {
        year: digits_val(d.subrange(0, 4)) as u32,
        month: digits_val(d.subrange(4, 6)) as u32,
        day: digits_val(d.subrange(6, 8)) as u32,
        hour: digits_val(d.subrange(8, 10)) as u32,
        minute: digits_val(d.subrange(10, 12)) as u32,
        second: digits_val(d.subrange(12, 14)) as u32,
        offset_hours: off as i32,
    }
}

/// The whole decoding rule for an OFX timestamp, step by step: find the
/// bracket, split, read the signed hour offset before the first colon of
/// the bracket's payload, then read the 14 digits.
pub open spec fn spec_parse_datetime(s: Seq<char>) -> Result<OfxDateTime, DtError> {
    let b = first_at(s, '[', 0);
    if b == s.len() {
        Err(DtError::NoBracket)
    } else {
        let dpart = s.subrange(0, b);
        let tz_end = if s.len() - 1 >= b + 1 {
            s.len() - 1
        } else {
            b + 1
        };
        let payload = s.subrange(b + 1, tz_end);
        let ce = first_at(payload, ':', 0);
        let hstr = payload.subrange(0, ce);
        match int_of(hstr) {
            None => Err(DtError::BadOffset),
            Some(h) => if h < i32::MIN || h > i32::MAX {
                Err(DtError::BadOffset)
            } else if !(-23 <= h <= 23) {
                Err(DtError::BadDate)
            } else if !valid_dt_digits(dpart) {
                Err(DtError::BadDate)
            } else {
                Ok(dt_of(dpart, h))
            },
        }
    }
}

fn days_in_month_exec(y: u32, m: u32) -> (r: u32)
    requires
        1 <= m <= 12,
    ensures
        r == days_in_month(y as int, m as int),
{
    if m == 2 {
        if (y % 4 == 0 && y % 100 != 0) || y % 400 == 0 {
            29
        } else {
            28
        }
    } else if m == 4 || m == 6 || m == 9 || m == 11 {
        30
    } else {
        31
    }
}

/// Decodes an OFX timestamp such as `20250604000000[-3:BRT]`.  On failure
/// the error text names the step that failed, as given by
/// [`dt_error_message`].
pub fn parse_custom_datetime(s: &str) -> (r: Result<OfxDateTime, String>)
    ensures
        ({
            let sp = spec_parse_datetime(s@);
            match r {
                Ok(dt) => sp == Ok::<OfxDateTime, DtError>(dt) && dt.wf(),
                Err(m) => sp is Err && m@ == dt_error_message(sp->Err_0),
            }
        }),
{
    let len = s.unicode_len();
    let b = find_from(s, '[', 0);
    proof {
        crate::text::lemma_first_at(s@, '[', 0);
    }
    if b == len {
        return Err(String::from_str("Invalid date format"));
    }
    let tz_end = if len - 1 >= b + 1 {
        len - 1
    } else {
        b + 1
    };
    let payload = s.substring_char(b + 1, tz_end);
    let ce = find_from(payload, ':', 0);
    proof {
        crate::text::lemma_first_at(payload@, ':', 0);
    }
    let hstr = payload.substring_char(0, ce);
    let h = match parse_i32(hstr) {
        None => {
            return Err(String::from_str("Unable to parse hour offset"));
        },
        Some(h) => h,
    };
    if h < -23 || h > 23 {
        return Err(String::from_str("Unable to parse processed date"));
    }
    if b != 14 {
        return Err(String::from_str("Unable to parse processed date"));
    }
    let ghost dpart = s@.subrange(0, b as int);
    proof {
        lemma_pow10_le(2, 4);
        assert(pow10(2) == 100 && pow10(4) == 10000) by {
            reveal_with_fuel(pow10, 5);
        }
    }
    let year = match parse_digits(s, 0, 4) {
        Some(v) => v,
        None => {
            proof {
                lemma_subrange_digits(s@, dpart, 0, 4);
            }
            return Err(String::from_str("Unable to parse processed date"));
        },
    };
    let month = match parse_digits(s, 4, 6) {
        Some(v) => v,
        None => {
            proof {
                lemma_subrange_digits(s@, dpart, 4, 6);
            }
            return Err(String::from_str("Unable to parse processed date"));
        },
    };
    let day = match parse_digits(s, 6, 8) {
        Some(v) => v,
        None => {
            proof {
                lemma_subrange_digits(s@, dpart, 6, 8);
            }
            return Err(String::from_str("Unable to parse processed date"));
        },
    };
    let hour = match parse_digits(s, 8, 10) {
        Some(v) => v,
        None => {
            proof {
                lemma_subrange_digits(s@, dpart, 8, 10);
            }
            return Err(String::from_str("Unable to parse processed date"));
        },
    };
    let minute = match parse_digits(s, 10, 12) {
        Some(v) => v,
        None => {
            proof {
                lemma_subrange_digits(s@, dpart, 10, 12);
            }
            return Err(String::from_str("Unable to parse processed date"));
        },
    };
    let second = match parse_digits(s, 12, 14) {
        Some(v) => v,
        None => {
            proof {
                lemma_subrange_digits(s@, dpart, 12, 14);
            }
            return Err(String::from_str("Unable to parse processed date"));
        },
    };
    proof {
        assert(dpart.subrange(0, 4) =~= s@.subrange(0, 4));
        assert(dpart.subrange(4, 6) =~= s@.subrange(4, 6));
        assert(dpart.subrange(6, 8) =~= s@.subrange(6, 8));
        assert(dpart.subrange(8, 10) =~= s@.subrange(8, 10));
        assert(dpart.subrange(10, 12) =~= s@.subrange(10, 12));
        assert(dpart.subrange(12, 14) =~= s@.subrange(12, 14));
        lemma_digits_val_bounds(s@.subrange(0, 4));
        lemma_digits_val_bounds(s@.subrange(4, 6));
        lemma_digits_val_bounds(s@.subrange(6, 8));
        lemma_digits_val_bounds(s@.subrange(8, 10));
        lemma_digits_val_bounds(s@.subrange(10, 12));
        lemma_digits_val_bounds(s@.subrange(12, 14));
    }
    if month < 1 || month > 12 {
        return Err(String::from_str("Unable to parse processed date"));
    }
    if day < 1 || day > days_in_month_exec(year, month) {
        return Err(String::from_str("Unable to parse processed date"));
    }
    if hour > 23 || minute > 59 || second > 60 {
        return Err(String::from_str("Unable to parse processed date"));
    }
    proof {
        assert(all_digits(dpart)) by {
            assert(forall|i: int| 0 <= i < 4 ==> dpart[i] == dpart.subrange(0, 4)[i]);
            assert(forall|i: int| 4 <= i < 6 ==> dpart[i] == dpart.subrange(4, 6)[i - 4]);
            assert(forall|i: int| 6 <= i < 8 ==> dpart[i] == dpart.subrange(6, 8)[i - 6]);
            assert(forall|i: int| 8 <= i < 10 ==> dpart[i] == dpart.subrange(8, 10)[i - 8]);
            assert(forall|i: int| 10 <= i < 12 ==> dpart[i] == dpart.subrange(10, 12)[i - 10]);
            assert(forall|i: int| 12 <= i < 14 ==> dpart[i] == dpart.subrange(12, 14)[i - 12]);
        }
        assert(valid_dt_digits(dpart));
    }
    Ok(
        OfxDateTime {
            year,
            month,
            day,
            hour,
            minute,
            second,
            offset_hours: h,
        },
    )
}

/// Round trip of the timestamp decoder: write any valid 14-digit local
/// date-time, any signed whole-hour offset in the representable range and
/// any zone label into the OFX notation `DIGITS[OFFSET:LABEL]`, and the
/// decoder hands back exactly that date-time: the local fields equal the
/// digits and the UTC offset equals the written hour offset.
pub proof fn lemma_datetime_round_trip(d: Seq<char>, hs: Seq<char>, h: int, label: Seq<char>)
    requires
        valid_dt_digits(d),
        int_of(hs) == Some(h),
        -23 <= h <= 23,
    ensures
        ({
            let s = d + seq!['['] + hs + seq![':'] + label + seq![']'];
            &&& spec_parse_datetime(s) == Ok::<OfxDateTime, DtError>(dt_of(d, h))
            &&& dt_of(d, h).offset_hours == h
            &&& dt_of(d, h).year == digits_val(d.subrange(0, 4))
            &&& dt_of(d, h).month == digits_val(d.subrange(4, 6))
            &&& dt_of(d, h).day == digits_val(d.subrange(6, 8))
            &&& dt_of(d, h).hour == digits_val(d.subrange(8, 10))
            &&& dt_of(d, h).minute == digits_val(d.subrange(10, 12))
            &&& dt_of(d, h).second == digits_val(d.subrange(12, 14))
        }),
{
    let s = d + seq!['['] + hs + seq![':'] + label + seq![']'];
    assert(hs.len() >= 1);
    assert(s[14] == '[');
    assert(forall|j: int| 0 <= j < 14 ==> crate::text::is_digit(#[trigger] s[j])) by {
        assert(forall|j: int| 0 <= j < 14 ==> s[j] == d[j]);
    }
    assert(forall|j: int| 0 <= j < 14 ==> (#[trigger] s[j]) != '[');
    crate::text::lemma_first_at_is(s, '[', 0, 14);
    let b = first_at(s, '[', 0);
    assert(b == 14);
    let payload = s.subrange(15, s.len() - 1);
    assert(payload =~= hs + seq![':'] + label);
    crate::text::lemma_int_of_chars(hs);
    assert(forall|j: int| 0 <= j < hs.len() ==> (#[trigger] payload[j]) == hs[j]);
    assert(forall|j: int| 0 <= j < hs.len() ==> (#[trigger] payload[j]) != ':');
    assert(payload[hs.len() as int] == ':');
    crate::text::lemma_first_at_is(payload, ':', 0, hs.len() as int);
    assert(payload.subrange(0, hs.len() as int) =~= hs);
    assert(s.subrange(0, 14) =~= d);
    lemma_digits_val_bounds(d.subrange(0, 4));
    lemma_digits_val_bounds(d.subrange(4, 6));
    lemma_digits_val_bounds(d.subrange(6, 8));
    lemma_digits_val_bounds(d.subrange(8, 10));
    lemma_digits_val_bounds(d.subrange(10, 12));
    lemma_digits_val_bounds(d.subrange(12, 14));
    assert(pow10(4) == 10000 && pow10(2) == 100) by {
        reveal_with_fuel(pow10, 5);
    }
}

/// A non-digit inside a sub-field means the 14-digit part as a whole is
/// not all digits.
proof fn lemma_subrange_digits(s: Seq<char>, dpart: Seq<char>, from: int, to: int)
    requires
        dpart == s.subrange(0, 14),
        s.len() >= 14,
        0 <= from <= to <= 14,
        !all_digits(s.subrange(from, to)),
    ensures
        !all_digits(dpart),
{
    let sub = s.subrange(from, to);
    assert(exists|i: int| 0 <= i < sub.len() && !crate::text::is_digit(sub[i]));
    let i = choose|i: int| 0 <= i < sub.len() && !crate::text::is_digit(sub[i]);
    assert(dpart[from + i] == sub[i]);
}

} // verus!
