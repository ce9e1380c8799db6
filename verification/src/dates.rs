//! Calendar dates as plain values: validity, the previous day, and the
//! `YYYY-MM-DD` text form.

use vstd::prelude::*;

verus! {

use vstd::string::StrSliceExecFns;

/// A calendar date.
#[derive(Clone, Copy, Debug, PartialEq, Eq, Structural)]
pub struct DateYmd {
    pub year: u32,
    pub month: u8,
    pub day: u8,
}

/// Gregorian leap year.
pub open spec fn is_leap(y: int) -> bool {
    y % 4 == 0 && (y % 100 != 0 || y % 400 == 0)
}

/// Days in a month.
pub open spec fn spec_days_in_month(y: int, m: int) -> int {
    if m == 2 {
        if is_leap(y) {
            29
        } else {
            28
        }
    } else if m == 4 || m == 6 || m == 9 || m == 11 {
        30
    } else {
        31
    }
}

/// A well-formed date (four-digit years only, so the text form is fixed
/// width).
pub open spec fn valid_date(d: DateYmd) -> bool {
    &&& 1 <= d.year <= 9999
    &&& 1 <= d.month <= 12
    &&& 1 <= d.day <= spec_days_in_month(d.year as int, d.month as int)
}

/// Days in a month.
pub fn days_in_month(y: u32, m: u8) -> (r: u8)
    ensures
        r as int == spec_days_in_month(y as int, m as int),
{
    if m == 2 {
        if (y % 4 == 0 && (y % 100 != 0 || y % 400 == 0)) {
            29
        } else {
            28
        }
    } else if m == 4 || m == 6 || m == 9 || m == 11 {
        30
    } else {
        31
    }
}

/// The previous calendar day.
pub open spec fn spec_pred_date(d: DateYmd) -> Option<DateYmd> {
    if d.day > 1 {
        Some(DateYmd { day: (d.day - 1) as u8, ..d })
    } else if d.month > 1 {
        Some(
            DateYmd {
                year: d.year,
                month: (d.month - 1) as u8,
                day: spec_days_in_month(d.year as int, d.month - 1) as u8,
            },
        )
    } else if d.year > 1 {
        Some(DateYmd { year: (d.year - 1) as u32, month: 12, day: 31 })
    } else {
        None
    }
}

/// Step one day back; validity is preserved.
pub fn pred_date(d: DateYmd) -> (r: Option<DateYmd>)
    requires
        valid_date(d),
    ensures
        r == spec_pred_date(d),
        r matches Some(p) ==> valid_date(p),
{
    if d.day > 1 {
        Some(DateYmd { year: d.year, month: d.month, day: d.day - 1 })
    } else if d.month > 1 {
        Some(DateYmd { year: d.year, month: d.month - 1, day: days_in_month(d.year, d.month - 1) })
    } else if d.year > 1 {
        Some(DateYmd { year: d.year - 1, month: 12, day: 31 })
    } else {
        None
    }
}

/// The digit character for a value below ten.
pub open spec fn dig(v: int) -> char {
    ((48 + v) as u8) as char
}

/// The `YYYY-MM-DD` text of a date.
pub open spec fn spec_format_date(d: DateYmd) -> Seq<char> {
    seq![
        dig(d.year as int / 1000),
        dig((d.year as int / 100) % 10),
        dig((d.year as int / 10) % 10),
        dig(d.year as int % 10),
        '-',
        dig(d.month as int / 10),
        dig(d.month as int % 10),
        '-',
        dig(d.day as int / 10),
        dig(d.day as int % 10),
    ]
}

/// Numeric value of a digit character, if it is one.
pub open spec fn char_digit(c: char) -> Option<int> {
    if 48 <= (c as u32) <= 57 {
        Some((c as u32) - 48)
    } else {
        None
    }
}

/// What parsing a `YYYY-MM-DD` text yields: the date it denotes, if the
/// shape and the calendar both agree.
pub open spec fn spec_parse_date(s: Seq<char>) -> Option<DateYmd> {
    if s.len() != 10 || s[4] != '-' || s[7] != '-' {
        None
    } else {
        match (
            char_digit(s[0]),
            char_digit(s[1]),
            char_digit(s[2]),
            char_digit(s[3]),
            char_digit(s[5]),
            char_digit(s[6]),
            char_digit(s[8]),
            char_digit(s[9]),
        ) {
            (
                Some(y1),
                Some(y2),
                Some(y3),
                Some(y4),
                Some(m1),
                Some(m2),
                Some(d1),
                Some(d2),
            ) => {
                let d = DateYmd {
                    year: (y1 * 1000 + y2 * 100 + y3 * 10 + y4) as u32,
                    month: (m1 * 10 + m2) as u8,
                    day: (d1 * 10 + d2) as u8,
                };
                if valid_date(d) {
                    Some(d)
                } else {
                    None
                }
            },
            _ => None,
        }
    }
}

/// Read one digit character.
fn digit_at(s: &str, i: usize) -> (r: Option<u32>)
    requires
        i < s@.len(),
    ensures
        match r {
            Some(v) => char_digit(s@[i as int]) == Some(v as int),
            None => char_digit(s@[i as int]) is None,
        },
{
    let c = s.get_char(i);
    let u = c as u32;
    if 48 <= u && u <= 57 {
        Some(u - 48)
    } else {
        None
    }
}

/// Parse a `YYYY-MM-DD` text.
pub fn parse_date(s: &str) -> (r: Option<DateYmd>)
    ensures
        r == spec_parse_date(s@),
{
    let n: usize = s.unicode_len();
    if n != 10 {
        return None;
    }
    if s.get_char(4) != '-' || s.get_char(7) != '-' {
        return None;
    }
    let y1 = match digit_at(s, 0) {
        Some(v) => v,
        None => {
            return None;
        },
    };
    let y2 = match digit_at(s, 1) {
        Some(v) => v,
        None => {
            return None;
        },
    };
    let y3 = match digit_at(s, 2) {
        Some(v) => v,
        None => {
            return None;
        },
    };
    let y4 = match digit_at(s, 3) {
        Some(v) => v,
        None => {
            return None;
        },
    };
    let m1 = match digit_at(s, 5) {
        Some(v) => v,
        None => {
            return None;
        },
    };
    let m2 = match digit_at(s, 6) {
        Some(v) => v,
        None => {
            return None;
        },
    };
    let d1 = match digit_at(s, 8) {
        Some(v) => v,
        None => {
            return None;
        },
    };
    let d2 = match digit_at(s, 9) {
        Some(v) => v,
        None => {
            return None;
        },
    };
    let d = DateYmd {
        year: y1 * 1000 + y2 * 100 + y3 * 10 + y4,
        month: (m1 * 10 + m2) as u8,
        day: (d1 * 10 + d2) as u8,
    };
    let ok = 1 <= d.year && 1 <= d.month && d.month <= 12 && 1 <= d.day && d.day <= days_in_month(
        d.year,
        d.month,
    );
    if ok {
        Some(d)
    } else {
        None
    }
}

/// Write a date as `YYYY-MM-DD`.
pub fn format_date(d: DateYmd) -> (r: String)
    requires
        valid_date(d),
    ensures
        r@ == spec_format_date(d),
{
    let mut out: Vec<u8> = Vec::new();
    out.push((48 + (d.year / 1000) % 10) as u8);
    out.push((48 + (d.year / 100) % 10) as u8);
    out.push((48 + (d.year / 10) % 10) as u8);
    out.push((48 + d.year % 10) as u8);
    out.push(45);
    out.push(48 + (d.month / 10) % 10);
    out.push(48 + d.month % 10);
    out.push(45);
    out.push(48 + (d.day / 10) % 10);
    out.push(48 + d.day % 10);
    let r = crate::strutil::string_from_ascii(out);
    proof {
        assert(('-' as u8) == 45);
        assert(r@ =~= spec_format_date(d));
    }
    r
}

} // verus!
