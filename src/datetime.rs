//! Timestamps in the protocol's `YYYY-MM-DDThh:mm:ss` form, followed by `Z`
//! or a `+hh:mm` / `-hh:mm` offset from UTC.
use vstd::prelude::*;
use crate::literal::{decimal_value, is_decimal};

verus! {

/// A calendar date and time of day, with its offset from UTC in minutes.
#[derive(Clone, Debug, PartialEq, Eq)]
pub struct DateTime {
    pub year: u16,
    pub month: u8,
    pub day: u8,
    pub hour: u8,
    pub minute: u8,
    pub second: u8,
    pub offset_minutes: i16,
}

/// The number held by the `n` digits at `i`, when they are all digits.
pub open spec fn digits_at(s: Seq<char>, i: int, n: int) -> Option<nat> {
    if 0 <= i && 0 < n && i + n <= s.len() && is_decimal(s.subrange(i, i + n)) {
        Some(decimal_value(s.subrange(i, i + n)))
    } else {
        None
    }
}

pub open spec fn is_leap_year(y: nat) -> bool {
    (y % 4 == 0 && y % 100 != 0) || y % 400 == 0
}

pub open spec fn days_in_month(y: nat, m: nat) -> nat {
    if m == 2 {
        if is_leap_year(y) {
            29
        } else {
            28
        }
    } else if m == 4 || m == 6 || m == 9 || m == 11 {
        30
    } else {
        31
    }
}

/// The offset in minutes that the text from position 19 on denotes.
pub open spec fn offset_value(s: Seq<char>) -> Option<int> {
    if s.len() == 20 && s[19] == 'Z' {
        Some(0)
    } else if s.len() == 25 && (s[19] == '+' || s[19] == '-') && s[22] == ':' {
        match (digits_at(s, 20, 2), digits_at(s, 23, 2)) {
            (Some(h), Some(m)) => if h <= 23 && m <= 59 {
                if s[19] == '+' {
                    Some((h * 60 + m) as int)
                } else {
                    Some(-(h * 60 + m))
                }
            } else {
                None
            },
            _ => None,
        }
    } else {
        None
    }
}

/// `d` is the timestamp that the text denotes.
pub open spec fn denotes(s: Seq<char>, d: DateTime) -> bool {
    &&& s.len() >= 20
    &&& s[4] == '-' && s[7] == '-' && s[10] == 'T' && s[13] == ':' && s[16] == ':'
    &&& digits_at(s, 0, 4) == Some(d.year as nat)
    &&& digits_at(s, 5, 2) == Some(d.month as nat)
    &&& digits_at(s, 8, 2) == Some(d.day as nat)
    &&& digits_at(s, 11, 2) == Some(d.hour as nat)
    &&& digits_at(s, 14, 2) == Some(d.minute as nat)
    &&& digits_at(s, 17, 2) == Some(d.second as nat)
    &&& 1 <= d.month <= 12
    &&& 1 <= d.day <= days_in_month(d.year as nat, d.month as nat)
    &&& d.hour <= 23 && d.minute <= 59 && d.second <= 59
    &&& offset_value(s) == Some(d.offset_minutes as int)
}

/// Whether some timestamp is denoted by the text.
pub open spec fn is_timestamp(s: Seq<char>) -> bool {
    exists|d: DateTime| denotes(s, d)
}

pub open spec fn pow10(n: nat) -> nat
    decreases n,
{
    if n == 0 {
        1
    } else {
        10 * pow10((n - 1) as nat)
    }
}

/// Reads the `n` digits at `i`.
fn read_digits(c: &Vec<char>, i: usize, n: usize) -> (r: Option<u16>)
    requires
        1 <= n <= 4,
        i + n <= c@.len(),
    ensures
        r matches Some(v) ==> digits_at(c@, i as int, n as int) == Some(v as nat),
        r is None ==> digits_at(c@, i as int, n as int) is None,
{
    let ghost s = c@.subrange(i as int, i + n);
    let len = c.len();
    let mut acc: u16 = 0;
    let mut k: usize = 0;
    while k < n
        invariant
            1 <= n <= 4,
            i + n <= c@.len(),
            len == c@.len(),
            s == c@.subrange(i as int, i + n),
            k <= n,
            forall|j: int| 0 <= j < k ==> crate::literal::is_digit(#[trigger] s[j]),
            acc as nat == decimal_value(s.subrange(0, k as int)),
            acc < pow10(k as nat),
        decreases n - k,
    {
        let x = c[i + k];
        assert(x == s[k as int]);
        if !('0' <= x && x <= '9') {
            return None;
        }
        let d = (x as u32 - '0' as u32) as u16;
        assert(s.subrange(0, k + 1).drop_last() == s.subrange(0, k as int));
        assert(pow10(k as nat + 1) == 10 * pow10(k as nat));
        assert(pow10(0) == 1 && pow10(1) == 10 && pow10(2) == 100 && pow10(3) == 1000) by {
            reveal_with_fuel(pow10, 4);
        }
        assert(pow10(k as nat) <= 1000);
        acc = acc * 10 + d;
        k = k + 1;
    }
    assert(s.subrange(0, n as int) == s);
    Some(acc)
}

fn days_of(y: u16, m: u8) -> (r: u8)
    ensures
        r as nat == days_in_month(y as nat, m as nat),
{
    if m == 2 {
        if (y % 4 == 0 && y % 100 != 0) || y % 400 == 0 {
            29
        } else {
            28
        }
    } else if m == 4 || m == 6 || m == 9 || m == 11 {
        30
    } else {
        31
    }
}

impl DateTime {
    /// Reads a timestamp; `None` when the text denotes none.
    pub fn parse(text: &str) -> (r: Option<DateTime>)
        ensures
            r matches Some(d) ==> denotes(text@, d),
            r is None ==> !is_timestamp(text@),
    {
        let c = crate::parser::chars_of(text);
        let n = c.len();
        if n < 20 || c[4] != '-' || c[7] != '-' || c[10] != 'T' || c[13] != ':' || c[16] != ':' {
            return None;
        }
        let year = match read_digits(&c, 0, 4) {
            Some(v) => v,
            None => return None,
        };
        let month = match read_digits(&c, 5, 2) {
            Some(v) => v,
            None => return None,
        };
        let day = match read_digits(&c, 8, 2) {
            Some(v) => v,
            None => return None,
        };
        let hour = match read_digits(&c, 11, 2) {
            Some(v) => v,
            None => return None,
        };
        let minute = match read_digits(&c, 14, 2) {
            Some(v) => v,
            None => return None,
        };
        let second = match read_digits(&c, 17, 2) {
            Some(v) => v,
            None => return None,
        };
        if month < 1 || month > 12 || hour > 23 || minute > 59 || second > 59 || day < 1 {
            return None;
        }
        if day > days_of(year, month as u8) as u16 {
            return None;
        }
        let offset: i16 = if n == 20 && c[19] == 'Z' {
            0
        } else if n == 25 && (c[19] == '+' || c[19] == '-') && c[22] == ':' {
            let oh = match read_digits(&c, 20, 2) {
                Some(v) => v,
                None => return None,
            };
            let om = match read_digits(&c, 23, 2) {
                Some(v) => v,
                None => return None,
            };
            if oh > 23 || om > 59 {
                return None;
            }
            let total = (oh * 60 + om) as i16;
            if c[19] == '+' {
                total
            } else {
                -total
            }
        } else {
            return None;
        };
        Some(DateTime {
            year,
            month: month as u8,
            day: day as u8,
            hour: hour as u8,
            minute: minute as u8,
            second: second as u8,
            offset_minutes: offset,
        })
    }
}

} // verus!
