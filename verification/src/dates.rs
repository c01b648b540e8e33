//! Calendar-string validation and rendering, with no calendar library
//! behind it: record timestamps arrive as text and are checked and cut
//! here.

use vstd::prelude::*;

use crate::strutil::{dec_spec, is_digit_char, push_decimal};

verus! {

/// Whether a year has the leap day.
pub open spec fn is_leap_year(y: int) -> bool {
    y % 4 == 0 && (y % 100 != 0 || y % 400 == 0)
}

/// The days a month of a year has.
pub open spec fn days_in_month(y: int, m: int) -> int {
    if m == 2 {
        if is_leap_year(y) {
            29
        } else {
            28
        }
    } else if m == 4 || m == 6 || m == 9 || m == 11 {
        30
    } else {
        31
    }
}

/// The value of two digit characters read as a number.
pub open spec fn two_digit(s: Seq<char>, i: int) -> int {
    (s[i] as u32 - 48) * 10 + (s[i + 1] as u32 - 48)
}

/// A timestamp of the shape `YYYY-MM-DDTHH:MM:SS`, an optional fraction,
/// and `Z` or a signed `HH:MM` offset, with every field in range.
pub open spec fn is_rfc3339(s: Seq<char>) -> bool {
    &&& s.len() >= 20
    &&& (forall|i: int|
        #![trigger s[i]]
        (0 <= i < 4 || i == 5 || i == 6 || i == 8 || i == 9 || i == 11 || i == 12 || i == 14
            || i == 15 || i == 17 || i == 18) ==> is_digit_char(s[i]))
    &&& s[4] == '-'
    &&& s[7] == '-'
    &&& s[10] == 'T'
    &&& s[13] == ':'
    &&& s[16] == ':'
    &&& 1 <= two_digit(s, 5) <= 12
    &&& 1 <= two_digit(s, 8) <= days_in_month(
        (s[0] as u32 - 48) * 1000 + (s[1] as u32 - 48) * 100 + (s[2] as u32 - 48) * 10 + (
        s[3] as u32 - 48),
        two_digit(s, 5),
    )
    &&& two_digit(s, 11) <= 23
    &&& two_digit(s, 14) <= 59
    &&& two_digit(s, 17) <= 59
    &&& rfc3339_tail_ok(s.skip(19))
}

/// The fraction-and-offset tail after the seconds: an optional `.digits`
/// run, then `Z` or `+HH:MM` or `-HH:MM`.
pub open spec fn rfc3339_tail_ok(t: Seq<char>) -> bool {
    if t.len() == 0 {
        false
    } else if t[0] == '.' {
        let k = crate::jep::digit_prefix_len(t.skip(1));
        k >= 1 && rfc3339_offset_ok(t.skip(1 + k))
    } else {
        rfc3339_offset_ok(t)
    }
}

/// A `Z` alone, or a sign with an in-range `HH:MM`.
pub open spec fn rfc3339_offset_ok(t: Seq<char>) -> bool {
    if t.len() == 1 {
        t[0] == 'Z'
    } else if t.len() == 6 {
        &&& (t[0] == '+' || t[0] == '-')
        &&& is_digit_char(t[1]) && is_digit_char(t[2]) && is_digit_char(t[4]) && is_digit_char(
            t[5],
        )
        &&& t[3] == ':'
        &&& (t[1] as u32 - 48) * 10 + (t[2] as u32 - 48) <= 23
        &&& (t[4] as u32 - 48) * 10 + (t[5] as u32 - 48) <= 59
    } else {
        false
    }
}

/// Reads the value of the two digits at `i`.
fn read_two_digit(s: &str, i: usize) -> (r: u32)
    requires
        i <= 17,
        i + 1 < s@.len(),
        is_digit_char(s@[i as int]),
        is_digit_char(s@[i as int + 1]),
    ensures
        r == two_digit(s@, i as int),
        r <= 99,
{
    (s.get_char(i) as u32 - 48) * 10 + (s.get_char(i + 1) as u32 - 48)
}

/// Checks a timestamp for the dated shape above and hands back its date,
/// the first ten characters.
pub fn rfc3339_date_prefix(s: &str) -> (r: Option<String>)
    ensures
        match r {
            Some(d) => is_rfc3339(s@) && d@ == s@.take(10),
            None => !is_rfc3339(s@),
        },
{
    let len = s.unicode_len();
    if len < 20 {
        return None;
    }
    let mut i: usize = 0;
    while i < 19
        invariant
            len == s@.len(),
            len >= 20,
            i <= 19,
            forall|j: int|
                #![trigger s@[j]]
                0 <= j < i ==> (if j == 4 || j == 7 {
                    s@[j] == '-'
                } else if j == 10 {
                    s@[j] == 'T'
                } else if j == 13 || j == 16 {
                    s@[j] == ':'
                } else {
                    is_digit_char(s@[j])
                }),
        decreases 19 - i,
    {
        let c = s.get_char(i);
        let ok = if i == 4 || i == 7 {
            c == '-'
        } else if i == 10 {
            c == 'T'
        } else if i == 13 || i == 16 {
            c == ':'
        } else {
            let u = c as u32;
            48 <= u && u <= 57
        };
        if !ok {
            return None;
        }
        i += 1;
    }
    let year = (s.get_char(0) as u32 - 48) * 1000 + (s.get_char(1) as u32 - 48) * 100 + (
    s.get_char(2) as u32 - 48) * 10 + (s.get_char(3) as u32 - 48);
    let month = read_two_digit(s, 5);
    let day = read_two_digit(s, 8);
    let hour = read_two_digit(s, 11);
    let minute = read_two_digit(s, 14);
    let second = read_two_digit(s, 17);
    if month < 1 || month > 12 {
        return None;
    }
    let dim: u32 = if month == 2 {
        if year % 4 == 0 && (year % 100 != 0 || year % 400 == 0) {
            29
        } else {
            28
        }
    } else if month == 4 || month == 6 || month == 9 || month == 11 {
        30
    } else {
        31
    };
    if day < 1 || day > dim || hour > 23 || minute > 59 || second > 59 {
        return None;
    }
    let tail = s.substring_char(19, len);
    proof {
        assert(tail@ == s@.skip(19));
    }
    if !rfc3339_tail_check(tail) {
        return None;
    }
    Some(s.substring_char(0, 10).to_owned())
}

/// Checks the fraction-and-offset tail.
fn rfc3339_tail_check(t: &str) -> (r: bool)
    ensures
        r == rfc3339_tail_ok(t@),
{
    let len = t.unicode_len();
    if len == 0 {
        return false;
    }
    if t.get_char(0) == '.' {
        let mut k: usize = 1;
        while k < len && crate::strutil::digit_at(t, k)
            invariant
                len == t@.len(),
                1 <= k <= len,
                forall|j: int| 1 <= j < k ==> is_digit_char(t@[j]),
            decreases len - k,
        {
            k += 1;
        }
        proof {
            let u = t@.skip(1);
            assert forall|j: int| 0 <= j < k - 1 implies is_digit_char(u[j]) by {
                assert(u[j] == t@[j + 1]);
            }
            if k < len {
                assert(u[k - 1] == t@[k as int]);
            }
            crate::jep::lemma_digit_prefix_at(u, k - 1);
        }
        if k < 2 {
            return false;
        }
        let off = t.substring_char(k, len);
        proof {
            assert(off@ == t@.skip(1).skip(k - 1));
            assert(t@.skip(1).skip(k - 1) =~= t@.skip(k as int));
            assert(off@ =~= t@.skip(1 + (k - 1)));
        }
        rfc3339_offset_check(off)
    } else {
        rfc3339_offset_check(t)
    }
}


/// Checks the offset: `Z` or a signed `HH:MM`.
fn rfc3339_offset_check(t: &str) -> (r: bool)
    ensures
        r == rfc3339_offset_ok(t@),
{
    let len = t.unicode_len();
    if len == 1 {
        t.get_char(0) == 'Z'
    } else if len == 6 {
        let sign = t.get_char(0);
        if !(sign == '+' || sign == '-') {
            return false;
        }
        let c1 = t.get_char(1) as u32;
        let c2 = t.get_char(2) as u32;
        let c4 = t.get_char(4) as u32;
        let c5 = t.get_char(5) as u32;
        if !(48 <= c1 && c1 <= 57 && 48 <= c2 && c2 <= 57 && 48 <= c4 && c4 <= 57 && 48 <= c5
            && c5 <= 57) {
            return false;
        }
        if t.get_char(3) != ':' {
            return false;
        }
        (c1 - 48) * 10 + (c2 - 48) <= 23 && (c4 - 48) * 10 + (c5 - 48) <= 59
    } else {
        false
    }
}

/// The English name of a month.
pub open spec fn month_name(m: int) -> Seq<char> {
    if m == 1 {
        "January"@
    } else if m == 2 {
        "February"@
    } else if m == 3 {
        "March"@
    } else if m == 4 {
        "April"@
    } else if m == 5 {
        "May"@
    } else if m == 6 {
        "June"@
    } else if m == 7 {
        "July"@
    } else if m == 8 {
        "August"@
    } else if m == 9 {
        "September"@
    } else if m == 10 {
        "October"@
    } else if m == 11 {
        "November"@
    } else {
        "December"@
    }
}

/// A number padded with zeros to two digits.
pub open spec fn pad2(n: int) -> Seq<char> {
    if n < 10 {
        "0"@ + dec_spec(n)
    } else {
        dec_spec(n)
    }
}

/// A number padded with zeros to four digits.
pub open spec fn pad4(n: int) -> Seq<char> {
    if n < 10 {
        "000"@ + dec_spec(n)
    } else if n < 100 {
        "00"@ + dec_spec(n)
    } else if n < 1000 {
        "0"@ + dec_spec(n)
    } else {
        dec_spec(n)
    }
}

/// The year a well-formed timestamp opens with.
pub open spec fn year_of(s: Seq<char>) -> int {
    (s[0] as u32 - 48) * 1000 + (s[1] as u32 - 48) * 100 + (s[2] as u32 - 48) * 10 + (s[3] as u32
        - 48)
}

/// A well-formed timestamp's date written as `Month DD, YYYY`.
pub open spec fn month_day_year_spec(s: Seq<char>) -> Seq<char> {
    month_name(two_digit(s, 5)) + " "@ + pad2(two_digit(s, 8)) + ", "@ + pad4(year_of(s))
}

/// Appends the name of the month.
fn push_month_name(out: &mut String, m: u32)
    ensures
        final(out)@ == old(out)@ + month_name(m as int),
{
    if m == 1 {
        out.append("January");
    } else if m == 2 {
        out.append("February");
    } else if m == 3 {
        out.append("March");
    } else if m == 4 {
        out.append("April");
    } else if m == 5 {
        out.append("May");
    } else if m == 6 {
        out.append("June");
    } else if m == 7 {
        out.append("July");
    } else if m == 8 {
        out.append("August");
    } else if m == 9 {
        out.append("September");
    } else if m == 10 {
        out.append("October");
    } else if m == 11 {
        out.append("November");
    } else {
        out.append("December");
    }
}

/// Appends a number padded with zeros to two digits.
fn push_pad2(out: &mut String, n: u32)
    ensures
        final(out)@ == old(out)@ + pad2(n as int),
{
    if n < 10 {
        out.append("0");
    }
    push_decimal(out, n as u64);
    proof {
        if n < 10 {
            crate::strutil::lemma_cat2(old(out)@, "0"@, dec_spec(n as int));
        }
    }
}

/// Appends a number padded with zeros to four digits.
fn push_pad4(out: &mut String, n: u32)
    ensures
        final(out)@ == old(out)@ + pad4(n as int),
{
    if n < 10 {
        out.append("000");
        push_decimal(out, n as u64);
        proof {
            crate::strutil::lemma_cat2(old(out)@, "000"@, dec_spec(n as int));
        }
    } else if n < 100 {
        out.append("00");
        push_decimal(out, n as u64);
        proof {
            crate::strutil::lemma_cat2(old(out)@, "00"@, dec_spec(n as int));
        }
    } else if n < 1000 {
        out.append("0");
        push_decimal(out, n as u64);
        proof {
            crate::strutil::lemma_cat2(old(out)@, "0"@, dec_spec(n as int));
        }
    } else {
        push_decimal(out, n as u64);
    }
}

/// Writes a well-formed timestamp's date as `Month DD, YYYY`, or nothing
/// where the timestamp is malformed.
pub fn format_month_day_year(s: &str) -> (r: Option<String>)
    ensures
        match r {
            Some(d) => is_rfc3339(s@) && d@ == month_day_year_spec(s@),
            None => !is_rfc3339(s@),
        },
{
    match rfc3339_date_prefix(s) {
        None => None,
        Some(_) => {
            let month = read_two_digit(s, 5);
            let day = read_two_digit(s, 8);
            let year = (s.get_char(0) as u32 - 48) * 1000 + (s.get_char(1) as u32 - 48) * 100 + (
            s.get_char(2) as u32 - 48) * 10 + (s.get_char(3) as u32 - 48);
            let mut out = String::new();
            push_month_name(&mut out, month);
            out.append(" ");
            push_pad2(&mut out, day);
            out.append(", ");
            push_pad4(&mut out, year);
            proof {
                assert(out@ =~= month_day_year_spec(s@));
            }
            Some(out)
        },
    }
}

} // verus!
