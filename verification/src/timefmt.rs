//! Rendering timestamps for people: how far away a moment is, and the
//! response bodies of the timestamp command.
//!
//! Calendar and time-zone rendering is the surrounding program's business;
//! the functions here take those rendered strings and are exact about
//! everything they add around them.

use vstd::prelude::*;

use crate::strutil::{dec_spec, push_decimal};

verus! {

/// The calendar renderings of one moment that the response bodies embed.
#[derive(Debug, Clone)]
pub struct DateStrings {
    pub utc: String,
    pub local: String,
    pub iso8601: String,
    pub rfc2822: String,
}

/// One count with its unit and direction, pluralized: `3 hours ago`,
/// `1 minute from now`.
pub open spec fn unit_phrase(k: int, unit: Seq<char>, suffix: Seq<char>) -> Seq<char> {
    dec_spec(k) + " "@ + unit + (if k == 1 {
        Seq::<char>::empty()
    } else {
        "s"@
    }) + " "@ + suffix
}

/// How `format_relative_time` describes the distance between two moments:
/// seconds up to a minute, then minutes, hours, days, 30-day months and
/// 365-day years, with `ago` or `from now` as the direction.
pub open spec fn relative_time_spec(timestamp: int, now: int) -> Seq<char> {
    let diff = now - timestamp;
    if diff == 0 {
        "now"@
    } else {
        let abs = if diff > 0 {
            diff
        } else {
            -diff
        };
        let suffix = if diff > 0 {
            "ago"@
        } else {
            "from now"@
        };
        if abs <= 59 {
            unit_phrase(abs, "second"@, suffix)
        } else if abs <= 3599 {
            unit_phrase(abs / 60, "minute"@, suffix)
        } else if abs <= 86399 {
            unit_phrase(abs / 3600, "hour"@, suffix)
        } else if abs <= 2591999 {
            unit_phrase(abs / 86400, "day"@, suffix)
        } else if abs <= 31535999 {
            unit_phrase(abs / 2592000, "month"@, suffix)
        } else {
            unit_phrase(abs / 31536000, "year"@, suffix)
        }
    }
}

/// Describes how far `timestamp` lies from `now`, in the largest unit that
/// fits, with its direction.
pub fn format_relative_time(timestamp: i64, now: i64) -> (r: String)
    requires
        -0x7FFF_FFFF_FFFF_FFFF <= now as int - timestamp as int <= 0x7FFF_FFFF_FFFF_FFFF,
    ensures
        r@ == relative_time_spec(timestamp as int, now as int),
{
    let diff: i64 = now - timestamp;
    if diff == 0 {
        return ("now").to_owned();
    }
    let abs: u64 = if diff > 0 {
        diff as u64
    } else {
        (-diff) as u64
    };
    let suffix: &str = if diff > 0 {
        "ago"
    } else {
        "from now"
    };
    let (count, unit): (u64, &str) = if abs <= 59 {
        (abs, "second")
    } else if abs <= 3599 {
        (abs / 60, "minute")
    } else if abs <= 86399 {
        (abs / 3600, "hour")
    } else if abs <= 2591999 {
        (abs / 86400, "day")
    } else if abs <= 31535999 {
        (abs / 2592000, "month")
    } else {
        (abs / 31536000, "year")
    };
    let mut out = String::new();
    push_decimal(&mut out, count);
    out.append(" ");
    out.append(unit);
    if count != 1 {
        out.append("s");
    }
    out.append(" ");
    out.append(suffix);
    proof {
        assert(out@ =~= relative_time_spec(timestamp as int, now as int));
    }
    out
}

/// The timestamp-conversion response body for an explicitly given moment.
pub open spec fn timestamp_body_spec(ts: int, now: int, d: DateStrings) -> Seq<char> {
    "**Unix Timestamp:** `"@ + dec_spec_signed(ts) + "`\n**UTC:** "@ + d.utc@ + "\n**Local:** "@
        + d.local@ + "\n**Relative:** "@ + relative_time_spec(ts, now) + "\n**ISO 8601:** "@
        + d.iso8601@ + "\n**RFC 2822:** "@ + d.rfc2822@
}

/// The digits of `n` in decimal, with a leading minus where it is negative.
pub open spec fn dec_spec_signed(n: int) -> Seq<char> {
    if n < 0 {
        "-"@ + dec_spec(-n)
    } else {
        dec_spec(n)
    }
}

/// Appends the decimal form of a signed number.
pub fn push_decimal_signed(s: &mut String, n: i64)
    ensures
        final(s)@ == old(s)@ + dec_spec_signed(n as int),
{
    if n < 0 {
        s.append("-");
        let m: u64 = if n == i64::MIN {
            0x8000_0000_0000_0000u64
        } else {
            (-n) as u64
        };
        push_decimal(s, m);
        proof {
            assert(s@ =~= old(s)@ + dec_spec_signed(n as int));
        }
    } else {
        push_decimal(s, n as u64);
    }
}

/// Builds the response body for a given Unix timestamp, around the calendar
/// renderings handed in.
pub fn timestamp_body(ts: i64, now: i64, d: &DateStrings) -> (r: String)
    requires
        -0x7FFF_FFFF_FFFF_FFFF <= now as int - ts as int <= 0x7FFF_FFFF_FFFF_FFFF,
    ensures
        r@ == timestamp_body_spec(ts as int, now as int, *d),
{
    let mut out = ("**Unix Timestamp:** `").to_owned();
    push_decimal_signed(&mut out, ts);
    out.append("`\n**UTC:** ");
    out.append(d.utc.as_str());
    out.append("\n**Local:** ");
    out.append(d.local.as_str());
    out.append("\n**Relative:** ");
    let rel = format_relative_time(ts, now);
    out.append(rel.as_str());
    out.append("\n**ISO 8601:** ");
    out.append(d.iso8601.as_str());
    out.append("\n**RFC 2822:** ");
    out.append(d.rfc2822.as_str());
    proof {
        assert(out@ =~= timestamp_body_spec(ts as int, now as int, *d));
    }
    out
}

/// The response body for a parsed date string.
pub open spec fn date_body_spec(ts: int, now: int, utc: Seq<char>, iso: Seq<char>, rfc: Seq<
    char,
>) -> Seq<char> {
    "**Date:** "@ + utc + "\n**Unix Timestamp:** `"@ + dec_spec_signed(ts) + "`\n**Relative:** "@
        + relative_time_spec(ts, now) + "\n**ISO 8601:** "@ + iso + "\n**RFC 2822:** "@ + rfc
}

/// Builds the response body for a date the user typed, around the calendar
/// renderings handed in.
pub fn date_body(ts: i64, now: i64, utc: &str, iso: &str, rfc: &str) -> (r: String)
    requires
        -0x7FFF_FFFF_FFFF_FFFF <= now as int - ts as int <= 0x7FFF_FFFF_FFFF_FFFF,
    ensures
        r@ == date_body_spec(ts as int, now as int, utc@, iso@, rfc@),
{
    let mut out = ("**Date:** ").to_owned();
    out.append(utc);
    out.append("\n**Unix Timestamp:** `");
    push_decimal_signed(&mut out, ts);
    out.append("`\n**Relative:** ");
    let rel = format_relative_time(ts, now);
    out.append(rel.as_str());
    out.append("\n**ISO 8601:** ");
    out.append(iso);
    out.append("\n**RFC 2822:** ");
    out.append(rfc);
    proof {
        assert(out@ =~= date_body_spec(ts as int, now as int, utc@, iso@, rfc@));
    }
    out
}

/// The response body for the current moment.
pub open spec fn now_body_spec(ts: int, d: DateStrings) -> Seq<char> {
    "**Unix Timestamp:** `"@ + dec_spec_signed(ts) + "`\n**UTC:** "@ + d.utc@ + "\n**Local:** "@
        + d.local@ + "\n**ISO 8601:** "@ + d.iso8601@ + "\n**RFC 2822:** "@ + d.rfc2822@
}

/// Builds the response body for the current moment, around the calendar
/// renderings handed in.
pub fn now_body(ts: i64, d: &DateStrings) -> (r: String)
    ensures
        r@ == now_body_spec(ts as int, *d),
{
    let mut out = ("**Unix Timestamp:** `").to_owned();
    push_decimal_signed(&mut out, ts);
    out.append("`\n**UTC:** ");
    out.append(d.utc.as_str());
    out.append("\n**Local:** ");
    out.append(d.local.as_str());
    out.append("\n**ISO 8601:** ");
    out.append(d.iso8601.as_str());
    out.append("\n**RFC 2822:** ");
    out.append(d.rfc2822.as_str());
    proof {
        assert(out@ =~= now_body_spec(ts as int, *d));
    }
    out
}

} // verus!
