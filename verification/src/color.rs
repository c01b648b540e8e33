//! Color parsing and integer-exact formatting.
//!
//! A color arrives as a name, a hex triple, or an `rgb(...)` / comma
//! triple, and is parsed here. The floating-point conversions into other
//! color spaces are presentation work and live with the surrounding
//! program.

use vstd::prelude::*;

use crate::crypto::hex_of;
use crate::hexdata::hex_val;
use crate::strutil::{
    ascii_lower, dec_spec, dec_value, find_char, is_digit_seq, lower_seq, parse_u64_below,
    push_decimal, split_char, split_spec, starts_with, str_eq, trim, trim_spec, upper_seq,
};

verus! {

/// One color as its red, green and blue bytes.
#[derive(Debug, Clone, Copy, PartialEq, Eq, Structural)]
pub struct Color {
    pub r: u8,
    pub g: u8,
    pub b: u8,
}

/// The colors known by name, lowercased.
pub open spec fn named_color_spec(s: Seq<char>) -> Option<Color> {
    if s == "red"@ {
        Option::Some(Color { r: 255, g: 0, b: 0 })
    } else if s == "green"@ {
        Option::Some(Color { r: 0, g: 128, b: 0 })
    } else if s == "blue"@ {
        Option::Some(Color { r: 0, g: 0, b: 255 })
    } else if s == "white"@ {
        Option::Some(Color { r: 255, g: 255, b: 255 })
    } else if s == "black"@ {
        Option::Some(Color { r: 0, g: 0, b: 0 })
    } else if s == "yellow"@ {
        Option::Some(Color { r: 255, g: 255, b: 0 })
    } else if s == "cyan"@ {
        Option::Some(Color { r: 0, g: 255, b: 255 })
    } else if s == "magenta"@ {
        Option::Some(Color { r: 255, g: 0, b: 255 })
    } else if s == "orange"@ {
        Option::Some(Color { r: 255, g: 165, b: 0 })
    } else if s == "purple"@ {
        Option::Some(Color { r: 128, g: 0, b: 128 })
    } else if s == "pink"@ {
        Option::Some(Color { r: 255, g: 192, b: 203 })
    } else if s == "brown"@ {
        Option::Some(Color { r: 165, g: 42, b: 42 })
    } else if s == "gray"@ || s == "grey"@ {
        Option::Some(Color { r: 128, g: 128, b: 128 })
    } else if s == "lime"@ {
        Option::Some(Color { r: 0, g: 255, b: 0 })
    } else if s == "navy"@ {
        Option::Some(Color { r: 0, g: 0, b: 128 })
    } else if s == "maroon"@ {
        Option::Some(Color { r: 128, g: 0, b: 0 })
    } else if s == "olive"@ {
        Option::Some(Color { r: 128, g: 128, b: 0 })
    } else if s == "teal"@ {
        Option::Some(Color { r: 0, g: 128, b: 128 })
    } else if s == "silver"@ {
        Option::Some(Color { r: 192, g: 192, b: 192 })
    } else {
        Option::None
    }
}

/// Looks a lowercased color name up.
pub fn parse_named_color(name: &str) -> (r: Option<Color>)
    ensures
        r == named_color_spec(name@),
{
    if str_eq(name, "red") {
        Some(Color { r: 255, g: 0, b: 0 })
    } else if str_eq(name, "green") {
        Some(Color { r: 0, g: 128, b: 0 })
    } else if str_eq(name, "blue") {
        Some(Color { r: 0, g: 0, b: 255 })
    } else if str_eq(name, "white") {
        Some(Color { r: 255, g: 255, b: 255 })
    } else if str_eq(name, "black") {
        Some(Color { r: 0, g: 0, b: 0 })
    } else if str_eq(name, "yellow") {
        Some(Color { r: 255, g: 255, b: 0 })
    } else if str_eq(name, "cyan") {
        Some(Color { r: 0, g: 255, b: 255 })
    } else if str_eq(name, "magenta") {
        Some(Color { r: 255, g: 0, b: 255 })
    } else if str_eq(name, "orange") {
        Some(Color { r: 255, g: 165, b: 0 })
    } else if str_eq(name, "purple") {
        Some(Color { r: 128, g: 0, b: 128 })
    } else if str_eq(name, "pink") {
        Some(Color { r: 255, g: 192, b: 203 })
    } else if str_eq(name, "brown") {
        Some(Color { r: 165, g: 42, b: 42 })
    } else if str_eq(name, "gray") || str_eq(name, "grey") {
        Some(Color { r: 128, g: 128, b: 128 })
    } else if str_eq(name, "lime") {
        Some(Color { r: 0, g: 255, b: 0 })
    } else if str_eq(name, "navy") {
        Some(Color { r: 0, g: 0, b: 128 })
    } else if str_eq(name, "maroon") {
        Some(Color { r: 128, g: 0, b: 0 })
    } else if str_eq(name, "olive") {
        Some(Color { r: 128, g: 128, b: 0 })
    } else if str_eq(name, "teal") {
        Some(Color { r: 0, g: 128, b: 128 })
    } else if str_eq(name, "silver") {
        Some(Color { r: 192, g: 192, b: 192 })
    } else {
        None
    }
}

/// The hex digits of a color string, `#` stripped.
pub open spec fn hex_body(s: Seq<char>) -> Seq<char> {
    if s.len() >= 1 && s[0] == '#' {
        s.skip(1)
    } else {
        s
    }
}

/// What a hex color string parses to: three doubled digits, or six digits
/// read pairwise, or a refusal naming the fault.
pub open spec fn hex_color_spec(s: Seq<char>) -> Result<Color, Seq<char>> {
    let h = hex_body(s);
    if h.len() == 3 {
        if hex_val(h[0]) >= 0 && hex_val(h[1]) >= 0 && hex_val(h[2]) >= 0 {
            Result::Ok(
                Color {
                    r: (hex_val(h[0]) * 17) as u8,
                    g: (hex_val(h[1]) * 17) as u8,
                    b: (hex_val(h[2]) * 17) as u8,
                },
            )
        } else {
            Result::Err("Invalid hex digit"@)
        }
    } else if h.len() == 6 {
        if (forall|i: int| 0 <= i < 6 ==> hex_val(h[i]) >= 0) {
            Result::Ok(
                Color {
                    r: (hex_val(h[0]) * 16 + hex_val(h[1])) as u8,
                    g: (hex_val(h[2]) * 16 + hex_val(h[3])) as u8,
                    b: (hex_val(h[4]) * 16 + hex_val(h[5])) as u8,
                },
            )
        } else {
            Result::Err("Invalid hex digit"@)
        }
    } else {
        Result::Err("Hex color must be 3 or 6 characters"@)
    }
}

/// The value of one hex digit, where it is one.
fn hex_digit_value(c: char) -> (r: Option<u8>)
    ensures
        match r {
            Some(v) => hex_val(c) == v && v < 16,
            None => hex_val(c) < 0,
        },
{
    let u = c as u32;
    if 48 <= u && u <= 57 {
        Some((u - 48) as u8)
    } else if 65 <= u && u <= 70 {
        Some((u - 55) as u8)
    } else if 97 <= u && u <= 102 {
        Some((u - 87) as u8)
    } else {
        None
    }
}

/// Reads a `#`-optional hex color of three or six digits.
pub fn parse_hex_color(input: &str) -> (r: Result<Color, String>)
    ensures
        match r {
            Ok(c) => hex_color_spec(input@) == Result::<Color, Seq<char>>::Ok(c),
            Err(m) => hex_color_spec(input@) == Result::<Color, Seq<char>>::Err(m@),
        },
{
    let len = input.unicode_len();
    let hex: &str = if len >= 1 && input.get_char(0) == '#' {
        input.substring_char(1, len)
    } else {
        input
    };
    proof {
        assert(hex@ =~= hex_body(input@));
    }
    let hlen = hex.unicode_len();
    if hlen == 3 {
        let d0 = hex_digit_value(hex.get_char(0));
        let d1 = hex_digit_value(hex.get_char(1));
        let d2 = hex_digit_value(hex.get_char(2));
        match (d0, d1, d2) {
            (Some(va), Some(vb), Some(vc)) => Ok(Color { r: va * 17, g: vb * 17, b: vc * 17 }),
            _ => Err(("Invalid hex digit").to_owned()),
        }
    } else if hlen == 6 {
        let d0 = hex_digit_value(hex.get_char(0));
        let d1 = hex_digit_value(hex.get_char(1));
        let d2 = hex_digit_value(hex.get_char(2));
        let d3 = hex_digit_value(hex.get_char(3));
        let d4 = hex_digit_value(hex.get_char(4));
        let d5 = hex_digit_value(hex.get_char(5));
        match (d0, d1, d2, d3, d4, d5) {
            (Some(va), Some(vb), Some(vc), Some(vd), Some(ve), Some(vf)) => {
                proof {
                    assert forall|i: int| 0 <= i < 6 implies hex_val(hex@[i]) >= 0 by {}
                }
                Ok(Color { r: va * 16 + vb, g: vc * 16 + vd, b: ve * 16 + vf })
            },
            _ => Err(("Invalid hex digit").to_owned()),
        }
    } else {
        Err(("Hex color must be 3 or 6 characters").to_owned())
    }
}

/// What a comma-separated triple parses to: three trimmed decimal byte
/// values, or a refusal naming the first field at fault.
pub open spec fn comma_rgb_spec(s: Seq<char>) -> Result<Color, Seq<char>> {
    let parts = split_spec(s, ',');
    if parts.len() != 3 {
        Result::Err("RGB format requires 3 values"@)
    } else {
        let p0 = trim_spec(parts[0]);
        let p1 = trim_spec(parts[1]);
        let p2 = trim_spec(parts[2]);
        if !(is_digit_seq(p0) && dec_value(p0) < 256) {
            Result::Err("Invalid red value"@)
        } else if !(is_digit_seq(p1) && dec_value(p1) < 256) {
            Result::Err("Invalid green value"@)
        } else if !(is_digit_seq(p2) && dec_value(p2) < 256) {
            Result::Err("Invalid blue value"@)
        } else {
            Result::Ok(
                Color {
                    r: dec_value(p0) as u8,
                    g: dec_value(p1) as u8,
                    b: dec_value(p2) as u8,
                },
            )
        }
    }
}

/// Reads a `r,g,b` triple of decimal byte values.
pub fn parse_comma_rgb(input: &str) -> (r: Result<Color, String>)
    ensures
        match r {
            Ok(c) => comma_rgb_spec(input@) == Result::<Color, Seq<char>>::Ok(c),
            Err(m) => comma_rgb_spec(input@) == Result::<Color, Seq<char>>::Err(m@),
        },
{
    let parts = split_char(input, ',');
    if parts.len() != 3 {
        return Err(("RGB format requires 3 values").to_owned());
    }
    let p0 = trim(parts[0].as_str());
    let r = match parse_u64_below(p0, 256) {
        Some(v) => v as u8,
        None => {
            return Err(("Invalid red value").to_owned());
        },
    };
    let p1 = trim(parts[1].as_str());
    let g = match parse_u64_below(p1, 256) {
        Some(v) => v as u8,
        None => {
            return Err(("Invalid green value").to_owned());
        },
    };
    let p2 = trim(parts[2].as_str());
    let b = match parse_u64_below(p2, 256) {
        Some(v) => v as u8,
        None => {
            return Err(("Invalid blue value").to_owned());
        },
    };
    Ok(Color { r, g, b })
}

/// What an `rgb(...)` string parses to: its inside as a comma triple.
pub open spec fn rgb_color_spec(s: Seq<char>) -> Result<Color, Seq<char>> {
    comma_rgb_spec(s.skip(4).take(s.len() - 5))
}

/// Reads an `rgb(r, g, b)` string.
pub fn parse_rgb_color(input: &str) -> (r: Result<Color, String>)
    requires
        input@.len() >= 5,
    ensures
        match r {
            Ok(c) => rgb_color_spec(input@) == Result::<Color, Seq<char>>::Ok(c),
            Err(m) => rgb_color_spec(input@) == Result::<Color, Seq<char>>::Err(m@),
        },
{
    let len = input.unicode_len();
    let inner = input.substring_char(4, len - 1);
    proof {
        assert(inner@ =~= input@.skip(4).take(input@.len() - 5));
    }
    parse_comma_rgb(inner)
}

/// What `parse_color` makes of a trimmed, lowercased string: a known name;
/// else a hex triple where it opens with `#` or is all hex digits; else an
/// `rgb(...)` triple; else any comma triple; else the `hsl(...)` refusal,
/// whose comma-bearing forms a comma triple already caught; else the
/// general refusal.
pub open spec fn parse_color_spec(s: Seq<char>) -> Result<Color, Seq<char>> {
    if named_color_spec(s) is Some {
        Result::Ok(named_color_spec(s).unwrap())
    } else if (s.len() >= 1 && s[0] == '#') || (forall|i: int|
        0 <= i < s.len() ==> hex_val(s[i]) >= 0) {
        hex_color_spec(s)
    } else if s.len() >= 5 && s.take(4) == "rgb("@ && s.last() == ')' {
        rgb_color_spec(s)
    } else if exists|i: int| 0 <= i < s.len() && s[i] == ',' {
        comma_rgb_spec(s)
    } else if s.len() >= 5 && s.take(4) == "hsl("@ && s.last() == ')' {
        Result::Err("HSL format requires 3 values"@)
    } else {
        Result::Err("Unrecognized color format"@)
    }
}

/// Reads a color in any accepted form; the input is lowercased first.
pub fn parse_color(input: &str) -> (r: Result<Color, String>)
    ensures
        ({
            let s = lower_seq(input@);
            match r {
                Ok(c) => parse_color_spec(s) == Result::<Color, Seq<char>>::Ok(c),
                Err(m) => parse_color_spec(s) == Result::<Color, Seq<char>>::Err(m@),
            }
        }),
{
    proof {
        reveal_strlit("rgb(");
        reveal_strlit("hsl(");
    }
    let lowered = ascii_lower(input);
    let low = lowered.as_str();
    let len = low.unicode_len();
    match parse_named_color(low) {
        Some(c) => {
            return Ok(c);
        },
        None => {},
    }
    let opens_hash = len >= 1 && low.get_char(0) == '#';
    let all_hex = {
        let mut i: usize = 0;
        let mut ok = true;
        while i < len
            invariant
                len == low@.len(),
                i <= len,
                ok == forall|j: int| 0 <= j < i ==> hex_val(low@[j]) >= 0,
            decreases len - i,
        {
            let u = low.get_char(i) as u32;
            if !((48 <= u && u <= 57) || (65 <= u && u <= 70) || (97 <= u && u <= 102)) {
                ok = false;
            }
            i += 1;
        }
        ok
    };
    if opens_hash || all_hex {
        return parse_hex_color(low);
    }
    if len >= 5 && starts_with(low, "rgb(") && low.get_char(len - 1) == ')' {
        return parse_rgb_color(low);
    }
    match find_char(low, ',') {
        Some(_) => {
            return parse_comma_rgb(low);
        },
        None => {},
    }
    if len >= 5 && starts_with(low, "hsl(") && low.get_char(len - 1) == ')' {
        return Err(("HSL format requires 3 values").to_owned());
    }
    Err(("Unrecognized color format").to_owned())
}

/// A color as `#RRGGBB` with uppercase hex digits.
pub open spec fn hex_color_string_spec(c: Color) -> Seq<char> {
    "#"@ + upper_seq(hex_of(seq![c.r, c.g, c.b]))
}

/// Writes a color as `#RRGGBB`.
pub fn format_hex_color(color: &Color) -> (r: String)
    ensures
        r@ == hex_color_string_spec(*color),
{
    let mut bytes: Vec<u8> = Vec::new();
    bytes.push(color.r);
    bytes.push(color.g);
    bytes.push(color.b);
    proof {
        assert(bytes@ =~= seq![color.r, color.g, color.b]);
    }
    let lower = crate::crypto::hex_encode(bytes.as_slice());
    let upper = crate::strutil::ascii_upper(lower.as_str());
    let mut out = ("#").to_owned();
    out.append(upper.as_str());
    out
}

/// A color as `rgb(r, g, b)` in decimal.
pub open spec fn rgb_string_spec(c: Color) -> Seq<char> {
    "rgb("@ + dec_spec(c.r as int) + ", "@ + dec_spec(c.g as int) + ", "@ + dec_spec(c.b as int)
        + ")"@
}

/// Writes a color as `rgb(r, g, b)`.
pub fn format_rgb_color(color: &Color) -> (r: String)
    ensures
        r@ == rgb_string_spec(*color),
{
    let mut out = ("rgb(").to_owned();
    push_decimal(&mut out, color.r as u64);
    out.append(", ");
    push_decimal(&mut out, color.g as u64);
    out.append(", ");
    push_decimal(&mut out, color.b as u64);
    out.append(")");
    proof {
        assert(out@ =~= rgb_string_spec(*color));
    }
    out
}

/// A color packed into one word: red high, blue low.
pub open spec fn color_int_spec(c: Color) -> int {
    (c.r as int) * 0x10000 + (c.g as int) * 0x100 + (c.b as int)
}

/// Packs a color into one word, red high.
pub fn color_int_value(color: &Color) -> (r: u32)
    ensures
        r == color_int_spec(*color),
{
    (color.r as u32) * 0x10000 + (color.g as u32) * 0x100 + (color.b as u32)
}

} // verus!
