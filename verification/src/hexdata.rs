//! Hexadecimal data handling: parsing hex strings and swapping byte order.

use vstd::prelude::*;

use crate::crypto::hex_of;
use crate::error::BotError;
use crate::strutil::{find_sub, find_sub_idx, push_char, upper_seq};

verus! {

/// The value of a hex digit, or -1 for any other character.
pub open spec fn hex_val(c: char) -> int {
    if 48 <= c as u32 && c as u32 <= 57 {
        c as u32 - 48
    } else if 65 <= c as u32 && c as u32 <= 70 {
        c as u32 - 55
    } else if 97 <= c as u32 && c as u32 <= 102 {
        c as u32 - 87
    } else {
        -1
    }
}

/// The bytes an even-length string of hex digits denotes.
pub open spec fn hex_decode_spec(s: Seq<char>) -> Seq<u8> {
    Seq::new((s.len() / 2) as nat, |i: int| (hex_val(s[2 * i]) * 16 + hex_val(s[2 * i + 1])) as u8)
}

/// The string with every blank removed.
pub open spec fn remove_spaces_spec(s: Seq<char>) -> Seq<char> {
    s.filter(|c: char| c != ' ')
}

/// The string with every `0x` removed, scanning left to right.
pub open spec fn remove_0x_spec(s: Seq<char>) -> Seq<char>
    decreases s.len(),
{
    let i = find_sub_idx(s, "0x"@);
    if i < 0 || i + 2 > s.len() {
        s
    } else {
        s.take(i) + remove_0x_spec(s.skip(i + 2))
    }
}

/// Removes every blank from a string.
fn remove_spaces(s: &str) -> (r: String)
    ensures
        r@ == remove_spaces_spec(s@),
{
    let len = s.unicode_len();
    let mut out = String::new();
    let mut i: usize = 0;
    while i < len
        invariant
            len == s@.len(),
            i <= len,
            out@ == s@.take(i as int).filter(|c: char| c != ' '),
        decreases len - i,
    {
        let c = s.get_char(i);
        proof {
            assert(s@.take(i + 1).drop_last() =~= s@.take(i as int));
            assert(s@.take(i + 1).last() == c);
            reveal_with_fuel(Seq::filter, 2);
        }
        if c != ' ' {
            push_char(&mut out, c);
        }
        i += 1;
    }
    proof {
        assert(s@.take(len as int) =~= s@);
    }
    out
}

/// Removes every `0x` from a string, scanning left to right.
fn remove_0x(s: &str) -> (r: String)
    ensures
        r@ == remove_0x_spec(s@),
    decreases s@.len(),
{
    proof {
        reveal_strlit("0x");
    }
    let len = s.unicode_len();
    match find_sub(s, "0x") {
        None => s.to_owned(),
        Some(i) => {
            let head = s.substring_char(0, i);
            let tail = s.substring_char(i + 2, len);
            let rest = remove_0x(tail);
            let mut out = head.to_owned();
            out.append(rest.as_str());
            proof {
                assert(tail@ == s@.skip(i + 2));
                assert(out@ == remove_0x_spec(s@));
            }
            out
        },
    }
}

/// Whether every character is a hex digit; even length is checked apart.
fn all_hex(s: &str) -> (r: bool)
    ensures
        r == forall|i: int| 0 <= i < s@.len() ==> hex_val(s@[i]) >= 0,
{
    let len = s.unicode_len();
    let mut i: usize = 0;
    while i < len
        invariant
            len == s@.len(),
            i <= len,
            forall|j: int| 0 <= j < i ==> hex_val(s@[j]) >= 0,
        decreases len - i,
    {
        let u = s.get_char(i) as u32;
        if !((48 <= u && u <= 57) || (65 <= u && u <= 70) || (97 <= u && u <= 102)) {
            return false;
        }
        i += 1;
    }
    true
}

/// Reads an even-length, all-hex string into its bytes.
fn hex_decode(s: &str) -> (r: Vec<u8>)
    requires
        s@.len() % 2 == 0,
        forall|i: int| 0 <= i < s@.len() ==> hex_val(s@[i]) >= 0,
    ensures
        r@ == hex_decode_spec(s@),
{
    let len = s.unicode_len();
    let mut out: Vec<u8> = Vec::new();
    let mut i: usize = 0;
    while i + 1 < len
        invariant
            len == s@.len(),
            len % 2 == 0,
            i % 2 == 0,
            i <= len,
            forall|j: int| 0 <= j < len ==> hex_val(s@[j]) >= 0,
            out@.len() == i / 2,
            forall|j: int|
                0 <= j < out@.len() ==> out@[j] == hex_decode_spec(s@)[j],
        decreases len - i,
    {
        let hi = s.get_char(i) as u32;
        let lo = s.get_char(i + 1) as u32;
        let hv: u32 = if 48 <= hi && hi <= 57 {
            hi - 48
        } else if 65 <= hi && hi <= 70 {
            hi - 55
        } else {
            hi - 87
        };
        let lv: u32 = if 48 <= lo && lo <= 57 {
            lo - 48
        } else if 65 <= lo && lo <= 70 {
            lo - 55
        } else {
            lo - 87
        };
        proof {
            assert(hv == hex_val(s@[i as int]));
            assert(lv == hex_val(s@[i as int + 1]));
        }
        out.push((hv * 16 + lv) as u8);
        proof {
            assert((i as int) / 2 == (i as int + 2) / 2 - 1);
        }
        i += 2;
    }
    proof {
        assert(out@ =~= hex_decode_spec(s@));
    }
    out
}

/// A byte string in reverse order.
fn reverse_bytes(bytes: &Vec<u8>) -> (r: Vec<u8>)
    ensures
        r@ == bytes@.reverse(),
{
    let mut out: Vec<u8> = Vec::new();
    let mut i: usize = bytes.len();
    while i > 0
        invariant
            i <= bytes@.len(),
            out@.len() == bytes@.len() - i,
            forall|j: int| 0 <= j < out@.len() ==> out@[j] == bytes@[bytes@.len() - 1 - j],
        decreases i,
    {
        i -= 1;
        out.push(bytes[i]);
    }
    proof {
        assert(out@ =~= bytes@.reverse());
    }
    out
}

/// What the endian command does to accepted input: blanks and `0x` marks
/// dropped, the hex read as bytes, the bytes reversed and written back as
/// uppercase hex.
pub open spec fn endian_swapped_spec(s: Seq<char>) -> Seq<char> {
    upper_seq(hex_of(hex_decode_spec(remove_0x_spec(remove_spaces_spec(s))).reverse()))
}

/// Whether the cleaned input is well-formed hex of even length.
pub open spec fn endian_input_ok(s: Seq<char>) -> bool {
    let clean = remove_0x_spec(remove_spaces_spec(s));
    clean.len() % 2 == 0 && forall|i: int| 0 <= i < clean.len() ==> hex_val(clean[i]) >= 0
}

/// Swaps the byte order of hexadecimal data: `DEADBEEF` becomes
/// `EFBEADDE`. Blanks and `0x` marks are ignored; input whose cleaned form
/// has odd length or a character outside hex is refused, saying which.
pub fn endian_swap(hex_data: &str) -> (r: Result<String, BotError>)
    ensures
        ({
            let clean = remove_0x_spec(remove_spaces_spec(hex_data@));
            &&& (r matches Ok(s) ==> endian_input_ok(hex_data@) && s@ == endian_swapped_spec(
                hex_data@,
            ))
            &&& (r is Ok <==> endian_input_ok(hex_data@))
            &&& (r matches Err(e) ==> e matches BotError::InvalidFormat(m) && (if clean.len() % 2
                != 0 {
                m@ == "Hex string must have even length"@
            } else {
                m@ == "Invalid hex: input has a character outside 0-9, a-f"@
            }))
        }),
{
    let spaced = remove_spaces(hex_data);
    let clean = remove_0x(spaced.as_str());
    let clen = clean.as_str().unicode_len();
    if clen % 2 != 0 {
        return Err(BotError::InvalidFormat(("Hex string must have even length").to_owned()));
    }
    if !all_hex(clean.as_str()) {
        return Err(BotError::InvalidFormat(
            ("Invalid hex: input has a character outside 0-9, a-f").to_owned(),
        ));
    }
    let bytes = hex_decode(clean.as_str());
    let swapped = reverse_bytes(&bytes);
    let lower = crate::crypto::hex_encode(swapped.as_slice());
    Ok(crate::strutil::ascii_upper(lower.as_str()))
}

} // verus!
