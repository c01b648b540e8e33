//! The ROT substitution cipher over ASCII letters.

use vstd::prelude::*;

use crate::strutil::push_char;

verus! {

/// One character rotated by `n` places: letters rotate inside their case,
/// everything else passes through.
pub open spec fn rot_char_spec(c: char, n: u8) -> char {
    if 97 <= c as u32 && c as u32 <= 122 {
        ((((c as u32 - 97) + n) % 26 + 97) as u8) as char
    } else if 65 <= c as u32 && c as u32 <= 90 {
        ((((c as u32 - 65) + n) % 26 + 65) as u8) as char
    } else {
        c
    }
}

/// A string rotated by `n` places, character by character.
pub open spec fn rot_spec(s: Seq<char>, n: u8) -> Seq<char> {
    s.map_values(|c: char| rot_char_spec(c, n))
}

/// Rotates one character by `n` places.
pub fn rot_char(c: char, n: u8) -> (r: char)
    requires
        n < 26,
    ensures
        r == rot_char_spec(c, n),
{
    let u = c as u32;
    if 97 <= u && u <= 122 {
        ((((u - 97) + n as u32) % 26 + 97) as u8) as char
    } else if 65 <= u && u <= 90 {
        ((((u - 65) + n as u32) % 26 + 65) as u8) as char
    } else {
        c
    }
}

/// Rotates every character of a string by `n` places.
pub fn rot_string(s: &str, n: u8) -> (r: String)
    requires
        n < 26,
    ensures
        r@ == rot_spec(s@, n),
{
    let len = s.unicode_len();
    let mut out = String::new();
    let mut i: usize = 0;
    while i < len
        invariant
            n < 26,
            len == s@.len(),
            i <= len,
            out@ == rot_spec(s@.take(i as int), n),
        decreases len - i,
    {
        let c = s.get_char(i);
        let rc = rot_char(c, n);
        push_char(&mut out, rc);
        proof {
            assert(s@.take(i + 1) =~= s@.take(i as int).push(c));
            assert(out@ =~= rot_spec(s@.take(i + 1), n));
        }
        i += 1;
    }
    proof {
        assert(s@.take(len as int) =~= s@);
    }
    out
}

} // verus!
