//! Base64 encoding and decoding with the standard alphabet and padding.
//!
//! The coding itself comes from the `base64` crate; its standard engine is
//! exact enough to state in full, so the wrappers promise the canonical
//! encoding and nothing weaker.

use vstd::prelude::*;

use vstd::string::StringSliceAdditionalSpecFns;
use vstd::utf8::{encode_utf8, valid_utf8};

verus! {

/// Which way the data is to be transformed.
#[derive(Debug, Clone)]
pub enum Operation {
    Encode,
    Decode,
}

/// The standard Base64 alphabet: capitals, smalls, digits, `+`, `/`.
pub open spec fn b64_char(n: int) -> char {
    if n < 26 {
        ((65 + n) as u8) as char
    } else if n < 52 {
        ((97 + (n - 26)) as u8) as char
    } else if n < 62 {
        ((48 + (n - 52)) as u8) as char
    } else if n == 62 {
        '+'
    } else {
        '/'
    }
}

/// The canonical Base64 form of a byte string: six bits a character, the
/// final group padded with `=`.
pub open spec fn base64_of(b: Seq<u8>) -> Seq<char>
    decreases b.len(),
{
    if b.len() == 0 {
        Seq::<char>::empty()
    } else if b.len() == 1 {
        let n = b[0] as int;
        seq![b64_char(n / 4), b64_char((n % 4) * 16), '=', '=']
    } else if b.len() == 2 {
        let n = (b[0] as int) * 0x100 + (b[1] as int);
        seq![b64_char(n / 0x400), b64_char((n / 16) % 64), b64_char((n % 16) * 4), '=']
    } else {
        let n = (b[0] as int) * 0x10000 + (b[1] as int) * 0x100 + (b[2] as int);
        seq![
            b64_char(n / 0x40000),
            b64_char((n / 0x1000) % 64),
            b64_char((n / 64) % 64),
            b64_char(n % 64),
        ] + base64_of(b.skip(3))
    }
}

/// The value a Base64 character carries, recovered by cases.
proof fn lemma_b64_char_value(n: int)
    requires
        0 <= n < 64,
    ensures
        b64_char(n) as u32 == (if n < 26 {
            65 + n
        } else if n < 52 {
            97 + (n - 26)
        } else if n < 62 {
            48 + (n - 52)
        } else if n == 62 {
            43
        } else {
            47
        }),
        b64_char(n) != '=',
{
}

/// Distinct values wear distinct Base64 characters.
proof fn lemma_b64_char_injective(m: int, n: int)
    requires
        0 <= m < 64,
        0 <= n < 64,
        b64_char(m) == b64_char(n),
    ensures
        m == n,
{
    lemma_b64_char_value(m);
    lemma_b64_char_value(n);
}

/// A nonempty byte string encodes to at least one four-character group.
proof fn lemma_b64_nonempty(a: Seq<u8>)
    requires
        a.len() > 0,
    ensures
        base64_of(a).len() >= 4,
{
}

/// Equal Base64 digits mean equal three-byte values.
proof fn lemma_digits3(n: int, m: int)
    requires
        0 <= n < 0x1000000,
        0 <= m < 0x1000000,
        n / 0x40000 == m / 0x40000,
        (n / 0x1000) % 64 == (m / 0x1000) % 64,
        (n / 64) % 64 == (m / 64) % 64,
        n % 64 == m % 64,
    ensures
        n == m,
{
    vstd::arithmetic::div_mod::lemma_div_denominator(n, 64, 64);
    vstd::arithmetic::div_mod::lemma_div_denominator(m, 64, 64);
    vstd::arithmetic::div_mod::lemma_div_denominator(n, 0x1000, 64);
    vstd::arithmetic::div_mod::lemma_div_denominator(m, 0x1000, 64);
    assert(n == (n / 64) * 64 + n % 64);
    assert(n / 64 == ((n / 64) / 64) * 64 + (n / 64) % 64);
    assert(n / 0x1000 == ((n / 0x1000) / 64) * 64 + (n / 0x1000) % 64);
    assert(m == (m / 64) * 64 + m % 64);
    assert(m / 64 == ((m / 64) / 64) * 64 + (m / 64) % 64);
    assert(m / 0x1000 == ((m / 0x1000) / 64) * 64 + (m / 0x1000) % 64);
}

/// Equal Base64 digits mean equal two-byte values.
proof fn lemma_digits2(n: int, m: int)
    requires
        0 <= n < 0x10000,
        0 <= m < 0x10000,
        n / 0x400 == m / 0x400,
        (n / 16) % 64 == (m / 16) % 64,
        (n % 16) * 4 == (m % 16) * 4,
    ensures
        n == m,
{
    vstd::arithmetic::div_mod::lemma_div_denominator(n, 16, 64);
    vstd::arithmetic::div_mod::lemma_div_denominator(m, 16, 64);
    assert(n == (n / 16) * 16 + n % 16);
    assert(n / 16 == ((n / 16) / 64) * 64 + (n / 16) % 64);
    assert(m == (m / 16) * 16 + m % 16);
    assert(m / 16 == ((m / 16) / 64) * 64 + (m / 16) % 64);
}

/// Equal short encodings mean equal short byte strings.
proof fn lemma_b64_short(a: Seq<u8>, b: Seq<u8>)
    requires
        1 <= a.len() <= 2,
        1 <= b.len() <= 2,
        base64_of(a) == base64_of(b),
    ensures
        a == b,
{
    let n = if a.len() == 1 {
        a[0] as int
    } else {
        (a[0] as int) * 0x100 + (a[1] as int)
    };
    let m = if b.len() == 1 {
        b[0] as int
    } else {
        (b[0] as int) * 0x100 + (b[1] as int)
    };
    if a.len() == 1 && b.len() == 2 {
        lemma_b64_char_value((m % 16) * 4);
        assert(base64_of(a)[2] == '=');
        assert(false);
    } else if a.len() == 2 && b.len() == 1 {
        lemma_b64_char_value((n % 16) * 4);
        assert(base64_of(b)[2] == '=');
        assert(false);
    } else if a.len() == 1 {
        assert(base64_of(a)[0] == base64_of(b)[0]);
        assert(base64_of(a)[1] == base64_of(b)[1]);
        lemma_b64_char_injective(n / 4, m / 4);
        lemma_b64_char_injective((n % 4) * 16, (m % 4) * 16);
        assert(n == (n / 4) * 4 + n % 4);
        assert(m == (m / 4) * 4 + m % 4);
        assert(n == m);
        assert(a =~= b);
    } else {
        assert(base64_of(a)[0] == base64_of(b)[0]);
        assert(base64_of(a)[1] == base64_of(b)[1]);
        assert(base64_of(a)[2] == base64_of(b)[2]);
        lemma_b64_char_injective(n / 0x400, m / 0x400);
        lemma_b64_char_injective((n / 16) % 64, (m / 16) % 64);
        lemma_b64_char_injective((n % 16) * 4, (m % 16) * 4);
        lemma_digits2(n, m);
        assert(a[0] == b[0] && a[1] == b[1]);
        assert(a =~= b);
    }
}

/// A short encoding ends in padding, so it never equals a three-byte one.
proof fn lemma_b64_short_vs_three(a: Seq<u8>, b: Seq<u8>)
    requires
        1 <= a.len() <= 2,
        b.len() == 3,
    ensures
        base64_of(a) != base64_of(b),
{
    let m = (b[0] as int) * 0x10000 + (b[1] as int) * 0x100 + (b[2] as int);
    lemma_b64_char_value(m % 64);
    assert(b.skip(3).len() == 0);
    assert(base64_of(b.skip(3)) =~= Seq::<char>::empty());
    assert(base64_of(b) =~= seq![
        b64_char(m / 0x40000),
        b64_char((m / 0x1000) % 64),
        b64_char((m / 64) % 64),
        b64_char(m % 64),
    ]);
    assert(base64_of(a)[3] == '=');
    assert(base64_of(b)[3] != '=');
}

/// Equal long encodings open with the same three bytes and carry equal
/// tails.
proof fn lemma_b64_head3(a: Seq<u8>, b: Seq<u8>)
    requires
        a.len() >= 3,
        b.len() >= 3,
        base64_of(a) == base64_of(b),
    ensures
        a[0] == b[0] && a[1] == b[1] && a[2] == b[2],
        base64_of(a.skip(3)) == base64_of(b.skip(3)),
{
    let n = (a[0] as int) * 0x10000 + (a[1] as int) * 0x100 + (a[2] as int);
    let m = (b[0] as int) * 0x10000 + (b[1] as int) * 0x100 + (b[2] as int);
    let pa = seq![
        b64_char(n / 0x40000),
        b64_char((n / 0x1000) % 64),
        b64_char((n / 64) % 64),
        b64_char(n % 64),
    ];
    let pb = seq![
        b64_char(m / 0x40000),
        b64_char((m / 0x1000) % 64),
        b64_char((m / 64) % 64),
        b64_char(m % 64),
    ];
    assert(base64_of(a) == pa + base64_of(a.skip(3)));
    assert(base64_of(b) == pb + base64_of(b.skip(3)));
    assert(pa[0] == pb[0] && pa[1] == pb[1] && pa[2] == pb[2] && pa[3] == pb[3]) by {
        assert((pa + base64_of(a.skip(3)))[0] == pa[0]);
        assert((pa + base64_of(a.skip(3)))[1] == pa[1]);
        assert((pa + base64_of(a.skip(3)))[2] == pa[2]);
        assert((pa + base64_of(a.skip(3)))[3] == pa[3]);
        assert((pb + base64_of(b.skip(3)))[0] == pb[0]);
        assert((pb + base64_of(b.skip(3)))[1] == pb[1]);
        assert((pb + base64_of(b.skip(3)))[2] == pb[2]);
        assert((pb + base64_of(b.skip(3)))[3] == pb[3]);
    }
    lemma_b64_char_injective(n / 0x40000, m / 0x40000);
    lemma_b64_char_injective((n / 0x1000) % 64, (m / 0x1000) % 64);
    lemma_b64_char_injective((n / 64) % 64, (m / 64) % 64);
    lemma_b64_char_injective(n % 64, m % 64);
    lemma_digits3(n, m);
    assert(base64_of(a.skip(3)) =~= (pa + base64_of(a.skip(3))).subrange(
        4,
        (pa + base64_of(a.skip(3))).len() as int,
    ));
    assert(base64_of(b.skip(3)) =~= (pb + base64_of(b.skip(3))).subrange(
        4,
        (pb + base64_of(b.skip(3))).len() as int,
    ));
}

/// The coding is unambiguous: byte strings with the same canonical form
/// are the same.
pub proof fn lemma_base64_injective(a: Seq<u8>, b: Seq<u8>)
    requires
        base64_of(a) == base64_of(b),
    ensures
        a == b,
    decreases a.len(),
{
    if a.len() == 0 && b.len() == 0 {
        assert(a =~= b);
    } else if a.len() == 0 {
        lemma_b64_nonempty(b);
        assert(false);
    } else if b.len() == 0 {
        lemma_b64_nonempty(a);
        assert(false);
    } else if a.len() <= 2 && b.len() <= 2 {
        lemma_b64_short(a, b);
    } else if a.len() <= 2 {
        assert(base64_of(b).len() == 4 + base64_of(b.skip(3)).len());
        if b.skip(3).len() > 0 {
            lemma_b64_nonempty(b.skip(3));
        }
        assert(b.len() == 3);
        lemma_b64_short_vs_three(a, b);
        assert(false);
    } else if b.len() <= 2 {
        assert(base64_of(a).len() == 4 + base64_of(a.skip(3)).len());
        if a.skip(3).len() > 0 {
            lemma_b64_nonempty(a.skip(3));
        }
        assert(a.len() == 3);
        lemma_b64_short_vs_three(b, a);
        assert(false);
    } else {
        lemma_b64_head3(a, b);
        lemma_base64_injective(a.skip(3), b.skip(3));
        assert forall|i: int| 0 <= i < a.len() implies a[i] == b[i] by {
            if i >= 3 {
                assert(a[i] == a.skip(3)[i - 3]);
                assert(b[i] == b.skip(3)[i - 3]);
            }
        }
        assert(a.len() == b.len()) by {
            assert(a.skip(3).len() == b.skip(3).len());
        }
        assert(a =~= b);
    }
}

/// Relies on the `base64` crate's standard engine: encoding writes the
/// canonical padded form.
#[verifier::external_body]
pub(crate) fn base64_encode(data: &[u8]) -> (r: String)
    ensures
        r@ == base64_of(data@),
{
    base64::Engine::encode(&base64::engine::general_purpose::STANDARD, data)
}

/// Relies on the `base64` crate's standard engine: decoding accepts exactly
/// the canonical padded forms and returns the bytes they encode. The error
/// text is the crate's own.
#[verifier::external_body]
pub(crate) fn base64_decode(data: &str) -> (r: Result<Vec<u8>, String>)
    ensures
        r matches Ok(b) ==> data@ == base64_of(b@),
        r is Err ==> !(exists|b: Seq<u8>| data@ == base64_of(b)),
{
    match base64::Engine::decode(&base64::engine::general_purpose::STANDARD, data) {
        Ok(b) => Ok(b),
        Err(e) => Err(format!("{}", e)),
    }
}

/// Relies on std's `String::from_utf8`: succeeds exactly on UTF-8 byte
/// strings and returns the text they encode.
#[verifier::external_body]
pub(crate) fn bytes_to_utf8(data: Vec<u8>) -> (r: Option<String>)
    ensures
        r matches Some(s) ==> encode_utf8(s@) == data@ && valid_utf8(data@),
        r is None ==> !valid_utf8(data@),
{
    match String::from_utf8(data) {
        Ok(s) => Some(s),
        Err(_) => None,
    }
}

/// What the Base64 command answers: the title and body of a successful
/// transformation, or the title and message of a refusal.
pub fn base64_operation(operation: &Operation, data: &str) -> (r: Result<
    (&'static str, String),
    (&'static str, String),
>)
    ensures
        match operation {
            Operation::Encode => r matches Ok(t) && t.0@ == "Base64 Encoded"@ && t.1@
                == base64_of(data.spec_bytes()),
            Operation::Decode => {
                &&& (r is Ok <==> exists|bs: Seq<u8>|
                    data@ == base64_of(bs) && valid_utf8(bs))
                &&& match r {
                    Ok(t) => {
                        &&& t.0@ == "Base64 Decoded"@
                        &&& data@ == base64_of(encode_utf8(t.1@))
                        &&& valid_utf8(encode_utf8(t.1@))
                    },
                    Err(t) => t.0@ == "Base64 Error"@,
                }
            },
        },
{
    match operation {
        Operation::Encode => {
            let encoded = base64_encode(data.as_bytes());
            Ok(("Base64 Encoded", encoded))
        },
        Operation::Decode => match base64_decode(data) {
            Ok(decoded) => {
                let ghost decoded_bytes = decoded@;
                match bytes_to_utf8(decoded) {
                    Some(text) => Ok(("Base64 Decoded", text)),
                    None => {
                        proof {
                            assert(data@ == base64_of(decoded_bytes) && !valid_utf8(
                                decoded_bytes,
                            ));
                            assert forall|bs: Seq<u8>| data@ == base64_of(bs) implies !valid_utf8(
                                bs,
                            ) by {
                                lemma_base64_injective(bs, decoded_bytes);
                            }
                        }
                        Err(("Base64 Error", ("Decoded data is not valid UTF-8").to_owned()))
                    },
                }
            },
            Err(e) => {
                let mut msg = ("Invalid base64: ").to_owned();
                msg.append(e.as_str());
                Err(("Base64 Error", msg))
            },
        },
    }
}

} // verus!
