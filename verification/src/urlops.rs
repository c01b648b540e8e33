//! URL percent-encoding and decoding.
//!
//! Encoding is exact enough to state in full: every byte outside the
//! unreserved set becomes a percent escape. Decoding tolerates malformed
//! escapes in ways that take pages to restate, so its result is named.

use vstd::prelude::*;

use vstd::string::StringSliceAdditionalSpecFns;

verus! {

/// Which way the data is to be transformed.
#[derive(Debug, Clone)]
pub enum Operation {
    Encode,
    Decode,
}

/// The bytes percent-encoding leaves as they are: ASCII letters, digits,
/// `-`, `.`, `_` and `~`.
pub open spec fn url_unreserved(b: u8) -> bool {
    (48 <= b && b <= 57) || (65 <= b && b <= 90) || (97 <= b && b <= 122) || b == 45 || b == 46
        || b == 95 || b == 126
}

/// The uppercase hex digit for a value below 16.
pub open spec fn hex_digit_upper(n: u8) -> char {
    if n < 10 {
        ((48 + n) as u8) as char
    } else {
        ((55 + n) as u8) as char
    }
}

/// How one byte is written: itself, or `%` and two uppercase hex digits.
pub open spec fn url_enc_byte(b: u8) -> Seq<char> {
    if url_unreserved(b) {
        seq![b as char]
    } else {
        seq!['%', hex_digit_upper(b / 16), hex_digit_upper(b % 16)]
    }
}

/// The percent-encoded form of a byte string.
pub open spec fn url_encode_spec(bytes: Seq<u8>) -> Seq<char>
    decreases bytes.len(),
{
    if bytes.len() == 0 {
        Seq::<char>::empty()
    } else {
        url_enc_byte(bytes[0]) + url_encode_spec(bytes.drop_first())
    }
}

/// What `urlencoding::decode` reads out of a percent-encoded string, where
/// the bytes it yields are UTF-8.
pub uninterp spec fn url_decoded_of(s: Seq<char>) -> Option<Seq<char>>;

/// Relies on `urlencoding::encode`: percent-encodes every byte of the
/// UTF-8 form except the unreserved ones, with uppercase hex.
#[verifier::external_body]
pub(crate) fn url_encode(data: &str) -> (r: String)
    ensures
        r@ == url_encode_spec(data.spec_bytes()),
{
    urlencoding::encode(data).into_owned()
}

/// Relies on `urlencoding::decode`: resolves percent escapes, tolerating
/// stray `%`, and fails exactly where the bytes are not UTF-8. The error
/// text is the crate's own.
#[verifier::external_body]
pub(crate) fn url_decode(data: &str) -> (r: Result<String, String>)
    ensures
        r matches Ok(s) ==> url_decoded_of(data@) == Option::Some(s@),
        r is Err ==> url_decoded_of(data@) is None,
{
    match urlencoding::decode(data) {
        Ok(s) => Ok(s.into_owned()),
        Err(e) => Err(format!("{}", e)),
    }
}

/// What the URL command answers: the title and body of a successful
/// transformation, or the title and message of a refusal.
pub fn url_operation(operation: &Operation, data: &str) -> (r: Result<
    (&'static str, String),
    (&'static str, String),
>)
    ensures
        match operation {
            Operation::Encode => r matches Ok(t) && t.0@ == "URL Encoded"@ && t.1@
                == url_encode_spec(data.spec_bytes()),
            Operation::Decode => match r {
                Ok(t) => t.0@ == "URL Decoded"@ && url_decoded_of(data@) == Option::Some(t.1@),
                Err(t) => t.0@ == "URL Encoding Error"@ && url_decoded_of(data@) is None,
            },
        },
{
    match operation {
        Operation::Encode => Ok(("URL Encoded", url_encode(data))),
        Operation::Decode => match url_decode(data) {
            Ok(decoded) => Ok(("URL Decoded", decoded)),
            Err(e) => {
                let mut msg = ("Invalid URL encoding: ").to_owned();
                msg.append(e.as_str());
                Err(("URL Encoding Error", msg))
            },
        },
    }
}

} // verus!
