//! Digest and checksum primitives.
//!
//! The digests themselves come from their reference implementations and are
//! named, not restated; turning a digest into its lowercase hex form is done
//! and proved here.

use vstd::prelude::*;

use crate::strutil::push_char;

verus! {

/// The MD5 digest of a byte string.
pub uninterp spec fn md5_of(bytes: Seq<u8>) -> Seq<u8>;

/// The SHA-1 digest of a byte string.
pub uninterp spec fn sha1_of(bytes: Seq<u8>) -> Seq<u8>;

/// The SHA-224 digest of a byte string.
pub uninterp spec fn sha224_of(bytes: Seq<u8>) -> Seq<u8>;

/// The SHA-256 digest of a byte string.
pub uninterp spec fn sha256_of(bytes: Seq<u8>) -> Seq<u8>;

/// The SHA-384 digest of a byte string.
pub uninterp spec fn sha384_of(bytes: Seq<u8>) -> Seq<u8>;

/// The SHA-512 digest of a byte string.
pub uninterp spec fn sha512_of(bytes: Seq<u8>) -> Seq<u8>;

/// The BLAKE3 digest of a byte string.
pub uninterp spec fn blake3_of(bytes: Seq<u8>) -> Seq<u8>;

/// The CRC-32 (IEEE) checksum of a byte string.
pub uninterp spec fn crc32_of(bytes: Seq<u8>) -> u32;

/// The Adler-32 checksum of a byte string.
pub uninterp spec fn adler32_of(bytes: Seq<u8>) -> u32;

/// Relies on `md5::compute`: the 16-byte MD5 digest of the input.
#[verifier::external_body]
fn md5_digest(input: &[u8]) -> (r: Vec<u8>)
    ensures
        r@ == md5_of(input@),
        r@.len() == 16,
{
    md5::compute(input).0.to_vec()
}

/// Relies on `sha1::Sha1` through the `Digest` trait: the 20-byte SHA-1
/// digest of the input.
#[verifier::external_body]
fn sha1_digest(input: &[u8]) -> (r: Vec<u8>)
    ensures
        r@ == sha1_of(input@),
        r@.len() == 20,
{
    <sha1::Sha1 as sha1::Digest>::digest(input).to_vec()
}

/// Relies on `sha2::Sha224` through the `Digest` trait: the 28-byte SHA-224
/// digest of the input.
#[verifier::external_body]
fn sha224_digest(input: &[u8]) -> (r: Vec<u8>)
    ensures
        r@ == sha224_of(input@),
        r@.len() == 28,
{
    <sha2::Sha224 as sha2::Digest>::digest(input).to_vec()
}

/// Relies on `sha2::Sha256` through the `Digest` trait: the 32-byte SHA-256
/// digest of the input.
#[verifier::external_body]
fn sha256_digest(input: &[u8]) -> (r: Vec<u8>)
    ensures
        r@ == sha256_of(input@),
        r@.len() == 32,
{
    <sha2::Sha256 as sha2::Digest>::digest(input).to_vec()
}

/// Relies on `sha2::Sha384` through the `Digest` trait: the 48-byte SHA-384
/// digest of the input.
#[verifier::external_body]
fn sha384_digest(input: &[u8]) -> (r: Vec<u8>)
    ensures
        r@ == sha384_of(input@),
        r@.len() == 48,
{
    <sha2::Sha384 as sha2::Digest>::digest(input).to_vec()
}

/// Relies on `sha2::Sha512` through the `Digest` trait: the 64-byte SHA-512
/// digest of the input.
#[verifier::external_body]
fn sha512_digest(input: &[u8]) -> (r: Vec<u8>)
    ensures
        r@ == sha512_of(input@),
        r@.len() == 64,
{
    <sha2::Sha512 as sha2::Digest>::digest(input).to_vec()
}

/// Relies on `blake3::hash`: the 32-byte BLAKE3 digest of the input.
#[verifier::external_body]
fn blake3_digest(input: &[u8]) -> (r: Vec<u8>)
    ensures
        r@ == blake3_of(input@),
        r@.len() == 32,
{
    blake3::hash(input).as_bytes().to_vec()
}

/// Relies on `crc32fast::hash`: the CRC-32 (IEEE) checksum of the input.
#[verifier::external_body]
pub fn calculate_crc32(input: &[u8]) -> (r: u32)
    ensures
        r == crc32_of(input@),
{
    crc32fast::hash(input)
}

/// Relies on `adler::adler32_slice`: the Adler-32 checksum of the input.
#[verifier::external_body]
pub fn calculate_adler32(input: &[u8]) -> (r: u32)
    ensures
        r == adler32_of(input@),
{
    adler::adler32_slice(input)
}

/// The wrapping sum of all bytes.
pub open spec fn byte_sum(bytes: Seq<u8>) -> u32
    decreases bytes.len(),
{
    if bytes.len() == 0 {
        0u32
    } else {
        vstd::wrapping::u32_specs::wrapping_add(byte_sum(bytes.drop_last()), bytes.last() as u32)
    }
}

/// The plain byte-sum checksum: every byte added up, wrapping at 32 bits.
pub fn calculate_checksum(input: &[u8]) -> (r: u32)
    ensures
        r == byte_sum(input@),
{
    let mut acc: u32 = 0;
    let mut i: usize = 0;
    while i < input.len()
        invariant
            i <= input@.len(),
            acc == byte_sum(input@.take(i as int)),
        decreases input@.len() - i,
    {
        let b = input[i];
        acc = acc.wrapping_add(b as u32);
        proof {
            assert(input@.take(i + 1).drop_last() =~= input@.take(i as int));
            assert(input@.take(i + 1).last() == b);
        }
        i += 1;
    }
    proof {
        assert(input@.take(input@.len() as int) =~= input@);
    }
    acc
}

/// The lowercase hex digit for a value below 16.
pub open spec fn hex_digit(n: u8) -> char {
    if n < 10 {
        ((48 + n) as u8) as char
    } else {
        ((87 + n) as u8) as char
    }
}

/// The lowercase hex form of a byte string: two digits for each byte, in
/// order, high nibble first.
pub open spec fn hex_of(bytes: Seq<u8>) -> Seq<char> {
    Seq::new(
        bytes.len() * 2,
        |i: int|
            if i % 2 == 0 {
                hex_digit(bytes[i / 2] / 16)
            } else {
                hex_digit(bytes[i / 2] % 16)
            },
    )
}

/// Writes a byte string as lowercase hex.
pub fn hex_encode(bytes: &[u8]) -> (r: String)
    ensures
        r@ == hex_of(bytes@),
{
    let mut out = String::new();
    let mut i: usize = 0;
    while i < bytes.len()
        invariant
            i <= bytes@.len(),
            out@ =~= hex_of(bytes@).take(2 * i as int),
        decreases bytes@.len() - i,
    {
        let b = bytes[i];
        let hi = b / 16;
        let lo = b % 16;
        let hc = if hi < 10 {
            (48 + hi) as char
        } else {
            (87 + hi) as char
        };
        let lc = if lo < 10 {
            (48 + lo) as char
        } else {
            (87 + lo) as char
        };
        proof {
            assert(hc == hex_digit(b / 16));
            assert(lc == hex_digit(b % 16));
        }
        push_char(&mut out, hc);
        push_char(&mut out, lc);
        proof {
            assert((2 * i as int) / 2 == i as int) by (nonlinear_arith);
            assert((2 * i as int + 1) / 2 == i as int) by (nonlinear_arith);
            assert(out@ =~= hex_of(bytes@).take(2 * (i + 1) as int));
        }
        i += 1;
    }
    proof {
        assert(hex_of(bytes@).take(2 * bytes@.len() as int) =~= hex_of(bytes@));
    }
    out
}

/// The hash algorithms the library offers.
#[derive(Debug, Clone)]
pub enum HashAlgorithm {
    Md5,
    Sha1,
    Sha224,
    Sha256,
    Sha384,
    Sha512,
    Blake3,
}

/// The digest that `alg` assigns to a byte string.
pub open spec fn digest_of(alg: HashAlgorithm, bytes: Seq<u8>) -> Seq<u8> {
    match alg {
        HashAlgorithm::Md5 => md5_of(bytes),
        HashAlgorithm::Sha1 => sha1_of(bytes),
        HashAlgorithm::Sha224 => sha224_of(bytes),
        HashAlgorithm::Sha256 => sha256_of(bytes),
        HashAlgorithm::Sha384 => sha384_of(bytes),
        HashAlgorithm::Sha512 => sha512_of(bytes),
        HashAlgorithm::Blake3 => blake3_of(bytes),
    }
}

impl HashAlgorithm {
    /// The algorithm's digest of `input`, written as lowercase hex.
    pub fn hash(&self, input: &[u8]) -> (r: String)
        ensures
            r@ == hex_of(digest_of(*self, input@)),
    {
        let digest = match self {
            HashAlgorithm::Md5 => md5_digest(input),
            HashAlgorithm::Sha1 => sha1_digest(input),
            HashAlgorithm::Sha224 => sha224_digest(input),
            HashAlgorithm::Sha256 => sha256_digest(input),
            HashAlgorithm::Sha384 => sha384_digest(input),
            HashAlgorithm::Sha512 => sha512_digest(input),
            HashAlgorithm::Blake3 => blake3_digest(input),
        };
        hex_encode(digest.as_slice())
    }

    /// The algorithm's display name.
    pub fn name(&self) -> (r: &'static str)
        ensures
            match *self {
                HashAlgorithm::Md5 => r@ == "MD5"@,
                HashAlgorithm::Sha1 => r@ == "SHA-1"@,
                HashAlgorithm::Sha224 => r@ == "SHA-224"@,
                HashAlgorithm::Sha256 => r@ == "SHA-256"@,
                HashAlgorithm::Sha384 => r@ == "SHA-384"@,
                HashAlgorithm::Sha512 => r@ == "SHA-512"@,
                HashAlgorithm::Blake3 => r@ == "BLAKE3"@,
            },
    {
        match self {
            HashAlgorithm::Md5 => "MD5",
            HashAlgorithm::Sha1 => "SHA-1",
            HashAlgorithm::Sha224 => "SHA-224",
            HashAlgorithm::Sha256 => "SHA-256",
            HashAlgorithm::Sha384 => "SHA-384",
            HashAlgorithm::Sha512 => "SHA-512",
            HashAlgorithm::Blake3 => "BLAKE3",
        }
    }
}

} // verus!
