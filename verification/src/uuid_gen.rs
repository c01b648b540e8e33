//! UUID generation and analysis.
//!
//! Generation comes from the `uuid` crate behind trusted wrappers that
//! promise only what its documentation does: sixteen bytes with the version
//! and variant bits set. Everything read back out of those bytes is
//! computed and proved here.

use vstd::prelude::*;

use crate::crypto::{hex_digit, hex_of};
use crate::strutil::{dec_spec, push_char, push_decimal};

verus! {

/// Which UUID version to generate.
#[derive(Debug, Clone)]
pub enum UuidVersion {
    V1,
    V4,
    V7,
}

/// Relies on `uuid::Uuid::now_v1`: sixteen bytes carrying the version-1
/// timestamp layout, with the version nibble 1, the RFC variant, and the
/// node id as the last six bytes.
#[verifier::external_body]
fn generate_v1(node: &[u8; 6]) -> (r: Vec<u8>)
    ensures
        r@.len() == 16,
        r@[6] / 16 == 1,
        r@[8] / 64 == 2,
        r@.skip(10) == node@,
{
    uuid::Uuid::now_v1(node).as_bytes().to_vec()
}

/// Relies on `uuid::Uuid::new_v4`: sixteen random bytes with the version
/// nibble 4 and the RFC variant.
#[verifier::external_body]
fn generate_v4() -> (r: Vec<u8>)
    ensures
        r@.len() == 16,
        r@[6] / 16 == 4,
        r@[8] / 64 == 2,
{
    uuid::Uuid::new_v4().as_bytes().to_vec()
}

/// Relies on `uuid::Uuid::now_v7`: sixteen bytes opening with the
/// millisecond timestamp, with the version nibble 7 and the RFC variant.
#[verifier::external_body]
fn generate_v7() -> (r: Vec<u8>)
    ensures
        r@.len() == 16,
        r@[6] / 16 == 7,
        r@[8] / 64 == 2,
{
    uuid::Uuid::now_v7().as_bytes().to_vec()
}

/// The version nibble each variant stamps into byte six.
pub open spec fn version_nibble(v: UuidVersion) -> int {
    match v {
        UuidVersion::V1 => 1,
        UuidVersion::V4 => 4,
        UuidVersion::V7 => 7,
    }
}

impl UuidVersion {
    /// Generates one UUID of this version as its sixteen raw bytes.
    pub fn generate(&self) -> (r: Vec<u8>)
        ensures
            r@.len() == 16,
            r@[6] / 16 == version_nibble(*self),
            r@[8] / 64 == 2,
    {
        match self {
            UuidVersion::V1 => generate_v1(&[1, 2, 3, 4, 5, 6]),
            UuidVersion::V4 => generate_v4(),
            UuidVersion::V7 => generate_v7(),
        }
    }

    /// The one-line description of this version.
    pub fn description(&self) -> (r: &'static str)
        ensures
            match *self {
                UuidVersion::V1 => r@ == "**Version 1** - Timestamp + MAC address based"@,
                UuidVersion::V4 => r@ == "**Version 4** - Random/pseudo-random"@,
                UuidVersion::V7 => r@ == "**Version 7** - Unix timestamp + random"@,
            },
    {
        match self {
            UuidVersion::V1 => "**Version 1** - Timestamp + MAC address based",
            UuidVersion::V4 => "**Version 4** - Random/pseudo-random",
            UuidVersion::V7 => "**Version 7** - Unix timestamp + random",
        }
    }
}

/// The lowercase hex of a byte range, written into the hyphenated layout.
pub open spec fn uuid_hyphenated_spec(b: Seq<u8>) -> Seq<char> {
    hex_of(b.subrange(0, 4)) + "-"@ + hex_of(b.subrange(4, 6)) + "-"@ + hex_of(b.subrange(6, 8))
        + "-"@ + hex_of(b.subrange(8, 10)) + "-"@ + hex_of(b.subrange(10, 16))
}

/// Appends the lowercase hex of `bytes[from..to]`.
fn push_hex_range(out: &mut String, bytes: &Vec<u8>, from: usize, to: usize)
    requires
        from <= to <= bytes@.len(),
    ensures
        final(out)@ == old(out)@ + hex_of(bytes@.subrange(from as int, to as int)),
{
    let ghost sub = bytes@.subrange(from as int, to as int);
    let mut i: usize = from;
    while i < to
        invariant
            from <= i <= to <= bytes@.len(),
            sub == bytes@.subrange(from as int, to as int),
            out@ =~= old(out)@ + hex_of(sub).take(2 * (i - from)),
        decreases to - i,
    {
        let b = bytes[i];
        let hi = b / 16;
        let lo = b % 16;
        let hc = if hi < 10 {
            (48 + hi) as char
        } else {
            (87 + hi) as char
        };
        let lc = if lo < 10 {
            (48 + lo) as char
        } else {
            (87 + lo) as char
        };
        proof {
            assert(sub[i - from] == bytes@[i as int]);
            assert(hc == hex_digit(sub[i - from] / 16));
            assert(lc == hex_digit(sub[i - from] % 16));
        }
        push_char(out, hc);
        push_char(out, lc);
        proof {
            let k = i - from;
            assert((2 * k) / 2 == k) by (nonlinear_arith);
            assert((2 * k + 1) / 2 == k) by (nonlinear_arith);
            assert(out@ =~= old(out)@ + hex_of(sub).take(2 * (k + 1)));
        }
        i += 1;
    }
    proof {
        assert(hex_of(sub).take(2 * (to - from)) =~= hex_of(sub));
    }
}

/// Writes sixteen UUID bytes in the usual 8-4-4-4-12 hyphenated form.
pub fn format_uuid_hyphenated(bytes: &Vec<u8>) -> (r: String)
    requires
        bytes@.len() == 16,
    ensures
        r@ == uuid_hyphenated_spec(bytes@),
{
    let mut out = String::new();
    push_hex_range(&mut out, bytes, 0, 4);
    out.append("-");
    push_hex_range(&mut out, bytes, 4, 6);
    out.append("-");
    push_hex_range(&mut out, bytes, 6, 8);
    out.append("-");
    push_hex_range(&mut out, bytes, 8, 10);
    out.append("-");
    push_hex_range(&mut out, bytes, 10, 16);
    proof {
        assert(out@ =~= uuid_hyphenated_spec(bytes@));
    }
    out
}

/// Writes sixteen UUID bytes as plain lowercase hex.
pub fn format_uuid_simple(bytes: &Vec<u8>) -> (r: String)
    requires
        bytes@.len() == 16,
    ensures
        r@ == hex_of(bytes@),
{
    let mut out = String::new();
    push_hex_range(&mut out, bytes, 0, 16);
    proof {
        assert(bytes@.subrange(0, 16) =~= bytes@);
        assert(Seq::<char>::empty() + hex_of(bytes@) =~= hex_of(bytes@));
    }
    out
}

/// The 60-bit version-1 timestamp held in the first eight bytes: the low
/// twelve bits of bytes six and seven, then bytes four and five, then bytes
/// zero to three, big-endian.
pub open spec fn v1_timestamp_spec(b: Seq<u8>) -> int {
    let time_low = (b[0] as int) * 0x1000000 + (b[1] as int) * 0x10000 + (b[2] as int) * 0x100 + (
    b[3] as int);
    let time_mid = (b[4] as int) * 0x100 + (b[5] as int);
    let time_hi = ((b[6] as int) * 0x100 + (b[7] as int)) % 0x1000;
    time_hi * 0x1000000000000 + time_mid * 0x100000000 + time_low
}

/// The 14-bit version-1 clock sequence: the low six bits of byte eight,
/// then byte nine.
pub open spec fn v1_clock_seq_spec(b: Seq<u8>) -> int {
    ((b[8] as int) % 0x40) * 0x100 + (b[9] as int)
}

/// The node id of a version-1 UUID written as six colon-separated hex
/// pairs.
pub open spec fn v1_node_spec(b: Seq<u8>) -> Seq<char> {
    hex_of(b.subrange(10, 11)) + ":"@ + hex_of(b.subrange(11, 12)) + ":"@ + hex_of(
        b.subrange(12, 13),
    ) + ":"@ + hex_of(b.subrange(13, 14)) + ":"@ + hex_of(b.subrange(14, 15)) + ":"@ + hex_of(
        b.subrange(15, 16),
    )
}

/// The analysis text of a version-1 UUID.
pub open spec fn analyze_v1_spec(b: Seq<u8>) -> Seq<char> {
    "• **Timestamp:** "@ + dec_spec(v1_timestamp_spec(b)) + " (100ns intervals since 1582)\n• **Clock Sequence:** "@
        + dec_spec(v1_clock_seq_spec(b)) + "\n• **Node (MAC):** "@ + v1_node_spec(b)
}

/// Reads the timestamp, clock sequence and node id out of a version-1
/// UUID's bytes.
pub fn analyze_uuid_v1(bytes: &Vec<u8>) -> (r: String)
    requires
        bytes@.len() == 16,
    ensures
        r@ == analyze_v1_spec(bytes@),
{
    let time_low: u64 = (bytes[0] as u64) * 0x1000000 + (bytes[1] as u64) * 0x10000 + (
    bytes[2] as u64) * 0x100 + (bytes[3] as u64);
    let time_mid: u64 = (bytes[4] as u64) * 0x100 + (bytes[5] as u64);
    let time_hi: u64 = ((bytes[6] as u64) * 0x100 + (bytes[7] as u64)) % 0x1000;
    let timestamp: u64 = time_hi * 0x1000000000000 + time_mid * 0x100000000 + time_low;
    let clock_seq: u64 = ((bytes[8] as u64) % 0x40) * 0x100 + (bytes[9] as u64);
    let mut out = ("• **Timestamp:** ").to_owned();
    push_decimal(&mut out, timestamp);
    out.append(" (100ns intervals since 1582)\n• **Clock Sequence:** ");
    push_decimal(&mut out, clock_seq);
    out.append("\n• **Node (MAC):** ");
    push_hex_range(&mut out, bytes, 10, 11);
    out.append(":");
    push_hex_range(&mut out, bytes, 11, 12);
    out.append(":");
    push_hex_range(&mut out, bytes, 12, 13);
    out.append(":");
    push_hex_range(&mut out, bytes, 13, 14);
    out.append(":");
    push_hex_range(&mut out, bytes, 14, 15);
    out.append(":");
    push_hex_range(&mut out, bytes, 15, 16);
    proof {
        assert(timestamp == v1_timestamp_spec(bytes@));
        assert(clock_seq == v1_clock_seq_spec(bytes@));
        assert(out@ =~= analyze_v1_spec(bytes@));
    }
    out
}

/// The analysis text of a version-4 UUID, which carries nothing but
/// randomness.
pub open spec fn analyze_v4_spec() -> Seq<char> {
    "• **Random Bytes:** 122 bits of randomness\n• **Collision Probability:** ~2^-122 (astronomically low)"@
}

/// Describes what a version-4 UUID contains.
pub fn analyze_uuid_v4() -> (r: String)
    ensures
        r@ == analyze_v4_spec(),
{
    (
    "• **Random Bytes:** 122 bits of randomness\n• **Collision Probability:** ~2^-122 (astronomically low)").to_owned()
}

/// The millisecond timestamp in the first six bytes of a version-7 UUID,
/// big-endian.
pub open spec fn v7_millis_spec(b: Seq<u8>) -> int {
    (b[0] as int) * 0x10000000000 + (b[1] as int) * 0x100000000 + (b[2] as int) * 0x1000000 + (
    b[3] as int) * 0x10000 + (b[4] as int) * 0x100 + (b[5] as int)
}

/// Reads the millisecond timestamp out of a version-7 UUID's bytes.
pub fn v7_timestamp_millis(bytes: &Vec<u8>) -> (r: u64)
    requires
        bytes@.len() == 16,
    ensures
        r == v7_millis_spec(bytes@),
{
    (bytes[0] as u64) * 0x10000000000 + (bytes[1] as u64) * 0x100000000 + (bytes[2] as u64)
        * 0x1000000 + (bytes[3] as u64) * 0x10000 + (bytes[4] as u64) * 0x100 + (bytes[5] as u64)
}

/// The analysis text of a version-7 UUID, around the calendar rendering of
/// its timestamp handed in.
pub open spec fn analyze_v7_spec(b: Seq<u8>, datetime: Seq<char>) -> Seq<char> {
    "• **Timestamp:** "@ + datetime + " UTC\n• **Milliseconds:** "@ + dec_spec(v7_millis_spec(b))
        + "\n• **Random Data:** 74 bits"@
}

/// The analysis text of a UUID, by its version; the version-7 text embeds
/// the calendar rendering handed in.
pub open spec fn analyze_spec(b: Seq<u8>, version: UuidVersion, v7_datetime: Seq<char>) -> Seq<
    char,
> {
    match version {
        UuidVersion::V1 => analyze_v1_spec(b),
        UuidVersion::V4 => analyze_v4_spec(),
        UuidVersion::V7 => analyze_v7_spec(b, v7_datetime),
    }
}

/// Breaks a UUID's bytes down by its version; version 7 embeds the
/// calendar rendering of its timestamp, handed in.
pub fn analyze_uuid(bytes: &Vec<u8>, version: &UuidVersion, v7_datetime: &str) -> (r: String)
    requires
        bytes@.len() == 16,
    ensures
        r@ == analyze_spec(bytes@, *version, v7_datetime@),
{
    match version {
        UuidVersion::V1 => analyze_uuid_v1(bytes),
        UuidVersion::V4 => analyze_uuid_v4(),
        UuidVersion::V7 => analyze_uuid_v7(bytes, v7_datetime),
    }
}

/// Reads the timestamp out of a version-7 UUID's bytes; the calendar
/// rendering of that timestamp is handed in.
pub fn analyze_uuid_v7(bytes: &Vec<u8>, datetime: &str) -> (r: String)
    requires
        bytes@.len() == 16,
    ensures
        r@ == analyze_v7_spec(bytes@, datetime@),
{
    let ms = v7_timestamp_millis(bytes);
    let mut out = ("• **Timestamp:** ").to_owned();
    out.append(datetime);
    out.append(" UTC\n• **Milliseconds:** ");
    push_decimal(&mut out, ms);
    out.append("\n• **Random Data:** 74 bits");
    proof {
        assert(out@ =~= analyze_v7_spec(bytes@, datetime@));
    }
    out
}

} // verus!
