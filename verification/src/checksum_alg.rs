//! The checksum command's algorithm choice and its result formatting.

use vstd::prelude::*;

use crate::crypto::{adler32_of, calculate_adler32, calculate_crc32, crc32_of, hex_of};

verus! {

/// The checksums the command offers.
#[derive(Debug, Clone)]
pub enum ChecksumAlgorithm {
    CRC32,
    Adler32,
}

impl ChecksumAlgorithm {
    /// The algorithm's display name.
    pub fn name(&self) -> (r: &'static str)
        ensures
            match *self {
                ChecksumAlgorithm::CRC32 => r@ == "CRC32"@,
                ChecksumAlgorithm::Adler32 => r@ == "Adler32"@,
            },
    {
        match self {
            ChecksumAlgorithm::CRC32 => "CRC32",
            ChecksumAlgorithm::Adler32 => "Adler32",
        }
    }
}

/// A 32-bit word as its four big-endian bytes.
pub open spec fn be_bytes32(n: u32) -> Seq<u8> {
    seq![
        (n / 0x1000000) as u8,
        ((n / 0x10000) % 0x100) as u8,
        ((n / 0x100) % 0x100) as u8,
        (n % 0x100) as u8,
    ]
}

/// A 32-bit word written as eight lowercase hex digits.
pub open spec fn hex32_spec(n: u32) -> Seq<char> {
    hex_of(be_bytes32(n))
}

/// Writes a 32-bit word as eight lowercase hex digits.
pub fn format_hex32(n: u32) -> (r: String)
    ensures
        r@ == hex32_spec(n),
{
    let mut bytes: Vec<u8> = Vec::new();
    bytes.push((n / 0x1000000) as u8);
    bytes.push(((n / 0x10000) % 0x100) as u8);
    bytes.push(((n / 0x100) % 0x100) as u8);
    bytes.push((n % 0x100) as u8);
    proof {
        assert(bytes@ =~= be_bytes32(n));
    }
    crate::crypto::hex_encode(bytes.as_slice())
}

/// The value the chosen checksum assigns to a byte string.
pub open spec fn checksum_value_spec(alg: ChecksumAlgorithm, data: Seq<u8>) -> u32 {
    match alg {
        ChecksumAlgorithm::CRC32 => crc32_of(data),
        ChecksumAlgorithm::Adler32 => adler32_of(data),
    }
}

/// What the checksum command answers: the title naming the algorithm and
/// the checksum as eight hex digits.
pub fn checksum_result(algorithm: &ChecksumAlgorithm, data: &[u8]) -> (r: (String, String))
    ensures
        ({
            let title_name = match algorithm {
                ChecksumAlgorithm::CRC32 => "CRC32"@,
                ChecksumAlgorithm::Adler32 => "Adler32"@,
            };
            &&& r.0@ == title_name + " Checksum"@
            &&& r.1@ == hex32_spec(checksum_value_spec(*algorithm, data@))
        }),
{
    let value = match algorithm {
        ChecksumAlgorithm::CRC32 => calculate_crc32(data),
        ChecksumAlgorithm::Adler32 => calculate_adler32(data),
    };
    let mut title = algorithm.name().to_owned();
    title.append(" Checksum");
    (title, format_hex32(value))
}

} // verus!
