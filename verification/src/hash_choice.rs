//! The hash command's algorithm choice.

use vstd::prelude::*;

use crate::crypto::HashAlgorithm;

verus! {

/// The algorithms the hash command offers.
#[derive(Debug, Clone)]
pub enum HashChoice {
    MD5,
    SHA1,
    SHA224,
    SHA256,
    SHA384,
    SHA512,
}

/// The algorithm each choice stands for.
pub open spec fn choice_algorithm(c: HashChoice) -> HashAlgorithm {
    match c {
        HashChoice::MD5 => HashAlgorithm::Md5,
        HashChoice::SHA1 => HashAlgorithm::Sha1,
        HashChoice::SHA224 => HashAlgorithm::Sha224,
        HashChoice::SHA256 => HashAlgorithm::Sha256,
        HashChoice::SHA384 => HashAlgorithm::Sha384,
        HashChoice::SHA512 => HashAlgorithm::Sha512,
    }
}

impl HashChoice {
    /// The algorithm this choice runs.
    pub fn to_algorithm(&self) -> (r: HashAlgorithm)
        ensures
            r == choice_algorithm(*self),
    {
        match self {
            HashChoice::MD5 => HashAlgorithm::Md5,
            HashChoice::SHA1 => HashAlgorithm::Sha1,
            HashChoice::SHA224 => HashAlgorithm::Sha224,
            HashChoice::SHA256 => HashAlgorithm::Sha256,
            HashChoice::SHA384 => HashAlgorithm::Sha384,
            HashChoice::SHA512 => HashAlgorithm::Sha512,
        }
    }

    /// The choice's display name.
    pub fn name(&self) -> (r: &'static str)
        ensures
            match *self {
                HashChoice::MD5 => r@ == "MD5"@,
                HashChoice::SHA1 => r@ == "SHA1"@,
                HashChoice::SHA224 => r@ == "SHA224"@,
                HashChoice::SHA256 => r@ == "SHA256"@,
                HashChoice::SHA384 => r@ == "SHA384"@,
                HashChoice::SHA512 => r@ == "SHA512"@,
            },
    {
        match self {
            HashChoice::MD5 => "MD5",
            HashChoice::SHA1 => "SHA1",
            HashChoice::SHA224 => "SHA224",
            HashChoice::SHA256 => "SHA256",
            HashChoice::SHA384 => "SHA384",
            HashChoice::SHA512 => "SHA512",
        }
    }
}

} // verus!
