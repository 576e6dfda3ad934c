//! Size classes for key generation and transport strategies for
//! ciphertext text representation.

use vstd::prelude::*;

verus! {

/// A selector for the target modulus bit length, chosen at
/// key-generation time only.
#[derive(Clone, Copy, PartialEq, Eq, Structural, Debug)]
pub enum RSAType {
    RSA256,
    RSA512,
    RSA1024,
    RSA2048,
}

/// The modulus bit length that a size class asks for.
pub open spec fn modulus_bits_spec(t: RSAType) -> nat {
    match t {
        RSAType::RSA256 => 256,
        RSAType::RSA512 => 512,
        RSAType::RSA1024 => 1024,
        RSAType::RSA2048 => 2048,
    }
}

impl RSAType {
    /// The modulus bit length that this size class asks for.
    pub fn modulus_bits(&self) -> (r: u64)
        ensures
            r as nat == modulus_bits_spec(*self),
            r >= 256,
    {
        match self {
            RSAType::RSA256 => 256,
            RSAType::RSA512 => 512,
            RSAType::RSA1024 => 1024,
            RSAType::RSA2048 => 2048,
        }
    }
}

/// The transport encoding applied around raw ciphertext bytes: either
/// the bytes themselves stand for the ciphertext text, or a printable
/// hexadecimal form of them does.  Each encrypt or decrypt call chooses
/// independently.
#[derive(Clone, Copy, PartialEq, Eq, Structural, Debug)]
pub enum Transport {
    /// Ciphertext text is the raw bytes read as text.
    Identity,
    /// Ciphertext text is the lowercase hexadecimal form of the bytes.
    Hex,
}

} // verus!
