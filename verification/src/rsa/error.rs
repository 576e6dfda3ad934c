//! The closed set of failures the RSA core reports.

use vstd::prelude::*;

verus! {

/// A failure of the RSA core; each kind carries its report text.
///
/// Every operation surfaces one of these to the caller instead of
/// raising an unrecoverable fault.
#[derive(Clone, Debug)]
pub enum RSAError {
    /// The prime source failed, or repeated retries could not find a
    /// usable pair of primes for the fixed public exponent.
    PrimeNumberGenerationError(String),
    /// An internal signed/unsigned integer conversion failed during the
    /// modular-inverse computation.
    ConvertBigUIntToBigIntError(String),
    /// The supplied ciphertext string could not be decoded by the
    /// transport decode hook.
    ConvertCipherToHexError(String),
    /// The plaintext, interpreted as an integer, is not strictly less
    /// than the modulus.
    MessageSizeLimitExceededError(String),
}

impl RSAError {
    /// The report text carried by the failure.
    pub fn detail(&self) -> (r: &String)
        ensures
            match *self {
                RSAError::PrimeNumberGenerationError(ref s) => r == s,
                RSAError::ConvertBigUIntToBigIntError(ref s) => r == s,
                RSAError::ConvertCipherToHexError(ref s) => r == s,
                RSAError::MessageSizeLimitExceededError(ref s) => r == s,
            },
    {
        match self {
            RSAError::PrimeNumberGenerationError(s) => s,
            RSAError::ConvertBigUIntToBigIntError(s) => s,
            RSAError::ConvertCipherToHexError(s) => s,
            RSAError::MessageSizeLimitExceededError(s) => s,
        }
    }
}

} // verus!
