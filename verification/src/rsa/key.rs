//! Key pairs, key generation, and the modular-exponentiation
//! transform shared by encryption and decryption.

use vstd::prelude::*;
use vstd::utf8::valid_utf8;
use vstd::utf8::decode_utf8;
use vstd::utf8::encode_utf8;
use num_bigint::BigUint;
use crate::rsa::bignum::{
    nat_of, be_nat, min_be, pow_nat, bit_len, bu_from_u64, bu_from_bytes_be, bu_to_bytes_be,
    bu_mul, bu_dec, bu_modpow, bu_modinv, bu_eq, bu_clone, bu_bits, random_prime,
    prime_failure_text,
};
use crate::rsa::codec::{
    lossy_chars, is_hex_text, unhex, hex_of, hex_encode, hex_decode, hex_failure_text,
    bytes_to_text, encode_message, decode_message,
};
use crate::rsa::domain::{RSAType, Transport, modulus_bits_spec};
use crate::rsa::error::RSAError;

verus! {

/// The fixed public exponent used by key generation.
pub const PUBLIC_EXPONENT: u64 = 65537;

/// How many times generation retries a fresh prime pair before it
/// reports failure.
pub const KEY_GENERATION_ATTEMPTS: u64 = 64;

/// The public half of a key pair.
///
/// A key may also be built directly from externally supplied integers;
/// that bypass is allowed and is not validated for the algebraic
/// invariants, so malformed key material transforms silently wrong.
pub struct RSAPublicKey {
    pub modulus: BigUint,
    pub public_exponent: BigUint,
}

/// A private key; it embeds the matching public key.
pub struct RSAPrivateKey {
    pub public_key: RSAPublicKey,
    pub private_exponent: BigUint,
}

/// The algebraic tie between a generated key and the primes behind it:
/// the modulus is the product of the two distinct primes, and the two
/// exponents are inverse to each other modulo `(p-1)*(q-1)`.
pub open spec fn rsa_key_rel(n: nat, e: nat, d: nat, p: nat, q: nat) -> bool {
    &&& p != q
    &&& 3 <= p
    &&& 3 <= q
    &&& n == p * q
    &&& 1 <= d < (p - 1) * (q - 1)
    &&& (e * d) as int % ((p - 1) * (q - 1)) == 1
}

/// What generation promises of a key it returns for a size class.
pub open spec fn generated_key_ok(k: RSAPrivateKey, t: RSAType) -> bool {
    &&& nat_of(k.public_key.public_exponent) == PUBLIC_EXPONENT
    &&& 1 < nat_of(k.public_key.public_exponent) < nat_of(k.public_key.modulus)
    &&& bit_len(nat_of(k.public_key.modulus)) == modulus_bits_spec(t)
    &&& exists|p: nat, q: nat|
        rsa_key_rel(
            nat_of(k.public_key.modulus),
            PUBLIC_EXPONENT as nat,
            nat_of(k.private_exponent),
            p,
            q,
        )
}

/// The raw ciphertext bytes for message bytes under modulus `n` and
/// exponent `e`.
pub open spec fn cipher_bytes_spec(n: nat, e: nat, msg: Seq<u8>) -> Seq<u8>
    recommends
        n > 0,
{
    min_be(pow_nat(be_nat(msg), e) % n)
}

/// The plaintext bytes recovered from ciphertext bytes under modulus
/// `n` and exponent `d`.
pub open spec fn plain_bytes_spec(n: nat, d: nat, cipher: Seq<u8>) -> Seq<u8>
    recommends
        n > 0,
{
    min_be(pow_nat(be_nat(cipher), d) % n)
}

/// The shared transform of encryption and decryption:
/// `value ^ exponent mod modulus`.
pub fn transform(value: &BigUint, exponent: &BigUint, modulus: &BigUint) -> (r: BigUint)
    requires
        nat_of(*modulus) > 0,
    ensures
        nat_of(r) == pow_nat(nat_of(*value), nat_of(*exponent)) % nat_of(*modulus),
{
    bu_modpow(value, exponent, modulus)
}

impl RSAPrivateKey {
    /// Generates a key pair for the size class: two independent random
    /// primes of half the target bit length, retried until they differ
    /// and the modulus fills the target bit length; the fixed public
    /// exponent; and its modular inverse as the private exponent,
    /// retried when the exponent is not coprime to `(p-1)*(q-1)`.
    /// Retries are bounded; exhausting them, or a prime source
    /// failure, reports `PrimeNumberGenerationError`.
    pub fn new(rsa_type: RSAType) -> (r: Result<RSAPrivateKey, RSAError>)
        ensures
            r matches Ok(k) ==> generated_key_ok(k, rsa_type),
            r matches Err(e) ==> e is PrimeNumberGenerationError,
    {
        let target_bits = rsa_type.modulus_bits();
        let half_bits = target_bits / 2;
        let mut attempt: u64 = 0;
        while attempt < KEY_GENERATION_ATTEMPTS
            invariant
                target_bits as nat == modulus_bits_spec(rsa_type),
                target_bits >= 256,
                half_bits == target_bits / 2,
            decreases KEY_GENERATION_ATTEMPTS - attempt,
        {
            attempt = attempt + 1;
            let p = match random_prime(half_bits) {
                Ok(p) => p,
                Err(e) => {
                    return Err(RSAError::PrimeNumberGenerationError(prime_failure_text(&e)));
                },
            };
            let q = match random_prime(half_bits) {
                Ok(q) => q,
                Err(e) => {
                    return Err(RSAError::PrimeNumberGenerationError(prime_failure_text(&e)));
                },
            };
            if !bu_eq(&p, &q) {
                let n = bu_mul(&p, &q);
                if bu_bits(&n) == target_bits {
                    let pm1 = bu_dec(&p);
                    let qm1 = bu_dec(&q);
                    let phi = bu_mul(&pm1, &qm1);
                    proof {
                        assert(nat_of(phi) >= 4) by (nonlinear_arith)
                            requires
                                nat_of(phi) == nat_of(pm1) * nat_of(qm1),
                                nat_of(pm1) >= 2,
                                nat_of(qm1) >= 2,
                        ;
                    }
                    let e = bu_from_u64(PUBLIC_EXPONENT);
                    match bu_modinv(&e, &phi) {
                        Some(d) => {
                            let key = RSAPrivateKey {
                                public_key: RSAPublicKey { modulus: n, public_exponent: e },
                                private_exponent: d,
                            };
                            proof {
                                assert(nat_of(key.public_key.public_exponent) < nat_of(
                                    key.public_key.modulus,
                                )) by {
                                    crate::rsa::bignum::lemma_bit_len_lower_bound(nat_of(n));
                                    vstd::arithmetic::power2::lemma2_to64();
                                    vstd::arithmetic::power2::lemma_pow2_strictly_increases(
                                        17,
                                        (target_bits - 1) as nat,
                                    );
                                };
                                assert(nat_of(key.private_exponent) >= 1) by {
                                    if nat_of(d) == 0 {
                                        assert(nat_of(e) * nat_of(d) == 0);
                                        vstd::arithmetic::div_mod::lemma_small_mod(
                                            0,
                                            nat_of(phi),
                                        );
                                    }
                                };
                                assert(rsa_key_rel(
                                    nat_of(key.public_key.modulus),
                                    PUBLIC_EXPONENT as nat,
                                    nat_of(key.private_exponent),
                                    nat_of(p),
                                    nat_of(q),
                                ));
                            }
                            return Ok(key);
                        },
                        None => {},
                    }
                }
            }
        }
        Err(
            RSAError::PrimeNumberGenerationError(
                "Retries exhausted without a usable prime pair".to_owned(),
            ),
        )
    }

    /// The public half, copied out of the private key.
    pub fn to_public_key(&self) -> (r: RSAPublicKey)
        ensures
            nat_of(r.modulus) == nat_of(self.public_key.modulus),
            nat_of(r.public_exponent) == nat_of(self.public_key.public_exponent),
    {
        RSAPublicKey {
            modulus: bu_clone(&self.public_key.modulus),
            public_exponent: bu_clone(&self.public_key.public_exponent),
        }
    }

    /// Decrypts raw ciphertext bytes: they are read as a big-endian
    /// integer, transformed with the private exponent, and the result's
    /// minimal big-endian bytes are read back as text.  Only a zero
    /// modulus — under which no block fits — is refused.
    pub fn decrypt_raw(&self, cipher: &Vec<u8>) -> (r: Result<String, RSAError>)
        ensures
            match r {
                Ok(m) => {
                    let pb = plain_bytes_spec(
                        nat_of(self.public_key.modulus),
                        nat_of(self.private_exponent),
                        cipher@,
                    );
                    nat_of(self.public_key.modulus) > 0 && m@ == lossy_chars(pb) && (valid_utf8(pb)
                        ==> m@ == decode_utf8(pb))
                },
                Err(e) => e is MessageSizeLimitExceededError && nat_of(self.public_key.modulus)
                    == 0,
            },
    {
        let zero = bu_from_u64(0);
        if bu_eq(&self.public_key.modulus, &zero) {
            return Err(
                RSAError::MessageSizeLimitExceededError(
                    "A zero modulus admits no message block".to_owned(),
                ),
            );
        }
        let c = bu_from_bytes_be(cipher.as_slice());
        let m = transform(&c, &self.private_exponent, &self.public_key.modulus);
        Ok(decode_message(&m))
    }

    /// Applies the transport decoding to the ciphertext string, then
    /// decrypts the recovered raw bytes.  A string the hexadecimal
    /// decoder refuses reports `ConvertCipherToHexError`.
    pub fn decrypt(&self, ciphertext: &str, transport: Transport) -> (r: Result<String, RSAError>)
        ensures
            match r {
                Ok(m) => {
                    let cb = match transport {
                        Transport::Identity => encode_utf8(ciphertext@),
                        Transport::Hex => unhex(ciphertext@),
                    };
                    let pb = plain_bytes_spec(
                        nat_of(self.public_key.modulus),
                        nat_of(self.private_exponent),
                        cb,
                    );
                    nat_of(self.public_key.modulus) > 0 && (transport is Hex ==> is_hex_text(
                        ciphertext@,
                    )) && m@ == lossy_chars(pb) && (valid_utf8(pb) ==> m@ == decode_utf8(pb))
                },
                Err(e) => match transport {
                    Transport::Identity => e is MessageSizeLimitExceededError && nat_of(
                        self.public_key.modulus,
                    ) == 0,
                    Transport::Hex => (e is ConvertCipherToHexError && !is_hex_text(ciphertext@))
                        || (e is MessageSizeLimitExceededError && nat_of(self.public_key.modulus)
                        == 0 && is_hex_text(ciphertext@)),
                },
            },
    {
        let cipher_bytes: Vec<u8> = match transport {
            Transport::Identity => vstd::slice::slice_to_vec(ciphertext.as_bytes()),
            Transport::Hex => match hex_decode(ciphertext) {
                Ok(v) => v,
                Err(e) => {
                    return Err(RSAError::ConvertCipherToHexError(hex_failure_text(&e)));
                },
            },
        };
        self.decrypt_raw(&cipher_bytes)
    }
}

impl RSAPublicKey {
    /// Encrypts: the message is encoded to an integer (bound-checked
    /// against the modulus), transformed with the public exponent, and
    /// the result is written as its minimal big-endian bytes.
    pub fn encrypt_raw(&self, text: &str) -> (r: Result<Vec<u8>, RSAError>)
        ensures
            match r {
                Ok(c) => be_nat(encode_utf8(text@)) < nat_of(self.modulus) && c@
                    == cipher_bytes_spec(
                    nat_of(self.modulus),
                    nat_of(self.public_exponent),
                    encode_utf8(text@),
                ),
                Err(e) => e is MessageSizeLimitExceededError && be_nat(encode_utf8(text@))
                    >= nat_of(self.modulus),
            },
    {
        match encode_message(text, &self.modulus) {
            Ok(m) => {
                let c = transform(&m, &self.public_exponent, &self.modulus);
                Ok(bu_to_bytes_be(&c))
            },
            Err(e) => Err(e),
        }
    }

    /// Encrypts, then applies the transport encoding to the raw
    /// ciphertext bytes to produce the ciphertext string.
    pub fn encrypt(&self, text: &str, transport: Transport) -> (r: Result<String, RSAError>)
        ensures
            match r {
                Ok(s) => {
                    let cb = cipher_bytes_spec(
                        nat_of(self.modulus),
                        nat_of(self.public_exponent),
                        encode_utf8(text@),
                    );
                    be_nat(encode_utf8(text@)) < nat_of(self.modulus) && (match transport {
                        Transport::Identity => s@ == lossy_chars(cb),
                        Transport::Hex => s@ == hex_of(cb),
                    })
                },
                Err(e) => e is MessageSizeLimitExceededError && be_nat(encode_utf8(text@))
                    >= nat_of(self.modulus),
            },
    {
        match self.encrypt_raw(text) {
            Ok(cb) => match transport {
                Transport::Identity => Ok(bytes_to_text(&cb)),
                Transport::Hex => Ok(hex_encode(&cb)),
            },
            Err(e) => Err(e),
        }
    }
}

/// `pow_nat` agrees with vstd's integer power function.
proof fn lemma_pow_nat_is_pow(b: nat, e: nat)
    ensures
        pow_nat(b, e) == vstd::arithmetic::power::pow(b as int, e),
    decreases e,
{
    reveal(vstd::arithmetic::power::pow);
    if e != 0 {
        lemma_pow_nat_is_pow(b, (e - 1) as nat);
        vstd::arithmetic::mul::lemma_mul_nonnegative(b as int, pow_nat(b, (e - 1) as nat) as int);
    }
}

/// Round trip: a plaintext whose UTF-8 bytes begin with a nonzero byte
/// and read as an integer `M` below the modulus, and on which the
/// product of the key pair's exponents acts as the identity — that is,
/// `M ^ (e * d) mod n == M`, which Euler's theorem grants a generated
/// key pair — is recovered exactly by decryption of its encryption.
pub proof fn lemma_encrypt_decrypt_round_trip(n: nat, e: nat, d: nat, text: Seq<char>)
    requires
        n > 0,
        encode_utf8(text).len() >= 1,
        encode_utf8(text)[0] != 0,
        be_nat(encode_utf8(text)) < n,
        pow_nat(be_nat(encode_utf8(text)), e * d) % n == be_nat(encode_utf8(text)),
    ensures
        plain_bytes_spec(n, d, cipher_bytes_spec(n, e, encode_utf8(text))) == encode_utf8(text),
        valid_utf8(plain_bytes_spec(n, d, cipher_bytes_spec(n, e, encode_utf8(text)))),
        decode_utf8(plain_bytes_spec(n, d, cipher_bytes_spec(n, e, encode_utf8(text)))) == text,
{
    let msg = encode_utf8(text);
    let m0 = be_nat(msg);
    let cv = pow_nat(m0, e) % n;
    lemma_pow_nat_is_pow(m0, e);
    lemma_pow_nat_is_pow(cv, d);
    lemma_pow_nat_is_pow(m0, e * d);
    vstd::arithmetic::power::lemma_pow_mod_noop(
        vstd::arithmetic::power::pow(m0 as int, e),
        d,
        n as int,
    );
    vstd::arithmetic::power::lemma_pow_multiplies(m0 as int, e, d);
    assert(pow_nat(cv, d) % n == m0);
    crate::rsa::bignum::lemma_be_nat_min_be(cv);
    crate::rsa::bignum::lemma_min_be_of_be_nat(msg);
    vstd::utf8::encode_utf8_valid_utf8(text);
    vstd::utf8::encode_utf8_decode_utf8(text);
}

} // verus!
