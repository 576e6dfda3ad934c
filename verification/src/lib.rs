//! Textbook RSA primitives: key-pair generation from a size class,
//! byte-to-integer message encoding bounded by the modulus, the shared
//! modular-exponentiation transform for encryption and decryption, and a
//! printable hexadecimal transport encoding for ciphertext.
//!
//! This is deliberately unpadded, block-limited RSA for experimenting
//! with the primitives; it is not a hardened confidentiality service.

pub mod rsa;
