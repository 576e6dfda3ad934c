use crypto_cli::rsa::domain::{RSAType, Transport};
use crypto_cli::rsa::error::RSAError;
use crypto_cli::rsa::key::{RSAPrivateKey, RSAPublicKey};
use num_bigint::BigUint;

fn toy_public() -> RSAPublicKey {
    RSAPublicKey {
        modulus: BigUint::from(3233u32),
        public_exponent: BigUint::from(17u32),
    }
}

fn toy_private() -> RSAPrivateKey {
    RSAPrivateKey {
        public_key: toy_public(),
        private_exponent: BigUint::from(2753u32),
    }
}

#[test]
fn toy_encrypt_yields_expected_integer() {
    // 65 ^ 17 mod 3233 == 2790 with the classic toy key p=61, q=53.
    let cipher = toy_public().encrypt_raw("A").unwrap();
    assert_eq!(BigUint::from_bytes_be(&cipher), BigUint::from(2790u32));
}

#[test]
fn toy_decrypt_recovers_plaintext() {
    let cipher = toy_public().encrypt_raw("A").unwrap();
    let plain = toy_private().decrypt_raw(&cipher).unwrap();
    assert_eq!(plain, "A");
}

#[test]
fn toy_decrypt_of_known_ciphertext() {
    // 2790 ^ 2753 mod 3233 == 65, the byte of "A".
    let cipher = BigUint::from(2790u32).to_bytes_be();
    let plain = toy_private().decrypt_raw(&cipher).unwrap();
    assert_eq!(plain, "A");
}

#[test]
fn hex_transport_encodes_ciphertext_bytes() {
    // 2790 == 0x0AE6, so the hex transport must print "0ae6".
    let text = toy_public().encrypt("A", Transport::Hex).unwrap();
    assert_eq!(text, "0ae6");
}

#[test]
fn hex_transport_round_trip() {
    let text = toy_public().encrypt("A", Transport::Hex).unwrap();
    let plain = toy_private().decrypt(&text, Transport::Hex).unwrap();
    assert_eq!(plain, "A");
}

#[test]
fn identity_transport_reads_raw_bytes_as_text() {
    let cipher = toy_public().encrypt_raw("A").unwrap();
    let text = toy_public().encrypt("A", Transport::Identity).unwrap();
    assert_eq!(text, String::from_utf8_lossy(&cipher));
}

#[test]
fn oversized_message_is_rejected() {
    // Five bytes of text read as an integer far above the toy modulus.
    let outcome = toy_public().encrypt_raw("hello");
    assert!(matches!(
        outcome,
        Err(RSAError::MessageSizeLimitExceededError(_))
    ));
}

#[test]
fn message_equal_to_modulus_is_rejected() {
    // "A" reads as exactly 65; a modulus of 65 must refuse it.
    let public = RSAPublicKey {
        modulus: BigUint::from(65u32),
        public_exponent: BigUint::from(17u32),
    };
    let outcome = public.encrypt_raw("A");
    assert!(matches!(
        outcome,
        Err(RSAError::MessageSizeLimitExceededError(_))
    ));
}

#[test]
fn non_hexadecimal_ciphertext_is_rejected() {
    let outcome = toy_private().decrypt("not-hex!", Transport::Hex);
    assert!(matches!(
        outcome,
        Err(RSAError::ConvertCipherToHexError(_))
    ));
}

#[test]
fn odd_length_hexadecimal_ciphertext_is_rejected() {
    let outcome = toy_private().decrypt("abc", Transport::Hex);
    assert!(matches!(
        outcome,
        Err(RSAError::ConvertCipherToHexError(_))
    ));
}

#[test]
fn zero_modulus_admits_no_block() {
    let private = RSAPrivateKey {
        public_key: RSAPublicKey {
            modulus: BigUint::from(0u32),
            public_exponent: BigUint::from(17u32),
        },
        private_exponent: BigUint::from(2753u32),
    };
    let outcome = private.decrypt_raw(&vec![1u8, 2u8]);
    assert!(matches!(
        outcome,
        Err(RSAError::MessageSizeLimitExceededError(_))
    ));
}

#[test]
fn message_codec_round_trip() {
    let modulus = BigUint::from(3233u32);
    let encoded = crypto_cli::rsa::codec::encode_message("A", &modulus).unwrap();
    assert_eq!(encoded, BigUint::from(65u32));
    let decoded = crypto_cli::rsa::codec::decode_message(&encoded);
    assert_eq!(decoded, "A");
}

#[test]
fn transform_is_modular_exponentiation() {
    let value = BigUint::from(65u32);
    let exponent = BigUint::from(17u32);
    let modulus = BigUint::from(3233u32);
    let result = crypto_cli::rsa::key::transform(&value, &exponent, &modulus);
    assert_eq!(result, BigUint::from(2790u32));
}

#[test]
fn generate_small_class_has_requested_bits() {
    let key = RSAPrivateKey::new(RSAType::RSA256).unwrap();
    assert_eq!(key.public_key.modulus.bits(), 256);
    assert_eq!(key.public_key.public_exponent, BigUint::from(65537u32));
    assert!(key.private_exponent > BigUint::from(0u32));
}

#[test]
fn generate_medium_class_has_requested_bits() {
    let key = RSAPrivateKey::new(RSAType::RSA512).unwrap();
    assert_eq!(key.public_key.modulus.bits(), 512);
    assert_eq!(key.public_key.public_exponent, BigUint::from(65537u32));
}

#[test]
fn generated_key_round_trips_text() {
    let key = RSAPrivateKey::new(RSAType::RSA256).unwrap();
    let public = key.to_public_key();
    let cipher = public.encrypt_raw("hi").unwrap();
    let plain = key.decrypt_raw(&cipher).unwrap();
    assert_eq!(plain, "hi");
}

#[test]
fn generated_key_round_trips_hex_transport() {
    let key = RSAPrivateKey::new(RSAType::RSA256).unwrap();
    let public = key.to_public_key();
    let text = public.encrypt("hi", Transport::Hex).unwrap();
    let plain = key.decrypt(&text, Transport::Hex).unwrap();
    assert_eq!(plain, "hi");
}

#[test]
fn generate_large_class_has_requested_bits() {
    let key = RSAPrivateKey::new(RSAType::RSA1024).unwrap();
    assert_eq!(key.public_key.modulus.bits(), 1024);
    assert_eq!(key.public_key.public_exponent, BigUint::from(65537u32));
}

#[test]
fn default_class_scenario_hello() {
    let key = RSAPrivateKey::new(RSAType::RSA2048).unwrap();
    assert_eq!(key.public_key.modulus.bits(), 2048);
    let public = key.to_public_key();
    let cipher = public.encrypt_raw("hello").unwrap();
    let plain = key.decrypt_raw(&cipher).unwrap();
    assert_eq!(plain, "hello");
}

#[test]
fn to_public_key_copies_both_parts() {
    let private = toy_private();
    let public = private.to_public_key();
    assert_eq!(public.modulus, BigUint::from(3233u32));
    assert_eq!(public.public_exponent, BigUint::from(17u32));
}

#[test]
fn error_detail_carries_report_text() {
    let failure = RSAError::ConvertBigUIntToBigIntError(String::from(
        "Failed to convert Big UInt to BigInt",
    ));
    assert_eq!(failure.detail(), "Failed to convert Big UInt to BigInt");
}

#[test]
fn size_classes_map_to_bit_lengths() {
    assert_eq!(RSAType::RSA256.modulus_bits(), 256);
    assert_eq!(RSAType::RSA512.modulus_bits(), 512);
    assert_eq!(RSAType::RSA1024.modulus_bits(), 1024);
    assert_eq!(RSAType::RSA2048.modulus_bits(), 2048);
}
