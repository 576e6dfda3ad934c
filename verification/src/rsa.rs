//! The RSA core: big-integer collaborators, codecs, size classes,
//! failures, and the keys with their transforms.

pub mod bignum;
pub mod codec;
pub mod domain;
pub mod error;
pub mod key;
