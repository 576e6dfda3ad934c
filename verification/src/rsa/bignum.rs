//! Arbitrary-precision arithmetic for the RSA core.
//!
//! The algebra runs on `num_bigint::BigUint`, and `glass_pumpkin`
//! supplies random probable primes.  Every call the core makes into
//! those crates goes through a wrapper below whose contract states, in
//! terms of the mathematical value `nat_of`, what the called code
//! returns.

use vstd::prelude::*;
use vstd::arithmetic::div_mod::lemma_fundamental_div_mod;
use vstd::arithmetic::div_mod::lemma_fundamental_div_mod_converse;
use vstd::arithmetic::power2::pow2;
use vstd::arithmetic::power2::lemma_pow2_unfold;
use vstd::arithmetic::power2::lemma2_to64;
use num_bigint::BigUint;

verus! {

/// Declares `num_bigint::BigUint` to the verifier.  A value is opaque;
/// contracts read it only through `nat_of`.
#[verifier::external_type_specification]
#[verifier::external_body]
pub struct ExBigUint(BigUint);

/// Declares `glass_pumpkin::error::Error`, the prime source's failure.
#[verifier::external_type_specification]
#[verifier::external_body]
pub struct ExPrimeSourceError(glass_pumpkin::error::Error);

/// The natural number that a `BigUint` holds.
pub uninterp spec fn nat_of(b: BigUint) -> nat;

/// The value of a byte sequence read as a big-endian unsigned integer.
pub open spec fn be_nat(b: Seq<u8>) -> nat
    decreases b.len(),
{
    if b.len() == 0 {
        0
    } else {
        (be_nat(b.drop_last()) * 256 + b.last()) as nat
    }
}

/// The minimal big-endian encoding of a value: no leading zero byte,
/// and empty for zero.
pub open spec fn min_be_pos(v: nat) -> Seq<u8>
    decreases v,
{
    if v == 0 {
        Seq::empty()
    } else {
        min_be_pos(v / 256).push((v % 256) as u8)
    }
}

/// The byte sequence that `BigUint::to_bytes_be` yields: minimal
/// big-endian, except that zero is the single byte `0`.
pub open spec fn min_be(v: nat) -> Seq<u8> {
    if v == 0 {
        seq![0u8]
    } else {
        min_be_pos(v)
    }
}

/// `b` raised to the power `e`.
pub open spec fn pow_nat(b: nat, e: nat) -> nat
    decreases e,
{
    if e == 0 {
        1
    } else {
        (b * pow_nat(b, (e - 1) as nat)) as nat
    }
}

/// The fewest bits needed to write `v`, zero for zero.
pub open spec fn bit_len(v: nat) -> nat
    decreases v,
{
    if v == 0 {
        0
    } else {
        (1 + bit_len(v / 2)) as nat
    }
}

/// Relies on `BigUint::from::<u64>`: the value is `x`.
#[verifier::external_body]
pub(crate) fn bu_from_u64(x: u64) -> (r: BigUint)
    ensures
        nat_of(r) == x as nat,
{
    BigUint::from(x)
}

/// Relies on `BigUint::from_bytes_be`: reads the bytes big-endian; an
/// empty slice reads as zero.
#[verifier::external_body]
pub(crate) fn bu_from_bytes_be(b: &[u8]) -> (r: BigUint)
    ensures
        nat_of(r) == be_nat(b@),
{
    BigUint::from_bytes_be(b)
}

/// Relies on `BigUint::to_bytes_be`: the minimal big-endian bytes of
/// the value, with the single byte `0` for zero.
#[verifier::external_body]
pub(crate) fn bu_to_bytes_be(a: &BigUint) -> (r: Vec<u8>)
    ensures
        r@ == min_be(nat_of(*a)),
{
    a.to_bytes_be()
}

/// Relies on `Mul` for `&BigUint`: the product of the two values.
#[verifier::external_body]
pub(crate) fn bu_mul(a: &BigUint, b: &BigUint) -> (r: BigUint)
    ensures
        nat_of(r) == nat_of(*a) * nat_of(*b),
{
    a * b
}

/// Relies on `Sub<u32>` for `&BigUint`: one less than the value.
/// Underflow would panic, so the contract demands a positive value.
#[verifier::external_body]
pub(crate) fn bu_dec(a: &BigUint) -> (r: BigUint)
    requires
        nat_of(*a) >= 1,
    ensures
        nat_of(r) == (nat_of(*a) - 1) as nat,
{
    a - 1u32
}

/// Relies on `BigUint::modpow`: `(a ^ e) % m`.  A zero modulus would
/// panic, so the contract demands a positive one.
#[verifier::external_body]
pub(crate) fn bu_modpow(a: &BigUint, e: &BigUint, m: &BigUint) -> (r: BigUint)
    requires
        nat_of(*m) > 0,
    ensures
        nat_of(r) == pow_nat(nat_of(*a), nat_of(*e)) % nat_of(*m),
{
    a.modpow(e, m)
}

/// Relies on `BigUint::modinv`: the inverse of `a` in `[0, m)` when
/// `gcd(a, m) == 1`, and `None` otherwise.  A zero modulus would panic;
/// the caller supplies one of at least 2, which also keeps the returned
/// congruence meaningful.
#[verifier::external_body]
pub(crate) fn bu_modinv(a: &BigUint, m: &BigUint) -> (r: Option<BigUint>)
    requires
        nat_of(*m) >= 2,
    ensures
        r matches Some(d) ==> nat_of(d) < nat_of(*m) && (nat_of(*a) * nat_of(d)) % nat_of(*m)
            == 1,
{
    a.modinv(m)
}

/// Relies on `PartialOrd` for `BigUint`: order of the values.
#[verifier::external_body]
pub(crate) fn bu_lt(a: &BigUint, b: &BigUint) -> (r: bool)
    ensures
        r == (nat_of(*a) < nat_of(*b)),
{
    a < b
}

/// Relies on `PartialEq` for `BigUint`: the representation is
/// canonical, so structural equality is value equality.
#[verifier::external_body]
pub(crate) fn bu_eq(a: &BigUint, b: &BigUint) -> (r: bool)
    ensures
        r == (nat_of(*a) == nat_of(*b)),
{
    a == b
}

/// Relies on `Clone` for `BigUint`: the copy holds the same value.
#[verifier::external_body]
pub(crate) fn bu_clone(a: &BigUint) -> (r: BigUint)
    ensures
        nat_of(r) == nat_of(*a),
{
    a.clone()
}

/// Relies on `BigUint::bits`: the fewest bits needed for the value.
#[verifier::external_body]
pub(crate) fn bu_bits(a: &BigUint) -> (r: u64)
    ensures
        r as nat == bit_len(nat_of(*a)),
{
    a.bits()
}

/// Relies on `glass_pumpkin::prime::new`: on success, a random probable
/// prime of exactly `bits` bits — the candidate is odd and its top bit
/// is set, so with at least 128 bits it is at least 3.  The source
/// refuses fewer than 128 bits, which the contract rules out.
#[verifier::external_body]
pub(crate) fn random_prime(bits: u64) -> (r: Result<BigUint, glass_pumpkin::error::Error>)
    requires
        bits >= 128,
    ensures
        r matches Ok(p) ==> bit_len(nat_of(p)) == bits as nat && nat_of(p) % 2 == 1 && nat_of(p)
            >= 3,
{
    glass_pumpkin::prime::new(bits as usize)
}

/// Relies on `Display` for `glass_pumpkin::error::Error`: only the
/// wording of the failure report.
#[verifier::external_body]
pub(crate) fn prime_failure_text(e: &glass_pumpkin::error::Error) -> String {
    format!("Failed to generate large prime number: {}", e)
}

/// A value of bit length `k` is at least `pow2(k - 1)`.
pub proof fn lemma_bit_len_lower_bound(v: nat)
    requires
        bit_len(v) >= 1,
    ensures
        v >= pow2((bit_len(v) - 1) as nat),
    decreases v,
{
    lemma_fundamental_div_mod(v as int, 2);
    assert(v != 0);
    if v / 2 == 0 {
        assert(v == 1);
        assert(bit_len(0) == 0);
        assert(bit_len(v) == 1);
        lemma2_to64();
    } else {
        lemma_bit_len_lower_bound(v / 2);
        assert(bit_len(v / 2) >= 1);
        assert(bit_len(v) == 1 + bit_len(v / 2));
        lemma_pow2_unfold((bit_len(v) - 1) as nat);
        assert(pow2((bit_len(v) - 1) as nat) == 2 * pow2((bit_len(v / 2) - 1) as nat));
        assert(v >= 2 * (v / 2));
    }
}

/// A big-endian byte sequence that begins with a nonzero byte has a
/// positive value.
pub proof fn lemma_be_nat_pos(b: Seq<u8>)
    requires
        b.len() >= 1,
        b[0] != 0,
    ensures
        be_nat(b) >= 1,
    decreases b.len(),
{
    if b.len() == 1 {
        assert(b.last() == b[0]);
    } else {
        assert(b.drop_last()[0] == b[0]);
        lemma_be_nat_pos(b.drop_last());
    }
}

/// Reading back the minimal encoding of a value gives the value.
pub proof fn lemma_be_nat_min_be_pos(v: nat)
    ensures
        be_nat(min_be_pos(v)) == v,
    decreases v,
{
    if v != 0 {
        lemma_be_nat_min_be_pos(v / 256);
        let s = min_be_pos(v);
        assert(s.drop_last() =~= min_be_pos(v / 256));
        lemma_fundamental_div_mod(v as int, 256);
    }
}

/// Reading back `to_bytes_be`'s encoding of any value gives the value.
pub proof fn lemma_be_nat_min_be(v: nat)
    ensures
        be_nat(min_be(v)) == v,
{
    if v == 0 {
        let s = seq![0u8];
        assert(s.drop_last() =~= Seq::<u8>::empty());
        assert(be_nat(s.drop_last()) == 0);
        assert(s.last() == 0);
        assert(be_nat(s) == 0);
    } else {
        lemma_be_nat_min_be_pos(v);
    }
}

/// A byte sequence that starts with a nonzero byte is exactly the
/// minimal encoding of its own value.
pub proof fn lemma_min_be_of_be_nat(b: Seq<u8>)
    requires
        b.len() >= 1,
        b[0] != 0,
    ensures
        be_nat(b) >= 1,
        min_be(be_nat(b)) == b,
    decreases b.len(),
{
    lemma_be_nat_pos(b);
    let v = be_nat(b);
    if b.len() == 1 {
        assert(b.drop_last() =~= Seq::<u8>::empty());
        assert(v == b[0]);
        lemma_fundamental_div_mod_converse(v as int, 256, 0, v as int);
        assert(v / 256 == 0 && v % 256 == v);
        assert(min_be_pos(0) == Seq::<u8>::empty());
        assert(min_be_pos(v) == min_be_pos(v / 256).push((v % 256) as u8));
        assert(Seq::<u8>::empty().push((v % 256) as u8) =~= b);
    } else {
        let t = b.drop_last();
        let x = b.last();
        assert(t[0] == b[0]);
        lemma_min_be_of_be_nat(t);
        assert(min_be_pos(be_nat(t)) == t);
        lemma_fundamental_div_mod_converse(v as int, 256, be_nat(t) as int, x as int);
        assert(v / 256 == be_nat(t) && v % 256 == x);
        assert(min_be_pos(v) == min_be_pos(v / 256).push((v % 256) as u8));
        assert(t.push(x) =~= b);
        assert(min_be_pos(v) == b);
    }
}

} // verus!
