//! Prime fields and the field-integer codec.
//!
//! A field element is held by its canonical representative, the integer in
//! `0..modulus`, as four 64-bit limbs. The arithmetic is arkworks'; each call
//! into it converts the limbs to its Montgomery form and back.

use crate::bytes::le_value;
use crate::uint::{limbs_value, u256_from_le_slice, u256_to_le_bytes, U256};
use ark_ff::BigInteger;
use ark_ff::Field;
use ark_ff::PrimeField as ArkPrimeField;
use vstd::arithmetic::div_mod::{lemma_mul_mod_noop_right, lemma_small_mod};
use vstd::arithmetic::power2::{
    lemma2_to64, lemma2_to64_rest, lemma_pow2_adds, lemma_pow2_unfold, pow2,
};
use vstd::prelude::*;

verus! {

/// The number of bits needed to write `n`; zero for zero.
pub open spec fn bit_length(n: nat) -> nat
    decreases n,
{
    if n == 0 {
        0
    } else {
        1 + bit_length(n / 2)
    }
}

/// A number in `2^(k-1) .. 2^k` is `k` bits long.
pub proof fn lemma_bit_length(n: nat, k: nat)
    requires
        k >= 1,
        pow2((k - 1) as nat) <= n < pow2(k),
    ensures
        bit_length(n) == k,
    decreases k,
{
    lemma_pow2_unfold(k);
    if k == 1 {
        lemma2_to64();
        assert(n == 1);
        reveal_with_fuel(bit_length, 3);
    } else {
        lemma_pow2_unfold((k - 1) as nat);
        lemma_bit_length(n / 2, (k - 1) as nat);
    }
}

/// `2^253` and `2^254`, between which both BN254 moduli lie.
proof fn lemma_pow2_253_254()
    ensures
        pow2(253) == 0x2000_0000_0000_0000_0000_0000_0000_0000_0000_0000_0000_0000_0000_0000_0000_0000nat,
        pow2(254) == 0x4000_0000_0000_0000_0000_0000_0000_0000_0000_0000_0000_0000_0000_0000_0000_0000nat,
{
    lemma2_to64();
    lemma2_to64_rest();
    lemma_pow2_adds(64, 64);
    lemma_pow2_adds(128, 64);
    lemma_pow2_adds(192, 61);
    lemma_pow2_adds(192, 62);
    assert(pow2(128) == 0x1_0000_0000_0000_0000_0000_0000_0000_0000nat);
    assert(pow2(192) == 0x1_0000_0000_0000_0000_0000_0000_0000_0000_0000_0000_0000_0000nat);
}

/// A prime field whose elements are read and written as integers.
pub trait PrimeField: Sized {
    /// The prime `p` of the field.
    spec fn modulus() -> nat;

    /// The integer in `0..p` that stands for the element.
    spec fn value(&self) -> nat;

    /// The field has more than one element.
    proof fn lemma_modulus_above_one()
        ensures
            Self::modulus() > 1,
    ;

    /// Elements with the same representative are the same element.
    proof fn lemma_value_injective(a: Self, b: Self)
        requires
            a.value() == b.value(),
        ensures
            a == b,
    ;

    /// The length of the modulus in bits.
    fn modulus_bit_size() -> (bits: u32)
        ensures
            bits == bit_length(Self::modulus()),
    ;

    /// The representative as bytes, least significant first, in as many
    /// 64-bit limbs as the modulus needs.
    fn to_bytes_le(&self) -> (bytes: Vec<u8>)
        ensures
            bytes@.len() == 8 * ((bit_length(Self::modulus()) + 63) / 64),
            le_value(bytes@) == self.value(),
    ;

    /// The element that the little-endian number in `bytes` reduces to.
    fn from_le_bytes_mod_order(bytes: &[u8]) -> (f: Self)
        ensures
            f.value() == le_value(bytes@) % Self::modulus(),
    ;
}

/// Whether an element is held by its canonical representative.
pub open spec fn is_canonical<F: PrimeField>(f: F) -> bool {
    f.value() < F::modulus()
}

/// The modulus of the BN254 base field.
pub open spec fn fq_modulus() -> nat {
    21888242871839275222246405745257275088696311157297823662689037894645226208583nat
}

/// The modulus of the BN254 scalar field, the order of its groups.
pub open spec fn fr_modulus() -> nat {
    21888242871839275222246405745257275088548364400416034343698204186575808495617nat
}

/// Both BN254 moduli are 254 bits long.
pub proof fn lemma_bn254_modulus_bits()
    ensures
        bit_length(fq_modulus()) == 254,
        bit_length(fr_modulus()) == 254,
{
    lemma_pow2_253_254();
    lemma_bit_length(fq_modulus(), 254);
    lemma_bit_length(fr_modulus(), 254);
}

/// An element of the BN254 base field.
#[derive(Clone, Copy, Debug, PartialEq, Eq)]
pub struct Fq {
    pub limbs: [u64; 4],
}

/// An element of the BN254 scalar field.
#[derive(Clone, Copy, Debug, PartialEq, Eq)]
pub struct Fr {
    pub limbs: [u64; 4],
}

/// `BigInt::to_bytes_le` of `ark_ff` on four limbs: their 32 bytes, least
/// significant first.
#[verifier::external_body]
pub(crate) fn limbs_to_bytes_le(limbs: &[u64; 4]) -> (bytes: Vec<u8>)
    ensures
        bytes@.len() == 32,
        le_value(bytes@) == limbs_value(limbs@),
{
    ark_ff::BigInt::<4>(*limbs).to_bytes_le()
}

/// `PrimeField::from_le_bytes_mod_order` of `ark_ff` on the BN254 base
/// field, read back with `into_bigint`: the little-endian number in `bytes`
/// reduced modulo the base-field prime.
#[verifier::external_body]
pub(crate) fn fq_from_le_bytes_mod_order(bytes: &[u8]) -> (f: Fq)
    ensures
        limbs_value(f.limbs@) == le_value(bytes@) % fq_modulus(),
{
    Fq { limbs: ark_bn254::Fq::from_le_bytes_mod_order(bytes).into_bigint().0 }
}

/// `PrimeField::from_le_bytes_mod_order` of `ark_ff` on the BN254 scalar
/// field, read back with `into_bigint`: the little-endian number in `bytes`
/// reduced modulo the group order.
#[verifier::external_body]
pub(crate) fn fr_from_le_bytes_mod_order(bytes: &[u8]) -> (f: Fr)
    ensures
        limbs_value(f.limbs@) == le_value(bytes@) % fr_modulus(),
{
    Fr { limbs: ark_bn254::Fr::from_le_bytes_mod_order(bytes).into_bigint().0 }
}

/// `PrimeField::MODULUS_BIT_SIZE` of `ark_ff` for the BN254 base field.
#[verifier::external_body]
pub(crate) fn fq_modulus_bit_size() -> (bits: u32)
    ensures
        bits == bit_length(fq_modulus()),
{
    ark_bn254::Fq::MODULUS_BIT_SIZE
}

/// `PrimeField::MODULUS_BIT_SIZE` of `ark_ff` for the BN254 scalar field.
#[verifier::external_body]
pub(crate) fn fr_modulus_bit_size() -> (bits: u32)
    ensures
        bits == bit_length(fr_modulus()),
{
    ark_bn254::Fr::MODULUS_BIT_SIZE
}

/// Limb arrays with the same value are the same array.
pub proof fn lemma_limbs_value_injective(a: [u64; 4], b: [u64; 4])
    requires
        limbs_value(a@) == limbs_value(b@),
    ensures
        a == b,
{
    crate::uint::lemma_u256_value_injective(U256 { limbs: a }, U256 { limbs: b });
}

impl PrimeField for Fq {
    open spec fn modulus() -> nat {
        fq_modulus()
    }

    open spec fn value(&self) -> nat {
        limbs_value(self.limbs@)
    }

    proof fn lemma_modulus_above_one() {
    }

    proof fn lemma_value_injective(a: Self, b: Self) {
        lemma_limbs_value_injective(a.limbs, b.limbs);
    }

    fn modulus_bit_size() -> (bits: u32) {
        fq_modulus_bit_size()
    }

    fn to_bytes_le(&self) -> (bytes: Vec<u8>) {
        proof {
            lemma_bn254_modulus_bits();
        }
        limbs_to_bytes_le(&self.limbs)
    }

    fn from_le_bytes_mod_order(bytes: &[u8]) -> (f: Self) {
        fq_from_le_bytes_mod_order(bytes)
    }
}

impl PrimeField for Fr {
    open spec fn modulus() -> nat {
        fr_modulus()
    }

    open spec fn value(&self) -> nat {
        limbs_value(self.limbs@)
    }

    proof fn lemma_modulus_above_one() {
    }

    proof fn lemma_value_injective(a: Self, b: Self) {
        lemma_limbs_value_injective(a.limbs, b.limbs);
    }

    fn modulus_bit_size() -> (bits: u32) {
        fr_modulus_bit_size()
    }

    fn to_bytes_le(&self) -> (bytes: Vec<u8>) {
        proof {
            lemma_bn254_modulus_bits();
        }
        limbs_to_bytes_le(&self.limbs)
    }

    fn from_le_bytes_mod_order(bytes: &[u8]) -> (f: Self) {
        fr_from_le_bytes_mod_order(bytes)
    }
}

/// What `Field::sqrt` of `ark_ff` returns on the BN254 base field for the
/// element with representative `x`: the representative of the root it
/// picks, or `None`.
pub uninterp spec fn fq_sqrt_result(x: nat) -> Option<nat>;

/// `Neg::neg` of `ark_ff` on the BN254 base field: the additive inverse,
/// `p - a` for nonzero `a` and zero for zero.
#[verifier::external_body]
pub(crate) fn fq_neg(a: Fq) -> (r: Fq)
    requires
        is_canonical(a),
    ensures
        r.value() == negated(fq_modulus(), a.value()),
{
    Fq { limbs: (-ark_bn254::Fq::from(ark_ff::BigInt(a.limbs))).into_bigint().0 }
}

/// `Field::square` of `ark_ff` on the BN254 base field: `a·a` reduced.
#[verifier::external_body]
pub(crate) fn fq_square(a: Fq) -> (r: Fq)
    requires
        is_canonical(a),
    ensures
        r.value() == (a.value() * a.value()) % fq_modulus(),
{
    Fq { limbs: ark_bn254::Fq::from(ark_ff::BigInt(a.limbs)).square().into_bigint().0 }
}

/// `Field::sqrt` of `ark_ff` on the BN254 base field. Which of the two roots
/// comes back is the outside function's choice; the representative is
/// canonical.
#[verifier::external_body]
pub(crate) fn fq_sqrt(x: Fq) -> (r: Option<Fq>)
    requires
        is_canonical(x),
    ensures
        r matches Some(a) ==> fq_sqrt_result(x.value()) == Some(a.value()) && is_canonical(a),
        r is None ==> fq_sqrt_result(x.value()) is None,
{
    ark_bn254::Fq::from(ark_ff::BigInt(x.limbs)).sqrt().map(|a| Fq { limbs: a.into_bigint().0 })
}

/// `PrimeField::MODULUS_MINUS_ONE_DIV_TWO` of `ark_ff` for the BN254 base
/// field: the limbs of `(p - 1) / 2`.
#[verifier::external_body]
pub(crate) fn fq_modulus_minus_one_div_two() -> (r: [u64; 4])
    ensures
        limbs_value(r@) == (fq_modulus() - 1) / 2,
{
    ark_bn254::Fq::MODULUS_MINUS_ONE_DIV_TWO.0
}

/// `Neg::neg` of `ark_ff` on the BN254 scalar field: the additive inverse,
/// `r - a` for nonzero `a` and zero for zero.
#[verifier::external_body]
pub(crate) fn fr_neg(a: Fr) -> (r: Fr)
    requires
        is_canonical(a),
    ensures
        r.value() == negated(fr_modulus(), a.value()),
{
    Fr { limbs: (-ark_bn254::Fr::from(ark_ff::BigInt(a.limbs))).into_bigint().0 }
}

/// `Mul::mul` of `ark_ff` on the BN254 scalar field: `a·b` reduced.
#[verifier::external_body]
pub(crate) fn fr_mul(a: Fr, b: Fr) -> (r: Fr)
    requires
        is_canonical(a),
        is_canonical(b),
    ensures
        r.value() == (a.value() * b.value()) % fr_modulus(),
{
    let x = ark_bn254::Fr::from(ark_ff::BigInt(a.limbs));
    Fr { limbs: (x * ark_bn254::Fr::from(ark_ff::BigInt(b.limbs))).into_bigint().0 }
}

/// `Field::inverse` of `ark_ff` on the BN254 scalar field: `None` for zero,
/// else the canonical `i` with `a·i = 1` in the field.
#[verifier::external_body]
pub(crate) fn fr_inverse(a: Fr) -> (r: Option<Fr>)
    requires
        is_canonical(a),
    ensures
        r is None <==> a.value() == 0,
        r matches Some(i) ==> is_fr_inverse(a.value(), i.value()),
{
    ark_bn254::Fr::from(ark_ff::BigInt(a.limbs)).inverse().map(|i| Fr { limbs: i.into_bigint().0 })
}

/// The additive inverse of a representative in the field of the given
/// modulus.
pub open spec fn negated(modulus: nat, a: nat) -> nat {
    ((modulus - a) % (modulus as int)) as nat
}

/// Whether `i` is the canonical inverse of the scalar `a`: below the group
/// order, with `a·i = 1` modulo it.
pub open spec fn is_fr_inverse(a: nat, i: nat) -> bool {
    i < fr_modulus() && (a * i) % fr_modulus() == 1
}

/// The inverse of a scalar, where there is one.
pub open spec fn fr_inverse_of(a: nat) -> nat {
    choose|i: nat| is_fr_inverse(a, i)
}

/// A scalar has at most one canonical inverse, so one that is found is
/// `fr_inverse_of`.
pub proof fn lemma_fr_inverse_unique(a: nat, i: nat)
    requires
        is_fr_inverse(a, i),
    ensures
        fr_inverse_of(a) == i,
{
    let m = fr_modulus() as int;
    let j = fr_inverse_of(a);
    assert(is_fr_inverse(a, j));
    let ai = (a * i) as int;
    let aj = (a * j) as int;
    assert((j as int) * ai == (i as int) * aj) by (nonlinear_arith)
        requires
            ai == a * i,
            aj == a * j,
    ;
    lemma_mul_mod_noop_right(j as int, ai, m);
    lemma_mul_mod_noop_right(i as int, aj, m);
    lemma_small_mod(i, fr_modulus());
    lemma_small_mod(j, fr_modulus());
    assert((j as int) * (ai % m) == j as int) by (nonlinear_arith)
        requires
            ai % m == 1,
    ;
    assert((i as int) * (aj % m) == i as int) by (nonlinear_arith)
        requires
            aj % m == 1,
    ;
}

/// The canonical one of the two square roots `a` and `-a`: the one that is
/// at most `(p - 1) / 2`.
pub open spec fn canonical_root_of(a: nat) -> nat {
    if a > (fq_modulus() - 1) / 2 {
        negated(fq_modulus(), a)
    } else {
        a
    }
}

/// The canonical root is at most `(p - 1) / 2`.
pub proof fn lemma_canonical_root_is_small(a: nat)
    requires
        a < fq_modulus(),
    ensures
        canonical_root_of(a) <= (fq_modulus() - 1) / 2,
{
    if a > (fq_modulus() - 1) / 2 {
        lemma_small_mod((fq_modulus() - a) as nat, fq_modulus());
    }
}

/// The canonical one of the roots `a` and `-a`.
pub fn canonical_root(a: Fq) -> (c: Fq)
    requires
        is_canonical(a),
    ensures
        c.value() == canonical_root_of(a.value()),
        c.value() <= (fq_modulus() - 1) / 2,
{
    proof {
        lemma_canonical_root_is_small(a.value());
    }
    let half = fq_modulus_minus_one_div_two();
    if limbs_gt(&a.limbs, &half) {
        fq_neg(a)
    } else {
        a
    }
}

/// Whether two four-limb integers are the same.
pub fn limbs_eq(a: &[u64; 4], b: &[u64; 4]) -> (r: bool)
    ensures
        r == (limbs_value(a@) == limbs_value(b@)),
{
    proof {
        if limbs_value(a@) == limbs_value(b@) {
            lemma_limbs_value_injective(*a, *b);
        }
    }
    a[0] == b[0] && a[1] == b[1] && a[2] == b[2] && a[3] == b[3]
}

/// Whether the first of two four-limb integers is the greater.
pub fn limbs_gt(a: &[u64; 4], b: &[u64; 4]) -> (r: bool)
    ensures
        r == (limbs_value(a@) > limbs_value(b@)),
{
    if a[3] != b[3] {
        a[3] > b[3]
    } else if a[2] != b[2] {
        a[2] > b[2]
    } else if a[1] != b[1] {
        a[1] > b[1]
    } else {
        a[0] > b[0]
    }
}

/// An element `c0 + c1·u` of the quadratic extension of a prime field.
#[derive(Clone, Copy, Debug, PartialEq, Eq)]
pub struct Fp2<F> {
    pub c0: F,
    pub c1: F,
}

/// The integer that stands for a field element on the wire: its canonical
/// representative.
pub open spec fn field_to_int(v: nat) -> nat {
    v
}

/// The representative of the field element that an integer of the wire
/// stands for: the integer reduced modulo the order of the field.
pub open spec fn int_to_field(modulus: nat, x: nat) -> nat {
    x % modulus
}

/// Whether the modulus of `F` is at most 256 bits long, so that its elements
/// fit a `U256`.
pub fn fits_u256<F: PrimeField>() -> (r: bool)
    ensures
        r == (bit_length(F::modulus()) <= 256),
{
    F::modulus_bit_size() <= 256
}

/// The canonical representative of `f` as a 256-bit integer: its bytes,
/// least significant first, read as an integer. The field has to fit 256
/// bits.
pub fn field_to_u256<F: PrimeField>(f: F) -> (x: U256)
    requires
        bit_length(F::modulus()) <= 256,
    ensures
        x@ == field_to_int(f.value()),
{
    let bytes = f.to_bytes_le();
    u256_from_le_slice(bytes.as_slice())
}

/// The field element that `x` reduces to modulo the order of `F`. Every
/// integer has one.
pub fn u256_to_field<F: PrimeField>(x: U256) -> (f: F)
    ensures
        f.value() == int_to_field(F::modulus(), x@),
        is_canonical(f),
{
    let bytes = u256_to_le_bytes(&x);
    proof {
        F::lemma_modulus_above_one();
    }
    F::from_le_bytes_mod_order(bytes.as_slice())
}

/// Writing a field element as an integer and reading the integer back gives
/// the same element.
pub proof fn lemma_field_round_trip<F: PrimeField>(f: F)
    requires
        is_canonical(f),
    ensures
        int_to_field(F::modulus(), field_to_int(f.value())) == f.value(),
{
    lemma_small_mod(f.value(), F::modulus());
}

/// Reading an integer below the modulus as a field element and writing the
/// element back gives the same integer. An integer that is not below the
/// modulus comes back reduced.
pub proof fn lemma_integer_round_trip<F: PrimeField>(x: nat)
    requires
        x < F::modulus(),
    ensures
        field_to_int(int_to_field(F::modulus(), x)) == x,
{
    lemma_small_mod(x, F::modulus());
}

} // verus!
