//! The vector of each action.
//!
//! A generator draws or reads its inputs, has the curve library compute on
//! them, checks what has to hold of the results and writes them as wire
//! records. What the curve library returns goes by the names of `curve` and
//! `sample`; the contracts here say how a vector is made of them.

use crate::abi::{uints_of, wires_of};
use crate::curve::{
    coords_of, g1_add, g1_generator_times, g1_is_on_curve, g1_msm, g1_msm_result, g1_mul_generator,
    g1_neg, g1_negated, g1_on_curve, g1_sum, g2_double, g2_doubled, g2_generator,
    g2_generator_coords, g2_generator_times, g2_mul_generator, gt_eq, pairing, pairing_result,
    values_of, G1Affine, G2Affine, Gt,
};
use crate::field::{
    bit_length, canonical_root, canonical_root_of, field_to_u256, fq_modulus, fq_sqrt, fq_sqrt_result,
    fq_square, fr_inverse, fr_inverse_of, fr_modulus, fr_mul, fr_neg, is_canonical, limbs_eq,
    lemma_bn254_modulus_bits, lemma_canonical_root_is_small, lemma_fr_inverse_unique, negated,
    u256_to_field, Fq, Fr, PrimeField,
};
use crate::point::{
    g1_to_wire, g2_to_wire, wire_to_g1, Affine, G1Coords, G1Point, G1Wire, G2Coords, G2Point,
    G2Wire,
};
use crate::sample::{
    draw_g1, draw_scalar, sample_base_element, sample_g1, sample_g1_pair, sample_scalars,
    seeded_base_element, seeded_g1, seeded_g1_pair, seeded_scalars, test_rng,
};
use crate::uint::U256;
use vstd::arithmetic::div_mod::lemma_small_mod;
use vstd::prelude::*;

verus! {

/// Why a vector could not be made.
#[derive(Clone, Copy, Debug, PartialEq, Eq, Structural)]
pub enum GenError {
    /// The action was given the wrong number of arguments.
    ArgumentCount,
    /// An argument that has to be an integer is none.
    MalformedInteger,
    /// An argument that has to be hexadecimal text is none.
    MalformedHex,
    /// The bytes of an argument are not one wire record.
    MalformedRecord,
    /// Zero was to be inverted.
    NotInvertible,
    /// The identity of the second group was to be written.
    NoRecordForIdentity,
    /// A self-check on the results of the curve library failed.
    InvariantViolated,
    /// The vector is too long for its array offsets.
    TooLong,
}

/// The vector of the pairing check by the integers of its records.
pub struct PairingWires {
    pub a1: G1Wire,
    pub a2: G2Wire,
    pub b1: G1Wire,
    pub b2: G2Wire,
}

/// The quotient `a / b` of two scalars, `b` not zero.
pub open spec fn fr_quotient(a: nat, b: nat) -> nat {
    (a * fr_inverse_of(b)) % fr_modulus()
}

/// The generator of the second group as a wire record.
pub fn bn254_g2_gen() -> (w: G2Point)
    ensures
        w@ == g2_to_wire(g2_generator_coords()),
{
    proof {
        lemma_bn254_modulus_bits();
    }
    G2Point::from_affine(g2_generator())
}

/// The record of the generator of the first group times `s`, `s` taken
/// modulo the group order.
pub fn bn254_g1_from_scalar(s: U256) -> (w: G1Point)
    ensures
        w@ == g1_to_wire(g1_generator_times(s@ % fr_modulus())),
{
    proof {
        lemma_bn254_modulus_bits();
    }
    let scalar: Fr = u256_to_field(s);
    G1Point::from_affine(g1_mul_generator(scalar))
}

/// Whether the point that a record stands for is on the curve of the first
/// group.
pub fn bn254_g1_is_on_curve(w: G1Point) -> (r: bool)
    ensures
        r == g1_on_curve(wire_to_g1(fq_modulus(), w@)),
{
    proof {
        lemma_bn254_modulus_bits();
    }
    let p: G1Affine = Affine::from_g1_point(w);
    g1_is_on_curve(p)
}

/// The inverse of `s` in the scalar field, `s` taken modulo the group order;
/// zero has none.
pub fn bn254_scalar_inv_op(s: U256) -> (r: Result<U256, GenError>)
    ensures
        s@ % fr_modulus() == 0 ==> r == Err::<U256, GenError>(GenError::NotInvertible),
        s@ % fr_modulus() != 0 ==> (r matches Ok(v) && v@ == fr_inverse_of(s@ % fr_modulus())
            && v@ < fr_modulus() && ((s@ % fr_modulus()) * v@) % fr_modulus() == 1),
{
    proof {
        lemma_bn254_modulus_bits();
    }
    let scalar: Fr = u256_to_field(s);
    match fr_inverse(scalar) {
        None => Err(GenError::NotInvertible),
        Some(inverse) => {
            proof {
                lemma_fr_inverse_unique(scalar.value(), inverse.value());
            }
            Ok(field_to_u256(inverse))
        },
    }
}

/// The negative of `s` in the scalar field, `s` taken modulo the group
/// order.
pub fn bn254_scalar_neg_op(s: U256) -> (r: U256)
    ensures
        r@ == negated(fr_modulus(), s@ % fr_modulus()),
{
    proof {
        lemma_bn254_modulus_bits();
    }
    let scalar: Fr = u256_to_field(s);
    field_to_u256(fr_neg(scalar))
}

/// The two points drawn for a seed and their sum, as wire records.
pub open spec fn g1_add_vector(seed: u64) -> (G1Wire, G1Wire, G1Wire) {
    let (a, b) = seeded_g1_pair(seed);
    (g1_to_wire(a), g1_to_wire(b), g1_to_wire(g1_sum(a, b)))
}

/// Two points of the first group drawn for the seed, and their sum.
pub fn bn254_g1_add_op(seed: u64) -> (r: (G1Point, G1Point, G1Point))
    ensures
        (r.0@, r.1@, r.2@) == g1_add_vector(seed),
{
    proof {
        lemma_bn254_modulus_bits();
    }
    let (a, b) = sample_g1_pair(seed);
    let sum = g1_add(a, b);
    (G1Point::from_affine(a), G1Point::from_affine(b), G1Point::from_affine(sum))
}

/// The point drawn for a seed and its negative, as wire records.
pub open spec fn g1_neg_vector(seed: u64) -> (G1Wire, G1Wire) {
    let a = seeded_g1(seed);
    (g1_to_wire(a), g1_to_wire(g1_negated(a)))
}

/// A point of the first group drawn for the seed, and its negative.
pub fn bn254_g1_neg_op(seed: u64) -> (r: (G1Point, G1Point))
    ensures
        (r.0@, r.1@) == g1_neg_vector(seed),
{
    proof {
        lemma_bn254_modulus_bits();
    }
    let a = sample_g1(seed);
    let negative = g1_neg(a);
    (G1Point::from_affine(a), G1Point::from_affine(negative))
}

/// The vector for a base-field element `x` and what the square root
/// returned for it: with a root, `x`, the canonical root and `true`, unless
/// the canonical root does not square to `x`; without one, `x`, zero and
/// `false`.
pub open spec fn qr_vector_of(x: nat, root: Option<nat>) -> Result<(nat, nat, bool), GenError> {
    match root {
        Some(a) => {
            let c = canonical_root_of(a);
            if (c * c) % fq_modulus() == x {
                Ok((x, c, true))
            } else {
                Err(GenError::InvariantViolated)
            }
        },
        None => Ok((x, 0nat, false)),
    }
}

/// A vector that reports a quadratic residue holds a root of it that is at
/// most `(p - 1) / 2`.
pub proof fn lemma_qr_root_is_canonical(x: nat, root: Option<nat>)
    requires
        root matches Some(a) ==> a < fq_modulus(),
    ensures
        qr_vector_of(x, root) matches Ok(v) ==> (v.2 ==> (v.1 * v.1) % fq_modulus() == v.0 && v.1
            <= (fq_modulus() - 1) / 2),
{
    if let Some(a) = root {
        lemma_canonical_root_is_small(a);
    }
}

/// The vector for a base-field element and the outcome of its square root.
pub fn qr_vector(x: Fq, root: Option<Fq>) -> (r: Result<(U256, U256, bool), GenError>)
    requires
        is_canonical(x),
        root matches Some(a) ==> is_canonical(a),
    ensures
        r matches Ok(v) ==> qr_vector_of(
            x.value(),
            match root {
                Some(a) => Some(a.value()),
                None => None,
            },
        ) == Ok::<(nat, nat, bool), GenError>((v.0@, v.1@, v.2)),
        r matches Err(e) ==> qr_vector_of(
            x.value(),
            match root {
                Some(a) => Some(a.value()),
                None => None,
            },
        ) == Err::<(nat, nat, bool), GenError>(e),
        r matches Ok(v) ==> (v.2 ==> (v.1@ * v.1@) % fq_modulus() == v.0@ && v.1@ <= (fq_modulus()
            - 1) / 2),
{
    proof {
        lemma_bn254_modulus_bits();
    }
    match root {
        Some(a) => {
            let c = canonical_root(a);
            proof {
                lemma_canonical_root_is_small(a.value());
            }
            let square = fq_square(c);
            if limbs_eq(&square.limbs, &x.limbs) {
                proof {
                    lemma_small_mod(x.value(), fq_modulus());
                }
                Ok((field_to_u256(x), field_to_u256(c), true))
            } else {
                Err(GenError::InvariantViolated)
            }
        },
        None => Ok((field_to_u256(x), U256::from_u64(0), false)),
    }
}

/// A base-field element drawn for the seed, its canonical square root or
/// zero, and whether it has a root.
pub fn bn254_qr(seed: u64) -> (r: Result<(U256, U256, bool), GenError>)
    ensures
        r matches Ok(v) ==> qr_vector_of(
            seeded_base_element(seed),
            fq_sqrt_result(seeded_base_element(seed)),
        ) == Ok::<(nat, nat, bool), GenError>((v.0@, v.1@, v.2)),
        r matches Err(e) ==> qr_vector_of(
            seeded_base_element(seed),
            fq_sqrt_result(seeded_base_element(seed)),
        ) == Err::<(nat, nat, bool), GenError>(e),
        r matches Ok(v) ==> (v.2 ==> (v.1@ * v.1@) % fq_modulus() == v.0@ && v.1@ <= (fq_modulus()
            - 1) / 2),
{
    let x = sample_base_element(seed);
    let root = fq_sqrt(x);
    qr_vector(x, root)
}

/// Whether both pairings have a value and the values are the same.
pub fn pairings_agree(left: &Option<Gt>, right: &Option<Gt>) -> (r: bool)
    ensures
        r == (left matches Some(a) && right matches Some(b) && a@ == b@),
{
    match (left, right) {
        (Some(a), Some(b)) => gt_eq(a, b),
        _ => false,
    }
}

/// Whether both pairings have a value and the values differ.
pub fn pairings_differ(left: &Option<Gt>, right: &Option<Gt>) -> (r: bool)
    ensures
        r == (left matches Some(a) && right matches Some(b) && a@ != b@),
{
    match (left, right) {
        (Some(a), Some(b)) => !gt_eq(a, b),
        _ => false,
    }
}

/// The records of the four points of a pairing check; the second group has
/// no record for its identity.
pub open spec fn pairing_records(a1: G1Coords, a2: G2Coords, b1: G1Coords, b2: G2Coords) -> Result<
    PairingWires,
    GenError,
> {
    if a2.infinity || b2.infinity {
        Err(GenError::NoRecordForIdentity)
    } else {
        Ok(PairingWires { a1: g1_to_wire(a1), a2: g2_to_wire(a2), b1: g1_to_wire(b1), b2: g2_to_wire(b2) })
    }
}

/// The vector of the pairing check once its self-checks are made: the two
/// pairings have to agree, and where the last point is doubled the pairing
/// with the double has to differ from them.
pub open spec fn pairing_vector_of(
    doubles: bool,
    a1: G1Coords,
    a2: G2Coords,
    b1: G1Coords,
    b2: G2Coords,
) -> Result<PairingWires, GenError> {
    let left = pairing_result(a1, a2);
    let right = pairing_result(b1, b2);
    if !(left is Some && right is Some && left == right) {
        Err(GenError::InvariantViolated)
    } else if doubles {
        let right_doubled = pairing_result(b1, g2_doubled(b2));
        if !(right_doubled is Some && left != right_doubled) {
            Err(GenError::InvariantViolated)
        } else {
            pairing_records(a1, a2, g1_negated(b1), g2_doubled(b2))
        }
    } else {
        pairing_records(a1, a2, g1_negated(b1), b2)
    }
}

/// A pairing vector is only made where the pairings of its two pairs were
/// found to agree and, where the last point was doubled, the pairing with
/// the double was found to differ from them. That the curve library always
/// finds so is not shown here.
pub proof fn lemma_pairing_vector_is_checked(
    doubles: bool,
    a1: G1Coords,
    a2: G2Coords,
    b1: G1Coords,
    b2: G2Coords,
)
    ensures
        pairing_vector_of(doubles, a1, a2, b1, b2) is Ok ==> {
            &&& pairing_result(a1, a2) is Some
            &&& pairing_result(a1, a2) == pairing_result(b1, b2)
            &&& doubles ==> pairing_result(b1, g2_doubled(b2)) is Some && pairing_result(
                b1,
                g2_doubled(b2),
            ) != pairing_result(a1, a2)
        },
{
}

/// The vector of the pairing check for a seed: scalars `αl`, `βl`, `αr` are
/// drawn and `βr = αl·βl / αr`; the points are `g1·αl`, `g2·βl`, `g1·αr`
/// and `g2·βr`, the last one doubled where the seed is even, and the third
/// is written negated.
pub open spec fn pairing_prod2_vector(seed: u64) -> Result<PairingWires, GenError> {
    let (alpha_l, beta_l, alpha_r) = seeded_scalars(seed);
    if alpha_r == 0 {
        Err(GenError::NotInvertible)
    } else {
        let beta_r = fr_quotient((alpha_l * beta_l) % fr_modulus(), alpha_r);
        pairing_vector_of(
            seed % 2 == 0,
            g1_generator_times(alpha_l),
            g2_generator_times(beta_l),
            g1_generator_times(alpha_r),
            g2_generator_times(beta_r),
        )
    }
}

/// The records of the four points of a pairing check.
pub fn pairing_vector(a1: G1Affine, a2: G2Affine, b1: G1Affine, b2: G2Affine) -> (r: Result<
    (G1Point, G2Point, G1Point, G2Point),
    GenError,
>)
    ensures
        r matches Ok(v) ==> pairing_records(a1.coords(), a2.coords(), b1.coords(), b2.coords())
            == Ok::<PairingWires, GenError>(PairingWires { a1: v.0@, a2: v.1@, b1: v.2@, b2: v.3@ }),
        r matches Err(e) ==> pairing_records(a1.coords(), a2.coords(), b1.coords(), b2.coords())
            == Err::<PairingWires, GenError>(e),
{
    proof {
        lemma_bn254_modulus_bits();
    }
    if a2.infinity || b2.infinity {
        return Err(GenError::NoRecordForIdentity);
    }
    Ok(
        (
            G1Point::from_affine(a1),
            G2Point::from_affine(a2),
            G1Point::from_affine(b1),
            G2Point::from_affine(b2),
        ),
    )
}

/// The quotient of the product of two scalars by a third, which is not
/// zero.
pub fn scalar_quotient(alpha_l: Fr, beta_l: Fr, alpha_r: Fr) -> (r: Result<Fr, GenError>)
    requires
        is_canonical(alpha_l),
        is_canonical(beta_l),
        is_canonical(alpha_r),
    ensures
        alpha_r.value() == 0 ==> r == Err::<Fr, GenError>(GenError::NotInvertible),
        alpha_r.value() != 0 ==> (r matches Ok(q) && is_canonical(q) && q.value() == fr_quotient(
            (alpha_l.value() * beta_l.value()) % fr_modulus(),
            alpha_r.value(),
        )),
{
    match fr_inverse(alpha_r) {
        None => Err(GenError::NotInvertible),
        Some(inverse) => {
            proof {
                lemma_fr_inverse_unique(alpha_r.value(), inverse.value());
            }
            let product = fr_mul(alpha_l, beta_l);
            Ok(fr_mul(product, inverse))
        },
    }
}

/// Two pairs of points whose pairings agree, for a check that the product
/// of the pairing of the first pair and the pairing of the negated second
/// pair is one. For an even seed the last point is doubled, so that the
/// check has to fail.
pub fn bn254_pairing_prod2(seed: u64) -> (r: Result<(G1Point, G2Point, G1Point, G2Point), GenError>)
    ensures
        r matches Ok(v) ==> pairing_prod2_vector(seed) == Ok::<PairingWires, GenError>(
            PairingWires { a1: v.0@, a2: v.1@, b1: v.2@, b2: v.3@ },
        ),
        r matches Err(e) ==> pairing_prod2_vector(seed) == Err::<PairingWires, GenError>(e),
{
    let (alpha_l, beta_l, alpha_r) = sample_scalars(seed);
    let beta_r = match scalar_quotient(alpha_l, beta_l, alpha_r) {
        Ok(q) => q,
        Err(e) => {
            return Err(e);
        },
    };
    let a1 = g1_mul_generator(alpha_l);
    let a2 = g2_mul_generator(beta_l);
    let b1 = g1_mul_generator(alpha_r);
    let b2 = g2_mul_generator(beta_r);
    let left = pairing(a1, a2);
    let right = pairing(b1, b2);
    if !pairings_agree(&left, &right) {
        return Err(GenError::InvariantViolated);
    }
    if seed % 2 == 0 {
        let doubled = g2_double(b2);
        let right_doubled = pairing(b1, doubled);
        if !pairings_differ(&left, &right_doubled) {
            return Err(GenError::InvariantViolated);
        }
        pairing_vector(a1, a2, g1_neg(b1), doubled)
    } else {
        pairing_vector(a1, a2, g1_neg(b1), b2)
    }
}

/// The vector of a multi-scalar multiplication: the records of the bases,
/// the scalars, and the record of the product.
pub open spec fn msm_vector_of(bases: Seq<G1Coords>, scalars: Seq<nat>, product: G1Coords) -> (
    Seq<G1Wire>,
    Seq<nat>,
    G1Wire,
) {
    (Seq::new(bases.len(), |i: int| g1_to_wire(bases[i])), scalars, g1_to_wire(product))
}

/// The records of the bases, the scalars as integers, and the record of
/// the product.
pub fn msm_vector(bases: &Vec<G1Affine>, scalars: &Vec<Fr>, product: G1Affine) -> (r: (
    Vec<G1Point>,
    Vec<U256>,
    G1Point,
))
    ensures
        (wires_of(r.0@), uints_of(r.1@), r.2@) == msm_vector_of(
            coords_of(bases@),
            values_of(scalars@),
            product.coords(),
        ),
{
    proof {
        lemma_bn254_modulus_bits();
    }
    let mut records: Vec<G1Point> = Vec::new();
    let n = bases.len();
    let mut i: usize = 0;
    while i < n
        invariant
            i <= n,
            n == bases@.len(),
            bit_length(fq_modulus()) <= 256,
            bit_length(fr_modulus()) <= 256,
            records@.len() == i,
            forall|j: int| 0 <= j < i ==> (#[trigger] records@[j])@ == g1_to_wire(bases@[j].coords()),
        decreases n - i,
    {
        records.push(G1Point::from_affine(bases[i]));
        i += 1;
    }
    let mut integers: Vec<U256> = Vec::new();
    let m = scalars.len();
    let mut k: usize = 0;
    while k < m
        invariant
            k <= m,
            m == scalars@.len(),
            bit_length(fq_modulus()) <= 256,
            bit_length(fr_modulus()) <= 256,
            integers@.len() == k,
            forall|j: int| 0 <= j < k ==> (#[trigger] integers@[j])@ == scalars@[j].value(),
        decreases m - k,
    {
        integers.push(field_to_u256(scalars[k]));
        k += 1;
    }
    let record = G1Point::from_affine(product);
    proof {
        let want = msm_vector_of(coords_of(bases@), values_of(scalars@), product.coords());
        assert(wires_of(records@) =~= want.0);
        assert(uints_of(integers@) =~= want.1);
    }
    (records, integers, record)
}

/// As many bases and scalars as asked for, drawn from the test generator,
/// and their product. The draws may differ from run to run.
pub fn bn254_msm(count: u64) -> (r: (Vec<G1Point>, Vec<U256>, G1Point))
    ensures
        r.0@.len() == count,
        r.1@.len() == count,
        exists|bases: Seq<G1Coords>, scalars: Seq<nat>|
            bases.len() == count && scalars.len() == count && (wires_of(r.0@), uints_of(r.1@), r.2@)
                == #[trigger] msm_vector_of(bases, scalars, g1_msm_result(bases, scalars)),
{
    let mut rng = test_rng();
    let mut bases: Vec<G1Affine> = Vec::new();
    let mut scalars: Vec<Fr> = Vec::new();
    let mut i: u64 = 0;
    while i < count
        invariant
            i <= count,
            bases@.len() == i,
            scalars@.len() == i,
            forall|j: int| 0 <= j < bases@.len() ==> (#[trigger] bases@[j]).wf(),
            forall|j: int| 0 <= j < scalars@.len() ==> is_canonical(#[trigger] scalars@[j]),
        decreases count - i,
    {
        let base = draw_g1(&mut rng);
        let scalar = draw_scalar(&mut rng);
        bases.push(base);
        scalars.push(scalar);
        i += 1;
    }
    let product = g1_msm(&bases, &scalars);
    let r = msm_vector(&bases, &scalars, product);
    proof {
        let b = coords_of(bases@);
        let s = values_of(scalars@);
        assert((wires_of(r.0@), uints_of(r.1@), r.2@) == msm_vector_of(b, s, g1_msm_result(b, s)));
        assert(wires_of(r.0@).len() == count);
        assert(uints_of(r.1@).len() == count);
    }
    r
}

} // verus!
