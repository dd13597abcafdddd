//! The two groups of BN254 and its pairing, as arkworks computes them.
//!
//! Each function here hands plain coordinates to the outside library and
//! takes plain coordinates back. What a group operation returns is a function
//! of its arguments that this crate does not restate; it is given a name, and
//! the generators say which names their vectors are made of.

use crate::field::{fq_modulus, is_canonical, negated, Fp2, Fq, Fr, PrimeField};
use crate::point::{
    g1_to_wire, lemma_g1_round_trip, wire_to_g1, Affine, G1Coords, G2Coords,
};
use crate::uint::U256;
use ark_bn254::{Bn254, Fq2 as ArkFq2, Fr as ArkFr, G1Affine as ArkG1, G2Affine as ArkG2};
use ark_ec::pairing::Pairing;
use ark_ec::short_weierstrass::SWCurveConfig;
use ark_ec::{AffineRepr, CurveGroup, Group};
use ark_ff::{BigInt, Field};
use ark_ff::PrimeField as ArkPrimeField;
use vstd::prelude::*;

verus! {

/// A point of the first group of BN254.
pub type G1Affine = Affine<Fq>;

/// A point of the second group of BN254.
pub type G2Affine = Affine<Fp2<Fq>>;

/// A value of the pairing: the twelve base-field coefficients of an element
/// of the target field, each by its canonical representative.
#[derive(Clone, Debug)]
pub struct Gt {
    pub coeffs: Vec<U256>,
}

impl View for Gt {
    type V = Seq<nat>;

    open spec fn view(&self) -> Seq<nat> {
        Seq::new(self.coeffs@.len(), |i: int| self.coeffs@[i]@)
    }
}

/// The generator of the first group times the scalar `s`.
pub uninterp spec fn g1_generator_times(s: nat) -> G1Coords;

/// The generator of the second group times the scalar `s`.
pub uninterp spec fn g2_generator_times(s: nat) -> G2Coords;

/// The sum of two points of the first group.
pub uninterp spec fn g1_sum(a: G1Coords, b: G1Coords) -> G1Coords;

/// The double of a point of the second group.
pub uninterp spec fn g2_doubled(a: G2Coords) -> G2Coords;

/// The sum of the bases, each times its scalar.
pub uninterp spec fn g1_msm_result(bases: Seq<G1Coords>, scalars: Seq<nat>) -> G1Coords;

/// The pairing of two points, `None` where the final exponentiation has no
/// value.
pub uninterp spec fn pairing_result(p: G1Coords, q: G2Coords) -> Option<Seq<nat>>;

/// The generator of the second group.
pub open spec fn g2_generator_coords() -> G2Coords {
    G2Coords {
        x0: 10857046999023057135944570762232829481370756359578518086990519993285655852781nat,
        x1: 11559732032986387107991004021392285783925812861821192530917403151452391805634nat,
        y0: 8495653923123431417604973247489272438418190587263600148770280649306958101930nat,
        y1: 4082367875863433681332203403145435568316851327593401208105741076214120093531nat,
        infinity: false,
    }
}

/// Whether a point is the identity or meets `y² = x³ + 3` over the base
/// field: the curve of the first group.
pub open spec fn g1_on_curve(p: G1Coords) -> bool {
    p.infinity || (p.y * p.y) % fq_modulus() == (p.x * p.x * p.x + 3) % fq_modulus()
}

/// The negative of a point of the first group: the same `x`, and `y`
/// negated in the base field.
pub open spec fn g1_negated(p: G1Coords) -> G1Coords {
    G1Coords { x: p.x, y: negated(fq_modulus(), p.y), infinity: p.infinity }
}

/// The coordinates of each point of a sequence.
pub open spec fn coords_of(points: Seq<G1Affine>) -> Seq<G1Coords> {
    Seq::new(points.len(), |i: int| points[i].coords())
}

/// The representative of each scalar of a sequence.
pub open spec fn values_of(scalars: Seq<Fr>) -> Seq<nat> {
    Seq::new(scalars.len(), |i: int| scalars[i].value())
}

/// `AffineRepr::generator` of `ark_ec` for the second group of BN254: the
/// fixed generator, whose coordinates `ark_bn254` gives as constants.
#[verifier::external_body]
pub(crate) fn g2_generator() -> (r: G2Affine)
    ensures
        r.coords() == g2_generator_coords(),
        r.wf(),
{
    let g = ArkG2::generator();
    Affine {
        x: Fp2 { c0: Fq { limbs: g.x.c0.into_bigint().0 }, c1: Fq { limbs: g.x.c1.into_bigint().0 } },
        y: Fp2 { c0: Fq { limbs: g.y.c0.into_bigint().0 }, c1: Fq { limbs: g.y.c1.into_bigint().0 } },
        infinity: g.infinity,
    }
}

/// The generator of the first group times a scalar, `Mul::mul` of `ark_ec`
/// followed by `CurveGroup::into_affine`.
#[verifier::external_body]
pub(crate) fn g1_mul_generator(s: Fr) -> (r: G1Affine)
    requires
        is_canonical(s),
    ensures
        r.coords() == g1_generator_times(s.value()),
        r.wf(),
{
    let p = (ArkG1::generator() * ArkFr::from(BigInt(s.limbs))).into_affine();
    Affine {
        x: Fq { limbs: p.x.into_bigint().0 },
        y: Fq { limbs: p.y.into_bigint().0 },
        infinity: p.infinity,
    }
}

/// The generator of the second group times a scalar, `Mul::mul` of `ark_ec`
/// followed by `CurveGroup::into_affine`.
#[verifier::external_body]
pub(crate) fn g2_mul_generator(s: Fr) -> (r: G2Affine)
    requires
        is_canonical(s),
    ensures
        r.coords() == g2_generator_times(s.value()),
        r.wf(),
{
    let p = (ArkG2::generator() * ArkFr::from(BigInt(s.limbs))).into_affine();
    Affine {
        x: Fp2 { c0: Fq { limbs: p.x.c0.into_bigint().0 }, c1: Fq { limbs: p.x.c1.into_bigint().0 } },
        y: Fp2 { c0: Fq { limbs: p.y.c0.into_bigint().0 }, c1: Fq { limbs: p.y.c1.into_bigint().0 } },
        infinity: p.infinity,
    }
}

/// The sum of two points of the first group, `Add::add` of `ark_ec`
/// followed by `CurveGroup::into_affine`.
#[verifier::external_body]
pub(crate) fn g1_add(a: G1Affine, b: G1Affine) -> (r: G1Affine)
    requires
        a.wf(),
        b.wf(),
    ensures
        r.coords() == g1_sum(a.coords(), b.coords()),
        r.wf(),
{
    let x = ArkG1 { x: BigInt(a.x.limbs).into(), y: BigInt(a.y.limbs).into(), infinity: a.infinity };
    let y = ArkG1 { x: BigInt(b.x.limbs).into(), y: BigInt(b.y.limbs).into(), infinity: b.infinity };
    let p = (x + y).into_affine();
    Affine {
        x: Fq { limbs: p.x.into_bigint().0 },
        y: Fq { limbs: p.y.into_bigint().0 },
        infinity: p.infinity,
    }
}

/// The negative of a point of the first group, `Neg::neg` of `ark_ec`: it
/// negates `y` in the base field and leaves the rest.
#[verifier::external_body]
pub(crate) fn g1_neg(a: G1Affine) -> (r: G1Affine)
    requires
        a.wf(),
    ensures
        r.coords() == g1_negated(a.coords()),
        r.wf(),
{
    let x = ArkG1 { x: BigInt(a.x.limbs).into(), y: BigInt(a.y.limbs).into(), infinity: a.infinity };
    let p = -x;
    Affine {
        x: Fq { limbs: p.x.into_bigint().0 },
        y: Fq { limbs: p.y.into_bigint().0 },
        infinity: p.infinity,
    }
}

/// `Affine::is_on_curve` of `ark_ec` for the first group: true for the
/// identity, else whether `y² = x³ + 3` holds in the base field.
#[verifier::external_body]
pub(crate) fn g1_is_on_curve(a: G1Affine) -> (r: bool)
    requires
        a.wf(),
    ensures
        r == g1_on_curve(a.coords()),
{
    let x = ArkG1 { x: BigInt(a.x.limbs).into(), y: BigInt(a.y.limbs).into(), infinity: a.infinity };
    x.is_on_curve()
}

/// The double of a point of the second group, `Group::double` of `ark_ec`
/// followed by `CurveGroup::into_affine`.
#[verifier::external_body]
pub(crate) fn g2_double(a: G2Affine) -> (r: G2Affine)
    requires
        a.wf(),
    ensures
        r.coords() == g2_doubled(a.coords()),
        r.wf(),
{
    let t = |c: Fq| -> ark_bn254::Fq { BigInt(c.limbs).into() };
    let f = |c: ark_bn254::Fq| Fq { limbs: c.into_bigint().0 };
    let x = ArkFq2::new(t(a.x.c0), t(a.x.c1));
    let y = ArkFq2::new(t(a.y.c0), t(a.y.c1));
    let p = (ArkG2 { x, y, infinity: a.infinity }).into_group().double().into_affine();
    Affine {
        x: Fp2 { c0: f(p.x.c0), c1: f(p.x.c1) },
        y: Fp2 { c0: f(p.y.c0), c1: f(p.y.c1) },
        infinity: p.infinity,
    }
}

/// `SWCurveConfig::msm` of `ark_ec` for the first group, followed by
/// `CurveGroup::into_affine`: the sum of the bases, each times its scalar.
/// The outside function refuses slices of different lengths.
#[verifier::external_body]
pub(crate) fn g1_msm(bases: &Vec<G1Affine>, scalars: &Vec<Fr>) -> (r: G1Affine)
    requires
        bases@.len() == scalars@.len(),
        forall|i: int| 0 <= i < bases@.len() ==> (#[trigger] bases@[i]).wf(),
        forall|i: int| 0 <= i < scalars@.len() ==> is_canonical(#[trigger] scalars@[i]),
    ensures
        r.coords() == g1_msm_result(coords_of(bases@), values_of(scalars@)),
        r.wf(),
{
    let b: Vec<ArkG1> = bases.iter().map(|a| ArkG1 {
        x: BigInt(a.x.limbs).into(), y: BigInt(a.y.limbs).into(), infinity: a.infinity,
    }).collect();
    let s: Vec<ArkFr> = scalars.iter().map(|s| BigInt(s.limbs).into()).collect();
    let p = ark_bn254::g1::Config::msm(&b, &s).unwrap().into_affine();
    Affine {
        x: Fq { limbs: p.x.into_bigint().0 },
        y: Fq { limbs: p.y.into_bigint().0 },
        infinity: p.infinity,
    }
}

/// The pairing of BN254: `Pairing::multi_miller_loop` and
/// `Pairing::final_exponentiation` of `ark_ec`, which `Pairing::pairing`
/// runs one after the other and then unwraps. The twelve coefficients come
/// in the order of `Field::to_base_prime_field_elements`.
#[verifier::external_body]
pub(crate) fn pairing(p: G1Affine, q: G2Affine) -> (r: Option<Gt>)
    requires
        p.wf(),
        q.wf(),
    ensures
        r matches Some(e) ==> pairing_result(p.coords(), q.coords()) == Some(e@) && e@.len() == 12,
        r is None ==> pairing_result(p.coords(), q.coords()) is None,
{
    let t = |c: Fq| -> ark_bn254::Fq { BigInt(c.limbs).into() };
    let a = ArkG1 { x: t(p.x), y: t(p.y), infinity: p.infinity };
    let x = ArkFq2::new(t(q.x.c0), t(q.x.c1));
    let y = ArkFq2::new(t(q.y.c0), t(q.y.c1));
    let b = ArkG2 { x, y, infinity: q.infinity };
    let e = Bn254::final_exponentiation(Bn254::multi_miller_loop([a], [b]));
    e.map(|t| Gt {
        coeffs: t.0.to_base_prime_field_elements().map(|c| U256 { limbs: c.into_bigint().0 }).collect(),
    })
}

/// Writing a point on the curve of the first group and reading the record
/// back gives the same point, the identity included: the curve does not hold
/// the affine origin.
pub proof fn lemma_bn254_g1_round_trip(p: G1Affine)
    requires
        p.wf(),
        g1_on_curve(p.coords()),
    ensures
        wire_to_g1(fq_modulus(), g1_to_wire(p.coords())) == p.coords(),
{
    let c = p.coords();
    if !c.infinity && c.x == 0 && c.y == 0 {
        assert(c.y * c.y == 0 && c.x * c.x * c.x + 3 == 3) by (nonlinear_arith)
            requires
                c.x == 0,
                c.y == 0,
        ;
        assert(0nat % fq_modulus() == 0 && 3nat % fq_modulus() == 3);
    }
    lemma_g1_round_trip(p);
}

/// Whether two pairing values are the same element of the target field.
pub fn gt_eq(a: &Gt, b: &Gt) -> (r: bool)
    ensures
        r == (a@ == b@),
{
    if a.coeffs.len() != b.coeffs.len() {
        assert(a@.len() != b@.len());
        return false;
    }
    let n = a.coeffs.len();
    let mut i: usize = 0;
    while i < n
        invariant
            i <= n,
            n == a.coeffs@.len(),
            n == b.coeffs@.len(),
            forall|j: int| 0 <= j < i ==> a@[j] == b@[j],
        decreases n - i,
    {
        if a.coeffs[i] != b.coeffs[i] {
            assert(a@[i as int] != b@[i as int]);
            return false;
        }
        i += 1;
    }
    assert(a@ =~= b@);
    true
}

} // verus!
