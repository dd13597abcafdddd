//! Field elements and points drawn from a pseudo-random generator.
//!
//! A generator seeded with a `u64` gives the same draws every time, so what
//! is drawn for a seed has a name. The unseeded test generator of `ark_std`
//! may be seeded from the environment; of its draws only their validity is
//! known.

use crate::curve::G1Affine;
use crate::field::{is_canonical, Fq, Fr, PrimeField};
use crate::point::{Affine, G1Coords};
use ark_bn254::{Fq as ArkFq, Fr as ArkFr, G1Affine as ArkG1};
use ark_ff::PrimeField as ArkPrimeField;
use ark_std::rand::rngs::StdRng;
use ark_std::rand::{RngCore, SeedableRng};
use ark_std::UniformRand;
use vstd::prelude::*;

verus! {

/// The first three scalars drawn after seeding with `seed`.
pub uninterp spec fn seeded_scalars(seed: u64) -> (nat, nat, nat);

/// The first base-field element drawn after seeding with `seed`.
pub uninterp spec fn seeded_base_element(seed: u64) -> nat;

/// The first two points of the first group drawn after seeding with `seed`.
pub uninterp spec fn seeded_g1_pair(seed: u64) -> (G1Coords, G1Coords);

/// The first point of the first group drawn after seeding with `seed`.
pub uninterp spec fn seeded_g1(seed: u64) -> G1Coords;

/// Three draws of `UniformRand::rand` for the scalar field from a `StdRng`
/// that `SeedableRng::seed_from_u64` made, in the order drawn.
#[verifier::external_body]
pub(crate) fn sample_scalars(seed: u64) -> (r: (Fr, Fr, Fr))
    ensures
        (r.0.value(), r.1.value(), r.2.value()) == seeded_scalars(seed),
        is_canonical(r.0),
        is_canonical(r.1),
        is_canonical(r.2),
{
    let mut rng = StdRng::seed_from_u64(seed);
    let a = Fr { limbs: ArkFr::rand(&mut rng).into_bigint().0 };
    let b = Fr { limbs: ArkFr::rand(&mut rng).into_bigint().0 };
    let c = Fr { limbs: ArkFr::rand(&mut rng).into_bigint().0 };
    (a, b, c)
}

/// One draw of `UniformRand::rand` for the base field from a `StdRng` that
/// `SeedableRng::seed_from_u64` made.
#[verifier::external_body]
pub(crate) fn sample_base_element(seed: u64) -> (r: Fq)
    ensures
        r.value() == seeded_base_element(seed),
        is_canonical(r),
{
    let mut rng = StdRng::seed_from_u64(seed);
    Fq { limbs: ArkFq::rand(&mut rng).into_bigint().0 }
}

/// Two draws of `UniformRand::rand` for the first group from a `StdRng` that
/// `SeedableRng::seed_from_u64` made, in the order drawn.
#[verifier::external_body]
pub(crate) fn sample_g1_pair(seed: u64) -> (r: (G1Affine, G1Affine))
    ensures
        (r.0.coords(), r.1.coords()) == seeded_g1_pair(seed),
        r.0.wf(),
        r.1.wf(),
{
    let mut rng = StdRng::seed_from_u64(seed);
    let f = |p: ArkG1| Affine {
        x: Fq { limbs: p.x.into_bigint().0 },
        y: Fq { limbs: p.y.into_bigint().0 },
        infinity: p.infinity,
    };
    let a = f(ArkG1::rand(&mut rng));
    (a, f(ArkG1::rand(&mut rng)))
}

/// One draw of `UniformRand::rand` for the first group from a `StdRng` that
/// `SeedableRng::seed_from_u64` made.
#[verifier::external_body]
pub(crate) fn sample_g1(seed: u64) -> (r: G1Affine)
    ensures
        r.coords() == seeded_g1(seed),
        r.wf(),
{
    let mut rng = StdRng::seed_from_u64(seed);
    let p = ArkG1::rand(&mut rng);
    Affine {
        x: Fq { limbs: p.x.into_bigint().0 },
        y: Fq { limbs: p.y.into_bigint().0 },
        infinity: p.infinity,
    }
}

/// The generator that `ark_std::test_rng` hands out. Its type has no name
/// outside `ark_std`, so it is kept behind a box.
#[verifier::external_body]
pub(crate) struct TestRng {
    inner: Box<dyn RngCore>,
}

/// `ark_std::test_rng`: a generator for tests, seeded with a constant or,
/// where `ark_std` is built to allow it, from the environment.
#[verifier::external_body]
pub(crate) fn test_rng() -> TestRng {
    TestRng { inner: Box::new(ark_std::test_rng()) }
}

/// One draw of `UniformRand::rand` for the first group from the test
/// generator.
#[verifier::external_body]
pub(crate) fn draw_g1(rng: &mut TestRng) -> (r: G1Affine)
    ensures
        r.wf(),
{
    let p = ArkG1::rand(&mut *rng.inner);
    Affine {
        x: Fq { limbs: p.x.into_bigint().0 },
        y: Fq { limbs: p.y.into_bigint().0 },
        infinity: p.infinity,
    }
}

/// One draw of `UniformRand::rand` for the scalar field from the test
/// generator.
#[verifier::external_body]
pub(crate) fn draw_scalar(rng: &mut TestRng) -> (r: Fr)
    ensures
        is_canonical(r),
{
    Fr { limbs: ArkFr::rand(&mut *rng.inner).into_bigint().0 }
}

} // verus!
