use ark_ec::{AffineRepr, CurveGroup};
use ark_ff::PrimeField as ArkPrimeField;
use ark_std::UniformRand;
use bn254_contract_adapter::curve::{G1Affine, G2Affine};
use bn254_contract_adapter::field::{Fp2, Fq};
use bn254_contract_adapter::point::{Affine, G1Point, G2Point};
use bn254_contract_adapter::uint::U256;

fn fq(x: ark_bn254::Fq) -> Fq {
    Fq { limbs: x.into_bigint().0 }
}

fn g1(p: ark_bn254::G1Affine) -> G1Affine {
    Affine { x: fq(p.x), y: fq(p.y), infinity: p.infinity }
}

fn g2(p: ark_bn254::G2Affine) -> G2Affine {
    Affine {
        x: Fp2 { c0: fq(p.x.c0), c1: fq(p.x.c1) },
        y: Fp2 { c0: fq(p.y.c0), c1: fq(p.y.c1) },
        infinity: p.infinity,
    }
}

#[test]
fn identity_is_written_as_zero_zero() {
    let identity = g1(ark_bn254::G1Affine::identity());
    assert!(identity.infinity);
    let w = G1Point::from_affine(identity);
    assert_eq!(w, G1Point { x: U256::zero(), y: U256::zero() });
    assert_eq!(w, G1Point::default());
}

#[test]
fn zero_zero_is_read_as_identity() {
    let p: G1Affine = Affine::from_g1_point(G1Point::default());
    assert!(p.infinity);
    assert_eq!(p, g1(ark_bn254::G1Affine::identity()));
}

#[test]
fn g1_generator_is_written_as_one_two() {
    let w = G1Point::from_affine(g1(ark_bn254::G1Affine::generator()));
    assert_eq!(w, G1Point { x: U256::from_u64(1), y: U256::from_u64(2) });
    let p: G1Affine = Affine::from_g1_point(w);
    assert!(!p.infinity);
    assert_eq!(p.x.limbs, [1, 0, 0, 0]);
    assert_eq!(p.y.limbs, [2, 0, 0, 0]);
}

#[test]
fn g1_points_round_trip() {
    let mut rng = ark_std::test_rng();
    for _ in 0..20 {
        let p = g1(ark_bn254::G1Affine::rand(&mut rng));
        let back: G1Affine = Affine::from_g1_point(G1Point::from_affine(p));
        assert_eq!(back, p);
    }
    let identity = g1(ark_bn254::G1Affine::identity());
    let back: G1Affine = Affine::from_g1_point(G1Point::from_affine(identity));
    assert_eq!(back, identity);
}

#[test]
fn g2_points_round_trip() {
    let mut rng = ark_std::test_rng();
    for _ in 0..10 {
        let p = g2(ark_bn254::G2Affine::rand(&mut rng));
        let w = G2Point::from_affine(p);
        assert_eq!(w.x0.limbs, p.x.c0.limbs);
        assert_eq!(w.x1.limbs, p.x.c1.limbs);
        assert_eq!(w.y0.limbs, p.y.c0.limbs);
        assert_eq!(w.y1.limbs, p.y.c1.limbs);
        let back: G2Affine = Affine::from_g2_point(w);
        assert_eq!(back, p);
    }
}

#[test]
fn decoding_does_not_check_the_curve() {
    // (1, 1) is not on the curve, yet it decodes
    let w = G1Point { x: U256::from_u64(1), y: U256::from_u64(1) };
    let p: G1Affine = Affine::from_g1_point(w);
    assert!(!p.infinity);
    assert_eq!(p.x.limbs, [1, 0, 0, 0]);
    assert_eq!(p.y.limbs, [1, 0, 0, 0]);
}

#[test]
fn decoding_reduces_coordinates() {
    let mut limbs = ark_bn254::Fq::MODULUS.0;
    limbs[0] += 1;
    let w = G1Point { x: U256 { limbs }, y: U256::from_u64(2) };
    let p: G1Affine = Affine::from_g1_point(w);
    assert_eq!(p, g1(ark_bn254::G1Affine::generator()));
    let w2 = G2Point { x0: U256 { limbs }, x1: U256::zero(), y0: U256 { limbs: ark_bn254::Fq::MODULUS.0 }, y1: U256::from_u64(3) };
    let q: G2Affine = Affine::from_g2_point(w2);
    assert!(!q.infinity);
    assert_eq!(q.x.c0.limbs, [1, 0, 0, 0]);
    assert_eq!(q.x.c1.limbs, [0, 0, 0, 0]);
    assert_eq!(q.y.c0.limbs, [0, 0, 0, 0]);
    assert_eq!(q.y.c1.limbs, [3, 0, 0, 0]);
}

#[test]
fn the_affine_origin_does_not_round_trip() {
    // the origin is on no curve with a nonzero constant term; written, it
    // reads back as the identity
    let origin: G1Affine = Affine { x: Fq { limbs: [0; 4] }, y: Fq { limbs: [0; 4] }, infinity: false };
    let back: G1Affine = Affine::from_g1_point(G1Point::from_affine(origin));
    assert!(back.infinity);
    assert_ne!(back, origin);
}

#[test]
fn a_multiple_of_the_generator_round_trips() {
    let p = (ark_bn254::G1Affine::generator() * ark_bn254::Fr::from(12345u64)).into_affine();
    let w = G1Point::from_affine(g1(p));
    assert_eq!(w.x.limbs, p.x.into_bigint().0);
    assert_eq!(w.y.limbs, p.y.into_bigint().0);
    let back: G1Affine = Affine::from_g1_point(w);
    assert_eq!(back, g1(p));
}

#[test]
fn wire_records_compare_by_fields() {
    let a = G1Point { x: U256::from_u64(1), y: U256::from_u64(2) };
    let b = G1Point { x: U256::from_u64(1), y: U256::from_u64(3) };
    assert_ne!(a, b);
    assert_eq!(a, a);
    let c = G2Point { x0: U256::from_u64(1), x1: U256::from_u64(2), y0: U256::from_u64(3), y1: U256::from_u64(4) };
    let d = G2Point { x0: U256::from_u64(1), x1: U256::from_u64(2), y0: U256::from_u64(3), y1: U256::from_u64(5) };
    assert_ne!(c, d);
    assert_eq!(c, c);
}
