//! Affine curve points and their wire records.
//!
//! A point of the first group travels as two 256-bit integers, one of the
//! second group as four. The record `(0, 0)` stands for the identity of the
//! first group, as the pairing precompile has it; the second group has no
//! record for its identity.

use crate::field::{bit_length, field_to_u256, is_canonical, u256_to_field, Fp2, PrimeField};
use crate::uint::U256;
use vstd::arithmetic::div_mod::lemma_small_mod;
use vstd::prelude::*;

verus! {

/// The wire record of a point of the first group.
#[derive(Clone, Copy, Debug)]
pub struct G1Point {
    pub x: U256,
    pub y: U256,
}

/// The wire record of a point of the second group: each coordinate is
/// `c0 + c1·u`, written `c0` first.
#[derive(Clone, Copy, Debug)]
pub struct G2Point {
    pub x0: U256,
    pub x1: U256,
    pub y0: U256,
    pub y1: U256,
}

/// The two integers of a `G1Point`.
pub struct G1Wire {
    pub x: nat,
    pub y: nat,
}

/// The four integers of a `G2Point`.
pub struct G2Wire {
    pub x0: nat,
    pub x1: nat,
    pub y0: nat,
    pub y1: nat,
}

impl View for G1Point {
    type V = G1Wire;

    open spec fn view(&self) -> G1Wire {
        G1Wire { x: self.x@, y: self.y@ }
    }
}

impl View for G2Point {
    type V = G2Wire;

    open spec fn view(&self) -> G2Wire {
        G2Wire { x0: self.x0@, x1: self.x1@, y0: self.y0@, y1: self.y1@ }
    }
}

impl Default for G1Point {
    /// The record of the identity.
    fn default() -> (w: G1Point)
        ensures
            w@ == (G1Wire { x: 0, y: 0 }),
    {
        G1Point { x: U256::from_u64(0), y: U256::from_u64(0) }
    }
}

impl PartialEq for G1Point {
    fn eq(&self, other: &Self) -> (r: bool) {
        self.x == other.x && self.y == other.y
    }
}

impl Eq for G1Point {

}

impl vstd::std_specs::cmp::PartialEqSpecImpl for G1Point {
    open spec fn obeys_eq_spec() -> bool {
        true
    }

    open spec fn eq_spec(&self, other: &Self) -> bool {
        self@ == other@
    }
}

impl PartialEq for G2Point {
    fn eq(&self, other: &Self) -> (r: bool) {
        self.x0 == other.x0 && self.x1 == other.x1 && self.y0 == other.y0 && self.y1 == other.y1
    }
}

impl Eq for G2Point {

}

impl vstd::std_specs::cmp::PartialEqSpecImpl for G2Point {
    open spec fn obeys_eq_spec() -> bool {
        true
    }

    open spec fn eq_spec(&self, other: &Self) -> bool {
        self@ == other@
    }
}

/// An affine point with coordinates in `C`, or the point at infinity. The
/// identity is held with both coordinates zero.
#[derive(Clone, Copy, Debug, PartialEq, Eq)]
pub struct Affine<C> {
    pub x: C,
    pub y: C,
    pub infinity: bool,
}

/// A point of the first group by the representatives of its coordinates.
pub struct G1Coords {
    pub x: nat,
    pub y: nat,
    pub infinity: bool,
}

/// A point of the second group by the representatives of its coordinates.
pub struct G2Coords {
    pub x0: nat,
    pub x1: nat,
    pub y0: nat,
    pub y1: nat,
    pub infinity: bool,
}

/// The record of a point of the first group: `(0, 0)` for the identity, else
/// its two coordinates.
pub open spec fn g1_to_wire(p: G1Coords) -> G1Wire {
    if p.infinity {
        G1Wire { x: 0, y: 0 }
    } else {
        G1Wire { x: p.x, y: p.y }
    }
}

/// The point a record of the first group stands for over the field of the
/// given modulus: the identity for `(0, 0)`, else the point with the two
/// integers reduced. Nothing says that it is on the curve.
pub open spec fn wire_to_g1(modulus: nat, w: G1Wire) -> G1Coords {
    if w.x == 0 && w.y == 0 {
        G1Coords { x: 0, y: 0, infinity: true }
    } else {
        G1Coords { x: w.x % modulus, y: w.y % modulus, infinity: false }
    }
}

/// The record of a point of the second group that is not the identity.
pub open spec fn g2_to_wire(p: G2Coords) -> G2Wire {
    G2Wire { x0: p.x0, x1: p.x1, y0: p.y0, y1: p.y1 }
}

/// The point a record of the second group stands for over the field of the
/// given modulus; never the identity.
pub open spec fn wire_to_g2(modulus: nat, w: G2Wire) -> G2Coords {
    G2Coords {
        x0: w.x0 % modulus,
        x1: w.x1 % modulus,
        y0: w.y0 % modulus,
        y1: w.y1 % modulus,
        infinity: false,
    }
}

impl<F: PrimeField> Affine<F> {
    /// The point by the representatives of its coordinates.
    pub open spec fn coords(self) -> G1Coords {
        G1Coords { x: self.x.value(), y: self.y.value(), infinity: self.infinity }
    }

    /// Both coordinates are canonical, and those of the identity are zero.
    pub open spec fn wf(self) -> bool {
        &&& is_canonical(self.x)
        &&& is_canonical(self.y)
        &&& self.infinity ==> self.x.value() == 0 && self.y.value() == 0
    }

    /// The point a record stands for: the identity for `(0, 0)`, else the
    /// point with the record's integers reduced into the field, without a
    /// test that it is on the curve.
    pub fn from_g1_point(w: G1Point) -> (p: Self)
        requires
            bit_length(F::modulus()) <= 256,
        ensures
            p.coords() == wire_to_g1(F::modulus(), w@),
            p.wf(),
    {
        proof {
            F::lemma_modulus_above_one();
            lemma_small_mod(0, F::modulus());
        }
        let infinity = w == G1Point::default();
        Affine { x: u256_to_field(w.x), y: u256_to_field(w.y), infinity }
    }
}

impl<F: PrimeField> Affine<Fp2<F>> {
    /// The point by the representatives of its coordinates.
    pub open spec fn coords(self) -> G2Coords {
        G2Coords {
            x0: self.x.c0.value(),
            x1: self.x.c1.value(),
            y0: self.y.c0.value(),
            y1: self.y.c1.value(),
            infinity: self.infinity,
        }
    }

    /// All four coordinate parts are canonical, and those of the identity are
    /// zero.
    pub open spec fn wf(self) -> bool {
        &&& is_canonical(self.x.c0)
        &&& is_canonical(self.x.c1)
        &&& is_canonical(self.y.c0)
        &&& is_canonical(self.y.c1)
        &&& self.infinity ==> self.x.c0.value() == 0 && self.x.c1.value() == 0
            && self.y.c0.value() == 0 && self.y.c1.value() == 0
    }

    /// The point a record stands for: its four integers reduced into the
    /// field, without a test that the point is on the curve.
    pub fn from_g2_point(w: G2Point) -> (p: Self)
        requires
            bit_length(F::modulus()) <= 256,
        ensures
            p.coords() == wire_to_g2(F::modulus(), w@),
            p.wf(),
    {
        Affine {
            x: Fp2 { c0: u256_to_field(w.x0), c1: u256_to_field(w.x1) },
            y: Fp2 { c0: u256_to_field(w.y0), c1: u256_to_field(w.y1) },
            infinity: false,
        }
    }
}

impl G1Point {
    /// The record of a point: `(0, 0)` for the identity, else its
    /// coordinates.
    pub fn from_affine<F: PrimeField>(p: Affine<F>) -> (w: G1Point)
        requires
            bit_length(F::modulus()) <= 256,
        ensures
            w@ == g1_to_wire(p.coords()),
    {
        if p.infinity {
            G1Point { x: U256::from_u64(0), y: U256::from_u64(0) }
        } else {
            G1Point { x: field_to_u256(p.x), y: field_to_u256(p.y) }
        }
    }
}

impl G2Point {
    /// The record of a point that is not the identity.
    pub fn from_affine<F: PrimeField>(p: Affine<Fp2<F>>) -> (w: G2Point)
        requires
            bit_length(F::modulus()) <= 256,
            !p.infinity,
        ensures
            w@ == g2_to_wire(p.coords()),
    {
        G2Point {
            x0: field_to_u256(p.x.c0),
            x1: field_to_u256(p.x.c1),
            y0: field_to_u256(p.y.c0),
            y1: field_to_u256(p.y.c1),
        }
    }
}

/// The identity of the first group is written `(0, 0)`, and `(0, 0)` is read
/// as the identity, over every field.
pub proof fn lemma_identity_convention(modulus: nat)
    ensures
        g1_to_wire(G1Coords { x: 0, y: 0, infinity: true }) == (G1Wire { x: 0, y: 0 }),
        wire_to_g1(modulus, G1Wire { x: 0, y: 0 }) == (G1Coords { x: 0, y: 0, infinity: true }),
{
}

/// Points of the first group with the same coordinates are the same point.
pub proof fn lemma_g1_coords_injective<F: PrimeField>(p: Affine<F>, q: Affine<F>)
    requires
        p.coords() == q.coords(),
    ensures
        p == q,
{
    F::lemma_value_injective(p.x, q.x);
    F::lemma_value_injective(p.y, q.y);
}

/// Points of the second group with the same coordinates are the same point.
pub proof fn lemma_g2_coords_injective<F: PrimeField>(p: Affine<Fp2<F>>, q: Affine<Fp2<F>>)
    requires
        p.coords() == q.coords(),
    ensures
        p == q,
{
    F::lemma_value_injective(p.x.c0, q.x.c0);
    F::lemma_value_injective(p.x.c1, q.x.c1);
    F::lemma_value_injective(p.y.c0, q.y.c0);
    F::lemma_value_injective(p.y.c1, q.y.c1);
}

/// Writing a point of the first group and reading the record back gives the
/// same point, the identity included. The affine origin is left out: it is
/// written like the identity, and no curve with a nonzero constant term holds
/// it.
pub proof fn lemma_g1_round_trip<F: PrimeField>(p: Affine<F>)
    requires
        p.wf(),
        !p.infinity ==> !(p.x.value() == 0 && p.y.value() == 0),
    ensures
        wire_to_g1(F::modulus(), g1_to_wire(p.coords())) == p.coords(),
{
    lemma_small_mod(p.x.value(), F::modulus());
    lemma_small_mod(p.y.value(), F::modulus());
}

/// Writing a point of the second group other than the identity and reading
/// the record back gives the same point.
pub proof fn lemma_g2_round_trip<F: PrimeField>(p: Affine<Fp2<F>>)
    requires
        p.wf(),
        !p.infinity,
    ensures
        wire_to_g2(F::modulus(), g2_to_wire(p.coords())) == p.coords(),
{
    lemma_small_mod(p.x.c0.value(), F::modulus());
    lemma_small_mod(p.x.c1.value(), F::modulus());
    lemma_small_mod(p.y.c0.value(), F::modulus());
    lemma_small_mod(p.y.c1.value(), F::modulus());
}

} // verus!
