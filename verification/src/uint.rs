//! The 256-bit unsigned integer of the wire records.

use crate::bytes::{be_value, le_value};
use vstd::prelude::*;

verus! {

/// `2^64`, the weight of the second limb.
pub open spec fn limb_base() -> nat {
    0x1_0000_0000_0000_0000nat
}

/// The number four limbs stand for, least significant limb first.
pub open spec fn limbs_value(limbs: Seq<u64>) -> nat {
    limbs[0] as nat + limb_base() * (limbs[1] as nat + limb_base() * (limbs[2] as nat
        + limb_base() * (limbs[3] as nat)))
}

/// `2^256`, one more than the largest `U256`.
pub open spec fn u256_bound() -> nat {
    0x1_0000_0000_0000_0000_0000_0000_0000_0000_0000_0000_0000_0000_0000_0000_0000_0000nat
}

/// A 256-bit unsigned integer, held as four 64-bit limbs with the least
/// significant limb first.
#[derive(Clone, Copy, Debug)]
pub struct U256 {
    pub limbs: [u64; 4],
}

impl View for U256 {
    type V = nat;

    open spec fn view(&self) -> nat {
        limbs_value(self.limbs@)
    }
}

/// Two `U256` with the same value have the same limbs.
pub proof fn lemma_u256_value_injective(a: U256, b: U256)
    requires
        a@ == b@,
    ensures
        a == b,
{
    let la = a.limbs@;
    let lb = b.limbs@;
    assert(la[0] == lb[0] && la[1] == lb[1] && la[2] == lb[2] && la[3] == lb[3]) by {
        let ha = la[1] as nat + limb_base() * (la[2] as nat + limb_base() * (la[3] as nat));
        let hb = lb[1] as nat + limb_base() * (lb[2] as nat + limb_base() * (lb[3] as nat));
        assert(la[0] as nat + limb_base() * ha == lb[0] as nat + limb_base() * hb);
        assert(ha == hb);
        let ga = la[2] as nat + limb_base() * (la[3] as nat);
        let gb = lb[2] as nat + limb_base() * (lb[3] as nat);
        assert(ga == gb);
    }
    assert(la =~= lb);
    assert(a.limbs == b.limbs);
}

/// Every `U256` is below `2^256`.
pub proof fn lemma_u256_below_bound(x: U256)
    ensures
        x@ < u256_bound(),
{
    let l = x.limbs@;
    let b = limb_base();
    let h2 = l[2] as nat + b * (l[3] as nat);
    let h1 = l[1] as nat + b * h2;
    assert(h2 <= (b - 1) + b * (b - 1));
    assert(b * h2 <= b * ((b - 1) + b * (b - 1))) by (nonlinear_arith)
        requires
            h2 <= (b - 1) + b * (b - 1),
    ;
    assert(b * h1 <= b * ((b - 1) + b * ((b - 1) + b * (b - 1)))) by (nonlinear_arith)
        requires
            h1 <= (b - 1) + b * ((b - 1) + b * (b - 1)),
    ;
}

impl U256 {
    /// The integer zero.
    pub fn zero() -> (r: U256)
        ensures
            r@ == 0,
    {
        U256 { limbs: [0, 0, 0, 0] }
    }

    /// The integer `v`.
    pub fn from_u64(v: u64) -> (r: U256)
        ensures
            r@ == v,
    {
        U256 { limbs: [v, 0, 0, 0] }
    }

    /// Whether the value is zero.
    pub fn is_zero(&self) -> (r: bool)
        ensures
            r == (self@ == 0),
    {
        self.limbs[0] == 0 && self.limbs[1] == 0 && self.limbs[2] == 0 && self.limbs[3] == 0
    }
}

impl PartialEq for U256 {
    fn eq(&self, other: &Self) -> (r: bool) {
        let same = self.limbs[0] == other.limbs[0] && self.limbs[1] == other.limbs[1]
            && self.limbs[2] == other.limbs[2] && self.limbs[3] == other.limbs[3];
        proof {
            if same {
                assert(self.limbs@ =~= other.limbs@);
            } else if self@ == other@ {
                lemma_u256_value_injective(*self, *other);
            }
        }
        same
    }
}

impl Eq for U256 {

}

impl vstd::std_specs::cmp::PartialEqSpecImpl for U256 {
    open spec fn obeys_eq_spec() -> bool {
        true
    }

    open spec fn eq_spec(&self, other: &Self) -> bool {
        self@ == other@
    }
}

/// What `alloy`'s `U256` makes of a string: the integer it parses to, or
/// `None` where it rejects the string.
pub uninterp spec fn u256_parsed(text: Seq<char>) -> Option<nat>;

/// `Uint::from_le_slice` of `ruint`, as `alloy` exports it: the integer that
/// at most 32 bytes stand for, first byte least significant. The outside
/// function panics on a longer slice.
#[verifier::external_body]
pub(crate) fn u256_from_le_slice(bytes: &[u8]) -> (r: U256)
    requires
        bytes@.len() <= 32,
    ensures
        r@ == le_value(bytes@),
{
    U256 { limbs: alloy::primitives::U256::from_le_slice(bytes).into_limbs() }
}

/// `Uint::to_le_bytes` of `ruint`: the 32 bytes of the integer, least
/// significant first.
#[verifier::external_body]
pub(crate) fn u256_to_le_bytes(x: &U256) -> (r: [u8; 32])
    ensures
        le_value(r@) == x@,
{
    alloy::primitives::U256::from_limbs(x.limbs).to_le_bytes::<32>()
}

/// `Uint::from_be_slice` of `ruint`: the integer that at most 32 bytes stand
/// for, last byte least significant. The outside function panics on a longer
/// slice.
#[verifier::external_body]
pub(crate) fn u256_from_be_slice(bytes: &[u8]) -> (r: U256)
    requires
        bytes@.len() <= 32,
    ensures
        r@ == be_value(bytes@),
{
    U256 { limbs: alloy::primitives::U256::from_be_slice(bytes).into_limbs() }
}

/// `Uint::to_be_bytes` of `ruint`: the 32 bytes of the integer, most
/// significant first.
#[verifier::external_body]
pub(crate) fn u256_to_be_bytes(x: &U256) -> (r: [u8; 32])
    ensures
        be_value(r@) == x@,
{
    alloy::primitives::U256::from_limbs(x.limbs).to_be_bytes::<32>()
}

/// `str::parse::<U256>`, that is `Uint::from_str` of `ruint`: the parsed
/// integer, `None` where the string is rejected.
#[verifier::external_body]
pub(crate) fn u256_from_str(text: &str) -> (r: Option<U256>)
    ensures
        r matches Some(x) ==> u256_parsed(text@) == Some(x@),
        r is None ==> u256_parsed(text@) is None,
{
    text.parse::<alloy::primitives::U256>().ok().map(|x| U256 { limbs: x.into_limbs() })
}

} // verus!
