//! The actions and the line each prints.
//!
//! An action takes its one argument as text, a decimal integer or a
//! hexadecimal wire record, and answers with the hexadecimal text of its
//! ABI-encoded vector.

use crate::abi::{
    abi_bool, abi_decoded_g1, abi_g1, abi_g2, abi_msm, abi_word, decode_g1, encode_bool, encode_g1,
    encode_g1_pair, encode_g1_triple, encode_g2, encode_msm, encode_pairing_vector, encode_uint,
    encode_uint_uint_bool, uints_of, wires_of,
};
use crate::curve::{g1_generator_times, g1_msm_result, g1_on_curve, g2_generator_coords};
use crate::field::{fq_modulus, fq_sqrt_result, fr_inverse_of, fr_modulus, negated};
use crate::generators::{
    bn254_g1_add_op, bn254_g1_from_scalar, bn254_g1_is_on_curve, bn254_g1_neg_op, bn254_g2_gen,
    bn254_msm, bn254_pairing_prod2, bn254_qr, bn254_scalar_inv_op, bn254_scalar_neg_op,
    g1_add_vector, g1_neg_vector, msm_vector_of, pairing_prod2_vector, qr_vector_of, GenError,
};
use crate::hex::{hex_decode, hex_decoded, hex_encode, hex_string, u64_from_str, u64_parsed};
use crate::point::{g1_to_wire, g2_to_wire, wire_to_g1, G1Coords};
use crate::sample::seeded_base_element;
use crate::uint::{u256_from_str, u256_parsed};
use vstd::prelude::*;

verus! {

/// What the tool can be asked for.
#[derive(Clone, Copy, Debug, PartialEq, Eq, PartialOrd, Ord, Structural)]
pub enum Action {
    /// The generator of the second group.
    Bn254G2Gen,
    /// The generator of the first group times a scalar.
    Bn254G1FromScalar,
    /// Whether a point of the first group is on the curve.
    Bn254G1IsOnCurve,
    /// Two pairs of points for a check of a product of two pairings.
    Bn254PairingProd2,
    /// Bases and scalars for a multi-scalar multiplication, and the product.
    Bn254MSM,
    /// The inverse of a scalar.
    Bn254ScalarInvOp,
    /// The negative of a scalar.
    Bn254ScalarNegOp,
    /// Two points of the first group and their sum.
    Bn254G1AddOp,
    /// A point of the first group and its negative.
    Bn254G1NegOp,
    /// A base-field element and its canonical square root.
    Bn254Qr,
    /// Nothing; the caller reports that it was asked.
    TestOnly,
}

/// The largest count of bases whose vector can still be laid out.
pub const MAX_MSM_COUNT: u64 = 0x3ff_ffff_ffff_fffd;

/// The text of each argument.
pub open spec fn texts_of(args: Seq<String>) -> Seq<Seq<char>> {
    Seq::new(args.len(), |i: int| args[i]@)
}

/// The encoded vector of an action that reads a seed.
pub open spec fn seeded_vector(action: Action, seed: u64) -> Result<Seq<u8>, GenError> {
    match action {
        Action::Bn254PairingProd2 => match pairing_prod2_vector(seed) {
            Ok(v) => Ok(abi_g1(v.a1) + abi_g2(v.a2) + abi_g1(v.b1) + abi_g2(v.b2)),
            Err(e) => Err(e),
        },
        Action::Bn254G1AddOp => {
            let v = g1_add_vector(seed);
            Ok(abi_g1(v.0) + abi_g1(v.1) + abi_g1(v.2))
        },
        Action::Bn254G1NegOp => {
            let v = g1_neg_vector(seed);
            Ok(abi_g1(v.0) + abi_g1(v.1))
        },
        _ => match qr_vector_of(seeded_base_element(seed), fq_sqrt_result(seeded_base_element(seed))) {
            Ok(v) => Ok(abi_word(v.0) + abi_word(v.1) + abi_bool(v.2)),
            Err(e) => Err(e),
        },
    }
}

/// The encoded vector of an action that reads a scalar.
pub open spec fn scalar_vector(action: Action, s: nat) -> Result<Seq<u8>, GenError> {
    let reduced = s % fr_modulus();
    match action {
        Action::Bn254G1FromScalar => Ok(abi_g1(g1_to_wire(g1_generator_times(reduced)))),
        Action::Bn254ScalarInvOp => if reduced == 0 {
            Err(GenError::NotInvertible)
        } else {
            Ok(abi_word(fr_inverse_of(reduced)))
        },
        _ => Ok(abi_word(negated(fr_modulus(), reduced))),
    }
}

/// The encoded answer to the question whether the point that the text
/// holds is on the curve.
pub open spec fn on_curve_vector(arg: Seq<char>) -> Result<Seq<u8>, GenError> {
    match hex_decoded(arg) {
        None => Err(GenError::MalformedHex),
        Some(bytes) => match abi_decoded_g1(bytes) {
            None => Err(GenError::MalformedRecord),
            Some(w) => Ok(abi_bool(g1_on_curve(wire_to_g1(fq_modulus(), w)))),
        },
    }
}

/// The encoded vector of an action for its one argument; every action but
/// the multi-scalar multiplication, whose draws have no name.
pub open spec fn encoded_vector(action: Action, arg: Seq<char>) -> Result<Seq<u8>, GenError> {
    match action {
        Action::Bn254G1IsOnCurve => on_curve_vector(arg),
        Action::Bn254G1FromScalar | Action::Bn254ScalarInvOp | Action::Bn254ScalarNegOp => match u256_parsed(
            arg,
        ) {
            None => Err(GenError::MalformedInteger),
            Some(s) => scalar_vector(action, s),
        },
        _ => match u64_parsed(arg) {
            None => Err(GenError::MalformedInteger),
            Some(seed) => seeded_vector(action, seed),
        },
    }
}

/// The bytes an action answers with: none for the action that does
/// nothing, the generator for the action without argument, and for the
/// others the vector of their one argument.
pub open spec fn answer_of(action: Action, args: Seq<Seq<char>>) -> Result<Option<Seq<u8>>, GenError> {
    if action == Action::TestOnly {
        Ok(None)
    } else if action == Action::Bn254G2Gen {
        Ok(Some(abi_g2(g2_to_wire(g2_generator_coords()))))
    } else if args.len() != 1 {
        Err(GenError::ArgumentCount)
    } else {
        match encoded_vector(action, args[0]) {
            Ok(bytes) => Ok(Some(bytes)),
            Err(e) => Err(e),
        }
    }
}

/// Whether `bytes` is the encoding of a multi-scalar multiplication of
/// `count` bases.
pub open spec fn is_msm_answer(count: u64, bytes: Seq<u8>) -> bool {
    exists|bases: Seq<G1Coords>, scalars: Seq<nat>|
        bases.len() == count && scalars.len() == count && bytes == {
            let v = #[trigger] msm_vector_of(bases, scalars, g1_msm_result(bases, scalars));
            abi_msm(v.0, v.1, v.2)
        }
}

/// What the multi-scalar multiplication may answer with: an error for a bad
/// argument, else some vector of as many bases as asked for.
pub open spec fn is_msm_outcome(args: Seq<Seq<char>>, r: Result<Option<Seq<u8>>, GenError>) -> bool {
    if args.len() != 1 {
        r == Err::<Option<Seq<u8>>, GenError>(GenError::ArgumentCount)
    } else {
        match u64_parsed(args[0]) {
            None => r == Err::<Option<Seq<u8>>, GenError>(GenError::MalformedInteger),
            Some(count) => if count > MAX_MSM_COUNT {
                r == Err::<Option<Seq<u8>>, GenError>(GenError::TooLong)
            } else {
                r matches Ok(Some(bytes)) && is_msm_answer(count, bytes)
            },
        }
    }
}

/// The bytes of an answer, where there are any.
pub open spec fn answer_view(r: Result<Option<Vec<u8>>, GenError>) -> Result<Option<Seq<u8>>, GenError> {
    match r {
        Ok(Some(bytes)) => Ok(Some(bytes@)),
        Ok(None) => Ok(None),
        Err(e) => Err(e),
    }
}

/// The text of an answer, where there is any.
pub open spec fn line_view(r: Result<Option<String>, GenError>) -> Result<Option<Seq<char>>, GenError> {
    match r {
        Ok(Some(text)) => Ok(Some(text@)),
        Ok(None) => Ok(None),
        Err(e) => Err(e),
    }
}

/// The line of an answer: the hexadecimal text of its bytes.
pub open spec fn line_of(r: Result<Option<Seq<u8>>, GenError>) -> Result<Option<Seq<char>>, GenError> {
    match r {
        Ok(Some(bytes)) => Ok(Some(hex_string(bytes))),
        Ok(None) => Ok(None),
        Err(e) => Err(e),
    }
}

/// Two runs of an action on the same arguments print the same line. The
/// multi-scalar multiplication is left out: its draws are not seeded.
pub proof fn lemma_same_arguments_same_line(
    action: Action,
    args: Seq<Seq<char>>,
    first: Result<Option<Seq<char>>, GenError>,
    second: Result<Option<Seq<char>>, GenError>,
)
    requires
        action != Action::Bn254MSM,
        first == line_of(answer_of(action, args)),
        second == line_of(answer_of(action, args)),
    ensures
        first == second,
{
}

fn seed_action(action: Action, seed: u64) -> (r: Result<Vec<u8>, GenError>)
    requires
        action == Action::Bn254PairingProd2 || action == Action::Bn254G1AddOp || action
            == Action::Bn254G1NegOp || action == Action::Bn254Qr,
    ensures
        r matches Ok(bytes) ==> seeded_vector(action, seed) == Ok::<Seq<u8>, GenError>(bytes@),
        r matches Err(e) ==> seeded_vector(action, seed) == Err::<Seq<u8>, GenError>(e),
{
    match action {
        Action::Bn254PairingProd2 => match bn254_pairing_prod2(seed) {
            Ok(v) => Ok(encode_pairing_vector(&v.0, &v.1, &v.2, &v.3)),
            Err(e) => Err(e),
        },
        Action::Bn254G1AddOp => {
            let v = bn254_g1_add_op(seed);
            Ok(encode_g1_triple(&v.0, &v.1, &v.2))
        },
        Action::Bn254G1NegOp => {
            let v = bn254_g1_neg_op(seed);
            Ok(encode_g1_pair(&v.0, &v.1))
        },
        _ => match bn254_qr(seed) {
            Ok(v) => Ok(encode_uint_uint_bool(&v.0, &v.1, v.2)),
            Err(e) => Err(e),
        },
    }
}

fn scalar_action(action: Action, text: &str) -> (r: Result<Vec<u8>, GenError>)
    requires
        action == Action::Bn254G1FromScalar || action == Action::Bn254ScalarInvOp || action
            == Action::Bn254ScalarNegOp,
    ensures
        r matches Ok(bytes) ==> encoded_vector(action, text@) == Ok::<Seq<u8>, GenError>(bytes@),
        r matches Err(e) ==> encoded_vector(action, text@) == Err::<Seq<u8>, GenError>(e),
{
    let s = match u256_from_str(text) {
        Some(s) => s,
        None => {
            return Err(GenError::MalformedInteger);
        },
    };
    match action {
        Action::Bn254G1FromScalar => Ok(encode_g1(&bn254_g1_from_scalar(s))),
        Action::Bn254ScalarInvOp => match bn254_scalar_inv_op(s) {
            Ok(v) => Ok(encode_uint(&v)),
            Err(e) => Err(e),
        },
        _ => Ok(encode_uint(&bn254_scalar_neg_op(s))),
    }
}

fn on_curve_action(text: &str) -> (r: Result<Vec<u8>, GenError>)
    ensures
        r matches Ok(bytes) ==> on_curve_vector(text@) == Ok::<Seq<u8>, GenError>(bytes@),
        r matches Err(e) ==> on_curve_vector(text@) == Err::<Seq<u8>, GenError>(e),
{
    let bytes = match hex_decode(text) {
        Some(bytes) => bytes,
        None => {
            return Err(GenError::MalformedHex);
        },
    };
    match decode_g1(bytes.as_slice()) {
        Some(w) => Ok(encode_bool(bn254_g1_is_on_curve(w))),
        None => Err(GenError::MalformedRecord),
    }
}

fn msm_action(text: &str) -> (r: Result<Vec<u8>, GenError>)
    ensures
        match u64_parsed(text@) {
            None => r == Err::<Vec<u8>, GenError>(GenError::MalformedInteger),
            Some(count) => if count > MAX_MSM_COUNT {
                r == Err::<Vec<u8>, GenError>(GenError::TooLong)
            } else {
                r matches Ok(bytes) && is_msm_answer(count, bytes@)
            },
        },
{
    let count = match u64_from_str(text) {
        Some(count) => count,
        None => {
            return Err(GenError::MalformedInteger);
        },
    };
    if count > MAX_MSM_COUNT {
        return Err(GenError::TooLong);
    }
    let v = bn254_msm(count);
    let bytes = encode_msm(&v.0, &v.1, &v.2);
    proof {
        let (bases, scalars) = choose|bases: Seq<G1Coords>, scalars: Seq<nat>|
            bases.len() == count && scalars.len() == count && (wires_of(v.0@), uints_of(v.1@), v.2@)
                == #[trigger] msm_vector_of(bases, scalars, g1_msm_result(bases, scalars));
        let w = msm_vector_of(bases, scalars, g1_msm_result(bases, scalars));
        assert(bytes@ == abi_msm(w.0, w.1, w.2));
    }
    Ok(bytes)
}

/// The bytes an action answers with.
pub fn answer(action: Action, args: &Vec<String>) -> (r: Result<Option<Vec<u8>>, GenError>)
    ensures
        action != Action::Bn254MSM ==> answer_view(r) == answer_of(action, texts_of(args@)),
        action == Action::Bn254MSM ==> is_msm_outcome(texts_of(args@), answer_view(r)),
{
    match action {
        Action::TestOnly => {
            return Ok(None);
        },
        Action::Bn254G2Gen => {
            return Ok(Some(encode_g2(&bn254_g2_gen())));
        },
        _ => {},
    }
    if args.len() != 1 {
        return Err(GenError::ArgumentCount);
    }
    let text = args[0].as_str();
    let encoded = match action {
        Action::Bn254G1IsOnCurve => on_curve_action(text),
        Action::Bn254G1FromScalar | Action::Bn254ScalarInvOp | Action::Bn254ScalarNegOp => scalar_action(
            action,
            text,
        ),
        Action::Bn254MSM => msm_action(text),
        _ => match u64_from_str(text) {
            Some(seed) => seed_action(action, seed),
            None => Err(GenError::MalformedInteger),
        },
    };
    match encoded {
        Ok(bytes) => Ok(Some(bytes)),
        Err(e) => Err(e),
    }
}

/// The line an action prints: the lower-case hexadecimal text of its
/// encoded vector, without prefix. The action that does nothing has no
/// line. Every action but the multi-scalar multiplication answers the same
/// arguments with the same line.
pub fn run(action: Action, args: &Vec<String>) -> (r: Result<Option<String>, GenError>)
    ensures
        action != Action::Bn254MSM ==> line_view(r) == line_of(answer_of(action, texts_of(args@))),
        action == Action::Bn254MSM ==> exists|bytes: Result<Option<Seq<u8>>, GenError>|
            #[trigger] is_msm_outcome(texts_of(args@), bytes) && line_view(r) == line_of(bytes),
{
    let bytes = answer(action, args);
    proof {
        if action == Action::Bn254MSM {
            assert(is_msm_outcome(texts_of(args@), answer_view(bytes)));
        }
    }
    match bytes {
        Ok(Some(bytes)) => Ok(Some(hex_encode(bytes.as_slice()))),
        Ok(None) => Ok(None),
        Err(e) => Err(e),
    }
}

} // verus!
