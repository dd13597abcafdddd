//! Coordinate codec and test-vector generators for BN254.
//!
//! The crate maps field elements and curve points to the fixed-width wire
//! records an on-chain verifier reads, and produces deterministic vectors for
//! the group, field and pairing operations of the curve. The curve arithmetic
//! itself is done by the arkworks crates; what is proved here is the codec,
//! the byte layout and the decisions each generator takes on their results.
//!
//! - `uint`, `bytes`: the 256-bit integer of the wire and byte strings as
//!   numbers.
//! - `field`, `point`: prime fields, affine points and the codec between them
//!   and the wire records.
//! - `curve`, `sample`: the calls into the curve library and the draws from
//!   its generators.
//! - `generators`: the vector of each action.
//! - `abi`, `hex`, `action`: the layout of a vector, its text, and the line
//!   an action prints for its arguments.

pub mod abi;
pub mod action;
pub mod bytes;
pub mod curve;
pub mod field;
pub mod generators;
pub mod hex;
pub mod point;
pub mod sample;
pub mod uint;

pub use crate::field::{field_to_u256, u256_to_field};
pub use crate::point::{G1Point, G2Point};
pub use crate::uint::U256;
