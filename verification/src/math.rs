//! The vector and rotation types of `glam` that positions, scales and
//! rotations are carried in. The library never looks inside them: it moves
//! them between objects and frames unchanged.
use vstd::prelude::*;

verus! {

/// `glam::Vec3`, a 3-component vector of `f32`; opaque to the proofs.
#[verifier::external_type_specification]
#[verifier::external_body]
pub struct ExVec3(glam::Vec3);

/// `glam::Quat`, a rotation quaternion of `f32`; opaque to the proofs.
#[verifier::external_type_specification]
#[verifier::external_body]
pub struct ExQuat(glam::Quat);

} // verus!
