//! Bit-pattern representation of the floating-point quantities the engine
//! works with, and the trusted boundary to the host math library.
//!
//! Every scalar is carried as the raw bit pattern (`u32`) of an IEEE-754
//! single-precision value.  The engine never interprets those bits itself:
//! each arithmetic operation is performed by the host math library behind a
//! small wrapper, and its result is described by an uninterpreted function of
//! the operand bits.  All of these operations are deterministic functions of
//! their operands' bit patterns, which is exactly what the caching layer
//! depends on.
//!
//! Inside the wrappers, bit patterns move into the host's vector types with
//! `bytemuck` casts and come back out with `to_bits`; both directions are
//! plain reinterpretations that change no bit.

use vstd::prelude::*;

use bevy::math::{EulerRot, Quat, Vec2, Vec3};

verus! {

/// A two-component vector, each component the bit pattern of an IEEE-754
/// single-precision value.
#[derive(Clone, Copy, Debug, PartialEq, Eq, Structural, Hash)]
pub struct Vec2Bits {
    pub x: u32,
    pub y: u32,
}

/// A three-component vector of IEEE-754 bit patterns.
#[derive(Clone, Copy, Debug, PartialEq, Eq, Structural, Hash)]
pub struct Vec3Bits {
    pub x: u32,
    pub y: u32,
    pub z: u32,
}

/// A quaternion of IEEE-754 bit patterns.
#[derive(Clone, Copy, Debug, PartialEq, Eq, Structural, Hash)]
pub struct QuatBits {
    pub x: u32,
    pub y: u32,
    pub z: u32,
    pub w: u32,
}

/// An affine transform: scale, then rotate, then translate.
#[derive(Clone, Copy, Debug, PartialEq, Eq, Structural, Hash)]
pub struct TransformBits {
    pub translation: Vec3Bits,
    pub rotation: QuatBits,
    pub scale: Vec3Bits,
}

/// Bit pattern of +0.0.
pub const ZERO_BITS: u32 = 0x0000_0000;

/// Bit pattern of 1.0.
pub const ONE_BITS: u32 = 0x3F80_0000;

/// Bit pattern of -1.0.
pub const NEG_ONE_BITS: u32 = 0xBF80_0000;

/// Bit pattern of 0.5.
pub const HALF_BITS: u32 = 0x3F00_0000;

/// Bit pattern of the identity quaternion (x, y, z, w) = (0, 0, 0, 1).
pub open spec fn quat_identity() -> QuatBits {
    QuatBits { x: ZERO_BITS, y: ZERO_BITS, z: ZERO_BITS, w: ONE_BITS }
}

/// Bit pattern of the IEEE-754 product of two single-precision values.
pub uninterp spec fn ieee_mul(a: u32, b: u32) -> u32;

/// Bit pattern of the IEEE-754 quotient of two single-precision values.
pub uninterp spec fn ieee_div(a: u32, b: u32) -> u32;

/// Bit pattern of the IEEE-754 negation of a single-precision value.
pub uninterp spec fn ieee_neg(a: u32) -> u32;

/// Component-wise sum of two vectors of IEEE-754 bit patterns.
pub uninterp spec fn vec3_sum(a: Vec3Bits, b: Vec3Bits) -> Vec3Bits;

/// Component-wise product of two vectors of IEEE-754 bit patterns.
pub uninterp spec fn vec3_prod(a: Vec3Bits, b: Vec3Bits) -> Vec3Bits;

/// A vector of IEEE-754 bit patterns scaled by a single-precision value.
pub uninterp spec fn vec3_scaled(v: Vec3Bits, s: u32) -> Vec3Bits;

/// The Hamilton product of two quaternions of IEEE-754 bit patterns.
pub uninterp spec fn quat_prod(a: QuatBits, b: QuatBits) -> QuatBits;

/// A vector rotated by a quaternion, both as IEEE-754 bit patterns.
pub uninterp spec fn quat_rotated(q: QuatBits, v: Vec3Bits) -> Vec3Bits;

/// The quaternion for a rotation around the z axis by an angle given as an
/// IEEE-754 bit pattern.
pub uninterp spec fn quat_of_rotation_z(angle: u32) -> QuatBits;

/// The z component (first angle of the z-y-x Euler decomposition) of a
/// quaternion of IEEE-754 bit patterns.
pub uninterp spec fn euler_z_of(q: QuatBits) -> u32;

/// Relies on the IEEE-754 multiplication of single-precision values: a
/// deterministic function of the operands' bit patterns.
#[verifier::external_body]
pub(crate) fn mul_bits(a: u32, b: u32) -> (r: u32)
    ensures
        r == ieee_mul(a, b),
{
    let p = Vec2::new(bytemuck::cast(a), bytemuck::cast(b));
    (p.x * p.y).to_bits()
}

/// Relies on the IEEE-754 division of single-precision values: a
/// deterministic function of the operands' bit patterns.
#[verifier::external_body]
pub(crate) fn div_bits(a: u32, b: u32) -> (r: u32)
    ensures
        r == ieee_div(a, b),
{
    let p = Vec2::new(bytemuck::cast(a), bytemuck::cast(b));
    (p.x / p.y).to_bits()
}

/// Relies on the IEEE-754 negation of a single-precision value (a sign-bit
/// flip): a deterministic function of the operand's bit pattern.
#[verifier::external_body]
pub(crate) fn neg_bits(a: u32) -> (r: u32)
    ensures
        r == ieee_neg(a),
{
    let p = Vec2::splat(bytemuck::cast(a));
    (-p.x).to_bits()
}

/// Relies on `Vec3`'s component-wise addition in the host math library.
#[verifier::external_body]
pub(crate) fn vec3_add(a: Vec3Bits, b: Vec3Bits) -> (r: Vec3Bits)
    ensures
        r == vec3_sum(a, b),
{
    let va = Vec3::new(bytemuck::cast(a.x), bytemuck::cast(a.y), bytemuck::cast(a.z));
    let vb = Vec3::new(bytemuck::cast(b.x), bytemuck::cast(b.y), bytemuck::cast(b.z));
    let v = va + vb;
    Vec3Bits { x: v.x.to_bits(), y: v.y.to_bits(), z: v.z.to_bits() }
}

/// Relies on `Vec3`'s component-wise multiplication in the host math library.
#[verifier::external_body]
pub(crate) fn vec3_mul(a: Vec3Bits, b: Vec3Bits) -> (r: Vec3Bits)
    ensures
        r == vec3_prod(a, b),
{
    let va = Vec3::new(bytemuck::cast(a.x), bytemuck::cast(a.y), bytemuck::cast(a.z));
    let vb = Vec3::new(bytemuck::cast(b.x), bytemuck::cast(b.y), bytemuck::cast(b.z));
    let v = va * vb;
    Vec3Bits { x: v.x.to_bits(), y: v.y.to_bits(), z: v.z.to_bits() }
}

/// Relies on `Vec3`'s multiplication by a scalar in the host math library.
#[verifier::external_body]
pub(crate) fn vec3_scale(v: Vec3Bits, s: u32) -> (r: Vec3Bits)
    ensures
        r == vec3_scaled(v, s),
{
    let va = Vec3::new(bytemuck::cast(v.x), bytemuck::cast(v.y), bytemuck::cast(v.z));
    let w = va * Vec3::splat(bytemuck::cast(s)).x;
    Vec3Bits { x: w.x.to_bits(), y: w.y.to_bits(), z: w.z.to_bits() }
}

/// Relies on `Quat`'s Hamilton product in the host math library.
#[verifier::external_body]
pub(crate) fn quat_mul(a: QuatBits, b: QuatBits) -> (r: QuatBits)
    ensures
        r == quat_prod(a, b),
{
    let qa = Quat::from_xyzw(bytemuck::cast(a.x), bytemuck::cast(a.y), bytemuck::cast(a.z), bytemuck::cast(a.w));
    let qb = Quat::from_xyzw(bytemuck::cast(b.x), bytemuck::cast(b.y), bytemuck::cast(b.z), bytemuck::cast(b.w));
    let q = qa * qb;
    QuatBits { x: q.x.to_bits(), y: q.y.to_bits(), z: q.z.to_bits(), w: q.w.to_bits() }
}

/// Relies on `Quat::mul_vec3` in the host math library: rotates a vector by
/// a quaternion.
#[verifier::external_body]
pub(crate) fn quat_rotate(q: QuatBits, v: Vec3Bits) -> (r: Vec3Bits)
    ensures
        r == quat_rotated(q, v),
{
    let qa = Quat::from_xyzw(bytemuck::cast(q.x), bytemuck::cast(q.y), bytemuck::cast(q.z), bytemuck::cast(q.w));
    let va = Vec3::new(bytemuck::cast(v.x), bytemuck::cast(v.y), bytemuck::cast(v.z));
    let w = qa * va;
    Vec3Bits { x: w.x.to_bits(), y: w.y.to_bits(), z: w.z.to_bits() }
}

/// Relies on `Quat::from_rotation_z` in the host math library.
#[verifier::external_body]
pub(crate) fn quat_from_rotation_z(angle: u32) -> (r: QuatBits)
    ensures
        r == quat_of_rotation_z(angle),
{
    let q = Quat::from_rotation_z(Vec2::splat(bytemuck::cast(angle)).x);
    QuatBits { x: q.x.to_bits(), y: q.y.to_bits(), z: q.z.to_bits(), w: q.w.to_bits() }
}

/// Relies on `Quat::to_euler` in the host math library: the first angle of
/// the z-y-x decomposition.
#[verifier::external_body]
pub(crate) fn quat_to_euler_z(q: QuatBits) -> (r: u32)
    ensures
        r == euler_z_of(q),
{
    let qa = Quat::from_xyzw(bytemuck::cast(q.x), bytemuck::cast(q.y), bytemuck::cast(q.z), bytemuck::cast(q.w));
    qa.to_euler(EulerRot::ZYX).0.to_bits()
}

/// A point carried through an affine transform: scaled, then rotated, then
/// translated (the host's convention for applying a transform to a point).
pub open spec fn transformed_point(t: TransformBits, p: Vec3Bits) -> Vec3Bits {
    vec3_sum(quat_rotated(t.rotation, vec3_prod(t.scale, p)), t.translation)
}

/// Composition of two affine transforms: the translation of the second is
/// carried through the first, rotations multiply, scales multiply.
pub open spec fn composed_transform(a: TransformBits, b: TransformBits) -> TransformBits {
    TransformBits {
        translation: transformed_point(a, b.translation),
        rotation: quat_prod(a.rotation, b.rotation),
        scale: vec3_prod(a.scale, b.scale),
    }
}

impl TransformBits {
    /// Applies the transform to a point: scale, then rotate, then translate.
    pub fn transform_point(&self, p: Vec3Bits) -> (r: Vec3Bits)
        ensures
            r == transformed_point(*self, p),
    {
        vec3_add(quat_rotate(self.rotation, vec3_mul(self.scale, p)), self.translation)
    }

    /// Composes `self` with another transform, `self` applied last.
    pub fn mul_transform(&self, other: &TransformBits) -> (r: TransformBits)
        ensures
            r == composed_transform(*self, *other),
    {
        TransformBits {
            translation: self.transform_point(other.translation),
            rotation: quat_mul(self.rotation, other.rotation),
            scale: vec3_mul(self.scale, other.scale),
        }
    }
}

} // verus!
