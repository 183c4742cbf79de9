//! Geometric settings: how one mesh should be generated from a document.
//!
//! All floating-point fields are carried as IEEE-754 bit patterns, so two
//! settings values are the same exactly when every field is bit-identical.
//! That is deliberate: the cache treats the bits as the identity of the
//! requested mesh, and makes no attempt at semantic float equality (distinct
//! NaN payloads, or +0.0 and -0.0, are distinct settings).

use vstd::prelude::*;

use crate::math::{quat_from_rotation_z, quat_identity, quat_of_rotation_z, QuatBits, Vec2Bits, ZERO_BITS};
use crate::origin::Origin;

verus! {

/// Bit pattern of the default curve-flattening tolerance, 0.001.
pub const DEFAULT_TOLERANCE_BITS: u32 = 0x3A83_126F;

/// A component that defines how to generate a mesh for a given entity,
/// for a three-dimensional target.
#[derive(Clone, Copy, Debug, PartialEq, Eq, Structural, Hash)]
pub struct SvgMesh3d {
    /// Modify the origin of the generated mesh.
    pub origin: Origin,
    /// Optionally override the computed size of the document by scaling
    /// vertices during tessellation (width and height bit patterns).
    pub size: Option<Vec2Bits>,
    /// Optionally extrude the mesh along the z axis (distance bit pattern).
    pub depth: Option<u32>,
    /// Rotates all vertices around the origin before finalizing the mesh.
    pub rotation: QuatBits,
    /// Curve-flattening tolerance handed to the fill triangulator
    /// (bit pattern of a positive value).
    pub tolerance: u32,
}

/// A component that defines how to generate a mesh for a given entity,
/// for a two-dimensional target.  It is converted to [`SvgMesh3d`] for
/// tessellation by setting `depth` to `None` and turning the single angle
/// into a rotation around the z axis.
#[derive(Clone, Copy, Debug, PartialEq, Eq, Structural, Hash)]
pub struct SvgMesh2d {
    /// Modify the origin of the generated mesh.
    pub origin: Origin,
    /// Optionally override the computed size of the document by scaling
    /// vertices during tessellation (width and height bit patterns).
    pub size: Option<Vec2Bits>,
    /// Rotates all vertices around the origin before finalizing the mesh
    /// (angle bit pattern).
    pub rotation: u32,
    /// Curve-flattening tolerance handed to the fill triangulator
    /// (bit pattern of a positive value).
    pub tolerance: u32,
}

impl Default for SvgMesh3d {
    /// No size override, no extrusion, identity rotation, and the default
    /// tolerance.
    fn default() -> (r: Self)
        ensures
            r == (SvgMesh3d {
                origin: Origin::TopLeft,
                size: None,
                depth: None,
                rotation: quat_identity(),
                tolerance: DEFAULT_TOLERANCE_BITS,
            }),
    {
        SvgMesh3d {
            origin: Origin::TopLeft,
            size: None,
            depth: None,
            rotation: QuatBits { x: ZERO_BITS, y: ZERO_BITS, z: ZERO_BITS, w: crate::math::ONE_BITS },
            tolerance: DEFAULT_TOLERANCE_BITS,
        }
    }
}

impl Default for SvgMesh2d {
    /// No size override, a zero rotation angle, and the default tolerance.
    fn default() -> (r: Self)
        ensures
            r == (SvgMesh2d {
                origin: Origin::TopLeft,
                size: None,
                rotation: ZERO_BITS,
                tolerance: DEFAULT_TOLERANCE_BITS,
            }),
    {
        SvgMesh2d {
            origin: Origin::TopLeft,
            size: None,
            rotation: ZERO_BITS,
            tolerance: DEFAULT_TOLERANCE_BITS,
        }
    }
}

/// The three-dimensional settings that a two-dimensional request stands for:
/// no extrusion, and the angle turned into a rotation around the z axis.
pub open spec fn mesh3d_of_mesh2d(v: SvgMesh2d) -> SvgMesh3d {
    SvgMesh3d {
        origin: v.origin,
        size: v.size,
        depth: None,
        rotation: quat_of_rotation_z(v.rotation),
        tolerance: v.tolerance,
    }
}

impl From<SvgMesh2d> for SvgMesh3d {
    fn from(value: SvgMesh2d) -> (r: Self) {
        SvgMesh3d {
            origin: value.origin,
            size: value.size,
            depth: None,
            rotation: quat_from_rotation_z(value.rotation),
            tolerance: value.tolerance,
        }
    }
}

impl vstd::std_specs::convert::FromSpecImpl<SvgMesh2d> for SvgMesh3d {
    open spec fn obeys_from_spec() -> bool {
        true
    }

    open spec fn from_spec(v: SvgMesh2d) -> SvgMesh3d {
        mesh3d_of_mesh2d(v)
    }
}

} // verus!
