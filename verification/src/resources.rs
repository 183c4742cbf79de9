//! The cache key, and the adapter over the external triangulator.
//!
//! The key is a lossless, bit-exact encoding of [`SvgMesh3d`] settings: two
//! settings values map to the same key exactly when every field is
//! bit-identical, and the settings are fully recoverable from the key (which
//! the cache needs when it regenerates an entry after a document change).
//!
//! The triangulator itself is external: the two tessellation functions hand
//! a path's segments and draw style to it and collect a flat local-space
//! buffer.  Its output is a deterministic function of the path data and the
//! options, which is all the engine relies on.

use vstd::prelude::*;

use crate::math::{euler_z_of, quat_to_euler_z, QuatBits, Vec2Bits};
use crate::origin::Origin;
use crate::settings::{mesh3d_of_mesh2d, SvgMesh2d, SvgMesh3d};
use crate::svg::{FillRule, StrokeStyle};

use lyon_tessellation::geometry_builder::{BuffersBuilder, Positions};
use lyon_tessellation::math::Point;
use lyon_tessellation::{FillOptions, StrokeOptions};

verus! {

/// The abstract content of a path: the sequence of segment data the
/// triangulator sees.  Two paths with the same content tessellate alike.
pub uninterp spec fn path_data(p: lyon_tessellation::path::Path) -> Seq<u32>;

/// What the fill triangulator produces for given path content, fill rule and
/// tolerance: `None` when it fails, otherwise local-space vertex positions
/// and triangle indices.
pub uninterp spec fn fill_tess_of(data: Seq<u32>, rule: FillRule, tolerance: u32) -> Option<
    (Seq<Vec2Bits>, Seq<u32>),
>;

/// What the stroke triangulator produces for given path content and stroke
/// parameters: `None` when it fails, otherwise local-space vertex positions
/// and triangle indices.
pub uninterp spec fn stroke_tess_of(data: Seq<u32>, style: StrokeStyle) -> Option<
    (Seq<Vec2Bits>, Seq<u32>),
>;

/// A triangle-list buffer in a path's own local space: vertex positions
/// (pairs of IEEE-754 bit patterns) and triangle indices in triples.
pub struct LocalBuffer {
    /// Local-space vertex positions.
    pub vertices: Vec<Vec2Bits>,
    /// Triangle indices, in triples; every index refers to a vertex.
    pub indices: Vec<u32>,
}

/// A well-formed triangulator output: indices come in triples and refer to
/// the vertices of the same buffer.
pub open spec fn local_buffer_wf(vertices: Seq<Vec2Bits>, indices: Seq<u32>) -> bool {
    &&& indices.len() % 3 == 0
    &&& forall|i: int| 0 <= i < indices.len() ==> (#[trigger] indices[i]) < vertices.len()
}

/// Relies on the external fill tessellator: it flattens the path to within
/// the tolerance, triangulates the interior under the fill rule, and emits
/// triangle indices (in triples) that refer to the vertices it emits; it
/// fails by returning an error, never by panicking.  The output is a
/// deterministic function of the path content and the options.
#[verifier::external_body]
pub(crate) fn tessellate_fill(
    tess: &mut lyon_tessellation::FillTessellator,
    path: &lyon_tessellation::path::Path,
    rule: FillRule,
    tolerance: u32,
) -> (r: Option<LocalBuffer>)
    ensures
        r is Some <==> fill_tess_of(path_data(*path), rule, tolerance) is Some,
        r is Some ==> (r.unwrap().vertices@, r.unwrap().indices@) == fill_tess_of(
            path_data(*path),
            rule,
            tolerance,
        ).unwrap(),
        r is Some ==> local_buffer_wf(r.unwrap().vertices@, r.unwrap().indices@),
{
    let opts = match rule {
        FillRule::EvenOdd => FillOptions::even_odd(),
        FillRule::NonZero => FillOptions::non_zero(),
    }.with_tolerance(bytemuck::cast(tolerance));
    let mut buf: lyon_tessellation::VertexBuffers<Point, u32> = lyon_tessellation::VertexBuffers::new();
    let mut builder = BuffersBuilder::new(&mut buf, Positions);
    match tess.tessellate_path(path, &opts, &mut builder) {
        Ok(_) => Some(LocalBuffer {
            vertices: buf.vertices.iter().map(|p| Vec2Bits { x: p.x.to_bits(), y: p.y.to_bits() }).collect(),
            indices: buf.indices,
        }),
        Err(_) => None,
    }
}

/// Relies on the external stroke tessellator: it expands the path outline by
/// the stroke parameters, triangulates the band, and emits triangle indices
/// (in triples) that refer to the vertices it emits; it fails by returning
/// an error, never by panicking.  The output is a deterministic function of
/// the path content and the options.
#[verifier::external_body]
pub(crate) fn tessellate_stroke(
    tess: &mut lyon_tessellation::StrokeTessellator,
    path: &lyon_tessellation::path::Path,
    style: &StrokeStyle,
) -> (r: Option<LocalBuffer>)
    ensures
        r is Some <==> stroke_tess_of(path_data(*path), *style) is Some,
        r is Some ==> (r.unwrap().vertices@, r.unwrap().indices@) == stroke_tess_of(
            path_data(*path),
            *style,
        ).unwrap(),
        r is Some ==> local_buffer_wf(r.unwrap().vertices@, r.unwrap().indices@),
{
    let mut opts = StrokeOptions::tolerance(bytemuck::cast(style.tolerance))
        .with_line_width(bytemuck::cast(style.line_width)).with_start_cap(style.start_cap)
        .with_end_cap(style.end_cap).with_line_join(style.line_join);
    opts.miter_limit = bytemuck::cast(style.miter_limit);
    let mut buf: lyon_tessellation::VertexBuffers<Point, u32> = lyon_tessellation::VertexBuffers::new();
    let mut builder = BuffersBuilder::new(&mut buf, Positions);
    match tess.tessellate_path(path, &opts, &mut builder) {
        Ok(_) => Some(LocalBuffer {
            vertices: buf.vertices.iter().map(|p| Vec2Bits { x: p.x.to_bits(), y: p.y.to_bits() }).collect(),
            indices: buf.indices,
        }),
        Err(_) => None,
    }
}

/// A lossless, totally ordered, hashable encoding of [`SvgMesh3d`] settings,
/// used to deduplicate mesh generation.  Floating-point fields are already
/// bit patterns, so the key is a field-for-field copy of the settings.
#[derive(Clone, Copy, Debug, PartialEq, Eq, Structural, Hash)]
pub struct SvgMeshKey {
    /// Origin placement.
    pub origin: Origin,
    /// Optional size override (bit patterns).
    pub size: Option<Vec2Bits>,
    /// Optional extrusion depth (bit pattern).
    pub depth: Option<u32>,
    /// Rotation quaternion (bit patterns).
    pub rotation: QuatBits,
    /// Curve-flattening tolerance (bit pattern).
    pub tolerance: u32,
}

/// The key that canonicalizes the given settings.
pub open spec fn key_of_mesh3d(v: SvgMesh3d) -> SvgMeshKey {
    SvgMeshKey {
        origin: v.origin,
        size: v.size,
        depth: v.depth,
        rotation: v.rotation,
        tolerance: v.tolerance,
    }
}

/// The settings that a key encodes.
pub open spec fn mesh3d_of_key(k: SvgMeshKey) -> SvgMesh3d {
    SvgMesh3d {
        origin: k.origin,
        size: k.size,
        depth: k.depth,
        rotation: k.rotation,
        tolerance: k.tolerance,
    }
}

/// The two-dimensional settings that a key encodes: the extrusion depth is
/// discarded, and the rotation angle is the z component of the quaternion's
/// z-y-x Euler decomposition.
pub open spec fn mesh2d_of_key(k: SvgMeshKey) -> SvgMesh2d {
    SvgMesh2d {
        origin: k.origin,
        size: k.size,
        rotation: euler_z_of(k.rotation),
        tolerance: k.tolerance,
    }
}

impl From<SvgMesh3d> for SvgMeshKey {
    fn from(value: SvgMesh3d) -> (r: Self) {
        SvgMeshKey {
            origin: value.origin,
            size: value.size,
            depth: value.depth,
            rotation: value.rotation,
            tolerance: value.tolerance,
        }
    }
}

impl vstd::std_specs::convert::FromSpecImpl<SvgMesh3d> for SvgMeshKey {
    open spec fn obeys_from_spec() -> bool {
        true
    }

    open spec fn from_spec(v: SvgMesh3d) -> SvgMeshKey {
        key_of_mesh3d(v)
    }
}

impl From<SvgMesh2d> for SvgMeshKey {
    fn from(value: SvgMesh2d) -> (r: Self) {
        Self::from(SvgMesh3d::from(value))
    }
}

impl vstd::std_specs::convert::FromSpecImpl<SvgMesh2d> for SvgMeshKey {
    open spec fn obeys_from_spec() -> bool {
        true
    }

    open spec fn from_spec(v: SvgMesh2d) -> SvgMeshKey {
        key_of_mesh3d(mesh3d_of_mesh2d(v))
    }
}

impl From<SvgMeshKey> for SvgMesh3d {
    fn from(value: SvgMeshKey) -> (r: Self) {
        SvgMesh3d {
            origin: value.origin,
            size: value.size,
            depth: value.depth,
            rotation: value.rotation,
            tolerance: value.tolerance,
        }
    }
}

impl vstd::std_specs::convert::FromSpecImpl<SvgMeshKey> for SvgMesh3d {
    open spec fn obeys_from_spec() -> bool {
        true
    }

    open spec fn from_spec(k: SvgMeshKey) -> SvgMesh3d {
        mesh3d_of_key(k)
    }
}

impl From<SvgMeshKey> for SvgMesh2d {
    /// The extrusion depth, if the key holds one, is discarded.
    fn from(value: SvgMeshKey) -> (r: Self) {
        SvgMesh2d {
            origin: value.origin,
            size: value.size,
            rotation: quat_to_euler_z(value.rotation),
            tolerance: value.tolerance,
        }
    }
}

impl vstd::std_specs::convert::FromSpecImpl<SvgMeshKey> for SvgMesh2d {
    open spec fn obeys_from_spec() -> bool {
        true
    }

    open spec fn from_spec(k: SvgMeshKey) -> SvgMesh2d {
        mesh2d_of_key(k)
    }
}

/// Law: canonicalization is injective over the bit-level representation.
/// Two settings yield the same key exactly when every field (including the
/// bit patterns of all floating-point quantities) is identical; a single
/// differing bit gives a different key.
pub proof fn lemma_key_injective(a: SvgMesh3d, b: SvgMesh3d)
    ensures
        key_of_mesh3d(a) == key_of_mesh3d(b) <==> a == b,
{
}

/// Law: the key is a lossless encoding of the settings — the settings are
/// fully recoverable from the key.
pub proof fn lemma_key_lossless(s: SvgMesh3d)
    ensures
        mesh3d_of_key(key_of_mesh3d(s)) == s,
{
}

/// Law: encoding the settings a key stands for gives back the same key.
pub proof fn lemma_key_of_decoded(k: SvgMeshKey)
    ensures
        key_of_mesh3d(mesh3d_of_key(k)) == k,
{
}

} // verus!
