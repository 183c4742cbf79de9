//! The document model: an ordered list of drawable paths plus an intrinsic
//! size.  A document is immutable once built; the engine only reads it.

use vstd::prelude::*;

use crate::math::{TransformBits, Vec2Bits};

verus! {

/// How the interior of a filled path is decided.
#[derive(Clone, Copy, Debug, PartialEq, Eq, Structural, Hash)]
pub enum FillRule {
    /// A point is inside when a ray from it crosses an odd number of edges.
    EvenOdd,
    /// A point is inside when the winding number around it is not zero.
    NonZero,
}

/// Parameters for expanding a stroked path into a band before triangulating
/// it.  Scalar fields are IEEE-754 bit patterns; caps and joins are carried
/// in the triangulator's own enums, which the engine never inspects.
#[derive(Clone, Copy, Debug)]
pub struct StrokeStyle {
    /// Width of the stroked band.
    pub line_width: u32,
    /// Cap at the start of each sub-path.
    pub start_cap: lyon_tessellation::LineCap,
    /// Cap at the end of each sub-path.
    pub end_cap: lyon_tessellation::LineCap,
    /// Join between segments.
    pub line_join: lyon_tessellation::LineJoin,
    /// Limit on the length of miter joins, at least 1.0.
    pub miter_limit: u32,
    /// Curve-flattening tolerance for the stroke expansion.
    pub tolerance: u32,
}

/// The draw style of one path: either a filled interior or a stroked
/// outline.  The set of styles is closed and small, so it is a tagged
/// variant rather than open-ended dispatch.
#[derive(Clone, Copy, Debug)]
pub enum DrawType {
    /// Triangulate the interior under the given fill rule.
    Fill(FillRule),
    /// Expand the outline by the stroke parameters, then triangulate the band.
    Stroke(StrokeStyle),
}

/// One drawable element of a document: its geometric segments in local
/// coordinates, its draw style, its packed color, and the absolute transform
/// accumulated from its position in the document's nested group hierarchy.
pub struct PathDescriptor {
    /// The path's segments (lines and curves), kept in the triangulator's
    /// own path structure.
    pub segments: lyon_tessellation::path::Path,
    /// Packed color applied to every vertex the path produces.
    pub color: u32,
    /// How the path is drawn.
    pub draw_type: DrawType,
    /// Absolute transform of the path within the document.
    pub abs_transform: TransformBits,
}

/// A parsed vector-graphic document: a display name, an intrinsic size
/// (width and height bit patterns), and an ordered sequence of paths.
pub struct Svg {
    /// A display name for the document.
    pub name: String,
    /// Intrinsic width and height, in local units.
    pub size: Vec2Bits,
    /// The drawable paths, in paint order.
    pub paths: Vec<PathDescriptor>,
}

} // verus!
