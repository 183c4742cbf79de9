//! Placement of the coordinate origin within a document's view box.

use vstd::prelude::*;

use crate::math::{ieee_mul, ieee_neg, mul_bits, neg_bits, Vec2Bits, Vec3Bits, HALF_BITS, ZERO_BITS};

verus! {

/// Origin of the coordinate system.
#[derive(Clone, Copy, Debug, PartialEq, Eq, Structural, Hash)]
pub enum Origin {
    /// Bottom left of the image or viewbox.
    BottomLeft,
    /// Bottom right of the image or viewbox.
    BottomRight,
    /// Center of the image or viewbox.
    Center,
    /// Top left of the image or viewbox, the convention of the source format.
    TopLeft,
    /// Top right of the image or viewbox.
    TopRight,
}

impl Default for Origin {
    fn default() -> (r: Self)
        ensures
            r == Origin::TopLeft,
    {
        Origin::TopLeft
    }
}

/// The translation that moves a document of the given scaled size so that
/// the chosen origin lands on the coordinate origin.  `TopLeft` is the
/// convention of the source format, so it needs no offset at all; the other
/// placements offset by the full or half size, with the horizontal component
/// negated.
pub open spec fn origin_translation(origin: Origin, scaled_size: Vec2Bits) -> Vec3Bits {
    match origin {
        Origin::BottomLeft => Vec3Bits { x: ZERO_BITS, y: scaled_size.y, z: ZERO_BITS },
        Origin::BottomRight => Vec3Bits { x: ieee_neg(scaled_size.x), y: scaled_size.y, z: ZERO_BITS },
        Origin::Center => Vec3Bits {
            x: ieee_mul(ieee_neg(scaled_size.x), HALF_BITS),
            y: ieee_mul(scaled_size.y, HALF_BITS),
            z: ZERO_BITS,
        },
        Origin::TopLeft => Vec3Bits { x: ZERO_BITS, y: ZERO_BITS, z: ZERO_BITS },
        Origin::TopRight => Vec3Bits { x: ieee_neg(scaled_size.x), y: ZERO_BITS, z: ZERO_BITS },
    }
}

impl Origin {
    /// Computes the translation for an origin.  The resulting translation
    /// needs to be added to the translation of the document.
    pub fn compute_translation(&self, scaled_size: Vec2Bits) -> (r: Vec3Bits)
        ensures
            r == origin_translation(*self, scaled_size),
    {
        match self {
            Origin::BottomLeft => Vec3Bits { x: ZERO_BITS, y: scaled_size.y, z: ZERO_BITS },
            Origin::BottomRight => Vec3Bits {
                x: neg_bits(scaled_size.x),
                y: scaled_size.y,
                z: ZERO_BITS,
            },
            Origin::Center => Vec3Bits {
                x: mul_bits(neg_bits(scaled_size.x), HALF_BITS),
                y: mul_bits(scaled_size.y, HALF_BITS),
                z: ZERO_BITS,
            },
            // The source format's own origin is the top left corner, so
            // nothing needs to move.
            Origin::TopLeft => Vec3Bits { x: ZERO_BITS, y: ZERO_BITS, z: ZERO_BITS },
            Origin::TopRight => Vec3Bits { x: neg_bits(scaled_size.x), y: ZERO_BITS, z: ZERO_BITS },
        }
    }
}

} // verus!
