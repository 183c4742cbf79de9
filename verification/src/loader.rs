//! The asset-loader marker.  Reading bytes and parsing them into a
//! [`crate::svg::Svg`] belongs to the host's asset system and the external
//! parser; the engine only states which file extensions the loader claims.

use vstd::prelude::*;

verus! {

/// Loads vector-graphic documents from the host's asset system.
pub struct SvgAssetLoader;

impl SvgAssetLoader {
    /// The file extensions the loader accepts: plain and compressed
    /// documents.
    pub fn extensions(&self) -> (r: Vec<&'static str>)
        ensures
            r@.len() == 2,
            r@[0]@ == "svg"@,
            r@[1]@ == "svgz"@,
    {
        let mut exts: Vec<&'static str> = Vec::new();
        exts.push("svg");
        exts.push("svgz");
        exts
    }
}

} // verus!
