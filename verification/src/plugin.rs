//! Marker types for the host-side wiring.  The host registers the engine's
//! update pass and owns the engine's state (the mesh cache and the two
//! tessellators); these types name that wiring.

use vstd::prelude::*;

use crate::cache::SvgMeshCache;

verus! {

/// A plugin that makes sure loaded documents get rendered: the host wires
/// the engine's update pass into its schedule under this marker.
pub struct SvgRenderPlugin;

/// The rendering half of the wiring: on startup it owns creating the
/// engine's state, which the update pass mutates from the single scheduling
/// thread.
pub struct SvgPlugin;

impl SvgPlugin {
    /// The engine state a fresh host starts with: an empty mesh cache.
    pub fn init_cache() -> (r: SvgMeshCache)
        ensures
            r.wf(),
            r@ == Map::<(u128, crate::resources::SvgMeshKey), crate::cache::CacheEntry>::empty(),
    {
        SvgMeshCache::new()
    }
}

} // verus!
