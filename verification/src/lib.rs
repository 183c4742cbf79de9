//! Tessellation and caching engine for vector-graphic documents.
//!
//! A parsed document (an ordered list of filled or stroked paths plus an
//! intrinsic size) is turned into a triangle mesh according to a set of
//! geometric settings: coordinate origin, optional size override, rotation,
//! optional extrusion depth, and curve-flattening tolerance.  Generated
//! meshes are cached per document and per bit-exact settings key, so that
//! consumers asking for the same visual result share one buffer.
//!
//! Every floating-point quantity is carried as its raw IEEE-754 bit pattern
//! (`u32`).  The arithmetic itself is performed by the host's math library
//! behind a small trusted boundary; everything built on top of it — key
//! canonicalization, buffer assembly, extrusion with silhouette side walls,
//! and the mesh cache — is verified.

pub mod cache;
pub mod extern_types;
pub mod loader;
pub mod math;
pub mod origin;
pub mod plugin;
pub mod resources;
pub mod settings;
pub mod svg;
pub mod tessellation;
pub mod vertex_buffer;
