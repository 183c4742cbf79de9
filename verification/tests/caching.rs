//! The mesh cache: sharing, pending entries, invalidation and removal.

use bevy_svg::cache::SvgMeshCache;
use bevy_svg::math::{QuatBits, TransformBits, Vec2Bits, Vec3Bits, ONE_BITS, ZERO_BITS};
use bevy_svg::resources::SvgMeshKey;
use bevy_svg::settings::SvgMesh3d;
use bevy_svg::svg::{DrawType, FillRule, PathDescriptor, Svg};
use lyon_tessellation::math::point;
use lyon_tessellation::path::Path;

fn identity_transform() -> TransformBits {
    TransformBits {
        translation: Vec3Bits { x: ZERO_BITS, y: ZERO_BITS, z: ZERO_BITS },
        rotation: QuatBits { x: ZERO_BITS, y: ZERO_BITS, z: ZERO_BITS, w: ONE_BITS },
        scale: Vec3Bits { x: ONE_BITS, y: ONE_BITS, z: ONE_BITS },
    }
}

fn triangle_svg() -> Svg {
    let mut builder = Path::builder();
    builder.begin(point(0.0, 0.0));
    builder.line_to(point(10.0, 0.0));
    builder.line_to(point(0.0, 10.0));
    builder.close();
    Svg {
        name: String::from("triangle"),
        size: Vec2Bits { x: 10.0f32.to_bits(), y: 10.0f32.to_bits() },
        paths: vec![PathDescriptor {
            segments: builder.build(),
            color: 5,
            draw_type: DrawType::Fill(FillRule::NonZero),
            abs_transform: identity_transform(),
        }],
    }
}

#[test]
fn same_settings_share_one_handle() {
    let mut cache = SvgMeshCache::new();
    let settings = SvgMesh3d::default();
    let h1 = cache.get_or_create(42, &settings);
    let h2 = cache.get_or_create(42, &settings);
    assert_eq!(h1, h2);
}

#[test]
fn different_tolerance_bits_get_different_handles() {
    let mut cache = SvgMeshCache::new();
    let a = SvgMesh3d::default();
    let mut b = SvgMesh3d::default();
    b.tolerance = a.tolerance ^ 1;
    let ha = cache.get_or_create(42, &a);
    let hb = cache.get_or_create(42, &b);
    assert_ne!(ha, hb);
}

#[test]
fn different_documents_get_different_handles() {
    let mut cache = SvgMeshCache::new();
    let settings = SvgMesh3d::default();
    let h1 = cache.get_or_create(1, &settings);
    let h2 = cache.get_or_create(2, &settings);
    assert_ne!(h1, h2);
}

#[test]
fn request_without_document_stays_pending_and_keeps_contents() {
    let mut cache = SvgMeshCache::new();
    let settings = SvgMesh3d::default();
    let mut fill = lyon_tessellation::FillTessellator::new();
    let mut stroke = lyon_tessellation::StrokeTessellator::new();
    let key = SvgMeshKey::from(settings);

    // Not yet loaded: the entry is reserved but empty.
    let h1 = cache.process_request(9, &settings, None, &mut fill, &mut stroke);
    let entry = cache.lookup(9, &key).unwrap();
    assert_eq!(entry.handle, h1);
    assert!(entry.mesh.is_none());

    // Loaded: the same entry is populated.
    let svg = triangle_svg();
    let h2 = cache.process_request(9, &settings, Some(&svg), &mut fill, &mut stroke);
    assert_eq!(h1, h2);
    let populated = cache.lookup(9, &key).unwrap().mesh.as_ref().unwrap().clone();
    assert_eq!(populated.vertices.len(), 3);

    // Missing again on a later cycle: previous contents are retained.
    let h3 = cache.process_request(9, &settings, None, &mut fill, &mut stroke);
    assert_eq!(h1, h3);
    let retained = cache.lookup(9, &key).unwrap().mesh.as_ref().unwrap();
    assert_eq!(retained.vertices, populated.vertices);
    assert_eq!(retained.indices, populated.indices);
}

#[test]
fn modification_regenerates_bit_identically_under_unchanged_geometry() {
    let mut cache = SvgMeshCache::new();
    let settings = SvgMesh3d { depth: Some(1.5f32.to_bits()), ..SvgMesh3d::default() };
    let mut fill = lyon_tessellation::FillTessellator::new();
    let mut stroke = lyon_tessellation::StrokeTessellator::new();
    let key = SvgMeshKey::from(settings);
    let svg = triangle_svg();

    cache.process_request(3, &settings, Some(&svg), &mut fill, &mut stroke);
    let before = cache.lookup(3, &key).unwrap().mesh.as_ref().unwrap().clone();

    // A "document modified" notification with unchanged geometry: the entry
    // is recomputed and comes out bit-identical.
    cache.regenerate_document(3, &svg, &mut fill, &mut stroke);
    let after = cache.lookup(3, &key).unwrap().mesh.as_ref().unwrap();
    assert_eq!(after.vertices, before.vertices);
    assert_eq!(after.indices, before.indices);
}

#[test]
fn modification_populates_every_entry_of_the_document() {
    let mut cache = SvgMeshCache::new();
    let a = SvgMesh3d::default();
    let b = SvgMesh3d { depth: Some(2.0f32.to_bits()), ..SvgMesh3d::default() };
    let mut fill = lyon_tessellation::FillTessellator::new();
    let mut stroke = lyon_tessellation::StrokeTessellator::new();

    // Two pending entries for the document, one for another document.
    cache.get_or_create(1, &a);
    cache.get_or_create(1, &b);
    cache.get_or_create(2, &a);

    let svg = triangle_svg();
    cache.regenerate_document(1, &svg, &mut fill, &mut stroke);

    let flat = cache.lookup(1, &SvgMeshKey::from(a)).unwrap().mesh.as_ref().unwrap();
    assert_eq!(flat.vertices.len(), 3);
    let extruded = cache.lookup(1, &SvgMeshKey::from(b)).unwrap().mesh.as_ref().unwrap();
    assert_eq!(extruded.vertices.len(), 6);
    // The other document was not touched.
    assert!(cache.lookup(2, &SvgMeshKey::from(a)).unwrap().mesh.is_none());
}

#[test]
fn removal_behaves_as_a_fresh_miss() {
    let mut cache = SvgMeshCache::new();
    let settings = SvgMesh3d::default();
    let mut fill = lyon_tessellation::FillTessellator::new();
    let mut stroke = lyon_tessellation::StrokeTessellator::new();
    let key = SvgMeshKey::from(settings);
    let svg = triangle_svg();

    let stale = cache.process_request(5, &settings, Some(&svg), &mut fill, &mut stroke);
    cache.remove_document(5);
    assert!(cache.lookup(5, &key).is_none());

    // The next request starts over: a new pending entry under a handle that
    // was never handed out before.
    let fresh = cache.get_or_create(5, &settings);
    assert_ne!(fresh, stale);
    assert!(cache.lookup(5, &key).unwrap().mesh.is_none());
}

#[test]
fn removal_keeps_other_documents() {
    let mut cache = SvgMeshCache::new();
    let settings = SvgMesh3d::default();
    let h_other = cache.get_or_create(8, &settings);
    cache.get_or_create(9, &settings);
    cache.remove_document(9);
    let key = SvgMeshKey::from(settings);
    assert_eq!(cache.lookup(8, &key).unwrap().handle, h_other);
    assert!(cache.lookup(9, &key).is_none());
}
