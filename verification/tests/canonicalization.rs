//! Settings canonicalization: bit-exact keys, lossless decoding, and the
//! settings conversions.

use bevy::math::{EulerRot, Quat};
use bevy_svg::math::{QuatBits, Vec2Bits};
use bevy_svg::origin::Origin;
use bevy_svg::resources::SvgMeshKey;
use bevy_svg::settings::{SvgMesh2d, SvgMesh3d};

fn quat_bits(q: Quat) -> QuatBits {
    QuatBits { x: q.x.to_bits(), y: q.y.to_bits(), z: q.z.to_bits(), w: q.w.to_bits() }
}

fn sample_settings() -> SvgMesh3d {
    SvgMesh3d {
        origin: Origin::Center,
        size: Some(Vec2Bits { x: 300.0f32.to_bits(), y: 150.5f32.to_bits() }),
        depth: Some(2.25f32.to_bits()),
        rotation: quat_bits(Quat::from_rotation_z(0.75)),
        tolerance: 0.001f32.to_bits(),
    }
}

#[test]
fn key_equal_for_bit_identical_settings() {
    let a = sample_settings();
    let b = sample_settings();
    assert_eq!(SvgMeshKey::from(a), SvgMeshKey::from(b));
}

#[test]
fn key_differs_when_tolerance_differs_by_one_bit() {
    let a = sample_settings();
    let mut b = sample_settings();
    b.tolerance = a.tolerance ^ 1;
    assert_ne!(SvgMeshKey::from(a), SvgMeshKey::from(b));
}

#[test]
fn key_distinguishes_zero_signs_and_nan_payloads() {
    let mut a = sample_settings();
    let mut b = sample_settings();
    a.depth = Some(0.0f32.to_bits());
    b.depth = Some((-0.0f32).to_bits());
    assert_ne!(SvgMeshKey::from(a), SvgMeshKey::from(b));

    let nan1 = f32::NAN.to_bits();
    let nan2 = nan1 ^ 1;
    a.depth = Some(nan1);
    b.depth = Some(nan2);
    assert_ne!(SvgMeshKey::from(a), SvgMeshKey::from(b));
}

#[test]
fn key_decodes_back_to_the_settings_it_encodes() {
    let s = sample_settings();
    let key = SvgMeshKey::from(s);
    let decoded = SvgMesh3d::from(key);
    assert_eq!(decoded, s);
    assert_eq!(SvgMeshKey::from(decoded), key);
}

#[test]
fn default_settings_use_the_documented_tolerance() {
    let s3 = SvgMesh3d::default();
    assert_eq!(s3.tolerance, 0.001f32.to_bits());
    assert_eq!(s3.origin, Origin::TopLeft);
    assert_eq!(s3.size, None);
    assert_eq!(s3.depth, None);
    assert_eq!(s3.rotation, quat_bits(Quat::IDENTITY));

    let s2 = SvgMesh2d::default();
    assert_eq!(s2.tolerance, 0.001f32.to_bits());
    assert_eq!(s2.rotation, 0.0f32.to_bits());
}

#[test]
fn mesh2d_converts_through_a_z_rotation() {
    let angle = 1.25f32;
    let s2 = SvgMesh2d {
        origin: Origin::BottomLeft,
        size: None,
        rotation: angle.to_bits(),
        tolerance: 0.01f32.to_bits(),
    };
    let s3 = SvgMesh3d::from(s2);
    assert_eq!(s3.rotation, quat_bits(Quat::from_rotation_z(angle)));
    assert_eq!(s3.depth, None);
    assert_eq!(s3.origin, Origin::BottomLeft);
    assert_eq!(s3.tolerance, s2.tolerance);
}

#[test]
fn key_decodes_to_mesh2d_by_euler_angle() {
    let angle = 0.5f32;
    let q = Quat::from_rotation_z(angle);
    let s3 = SvgMesh3d {
        origin: Origin::TopRight,
        size: None,
        depth: Some(4.0f32.to_bits()),
        rotation: quat_bits(q),
        tolerance: 0.001f32.to_bits(),
    };
    let key = SvgMeshKey::from(s3);
    let s2 = SvgMesh2d::from(key);
    // The depth is discarded and the angle is recovered through the z-y-x
    // Euler decomposition of the quaternion.
    assert_eq!(s2.rotation, q.to_euler(EulerRot::ZYX).0.to_bits());
    assert_eq!(s2.origin, Origin::TopRight);
}

#[test]
fn loader_extensions_cover_plain_and_compressed_documents() {
    let exts = bevy_svg::loader::SvgAssetLoader.extensions();
    assert_eq!(exts, vec!["svg", "svgz"]);
}
