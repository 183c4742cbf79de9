//! Geometry: origin translations, extrusion winding and silhouette walls,
//! and the full assembly pipeline held against the host math library.

use bevy::math::{Quat, Vec2, Vec3};
use bevy::transform::components::Transform;
use bevy_svg::math::{QuatBits, TransformBits, Vec2Bits, Vec3Bits, ONE_BITS, ZERO_BITS};
use bevy_svg::origin::Origin;
use bevy_svg::settings::SvgMesh3d;
use bevy_svg::svg::{DrawType, FillRule, PathDescriptor, Svg};
use bevy_svg::tessellation::extrude_buffer;
use bevy_svg::vertex_buffer::{Vertex, VertexBuffers};
use lyon_tessellation::math::point;
use lyon_tessellation::path::Path;

fn vec3_bits(v: Vec3) -> Vec3Bits {
    Vec3Bits { x: v.x.to_bits(), y: v.y.to_bits(), z: v.z.to_bits() }
}

fn quat_bits(q: Quat) -> QuatBits {
    QuatBits { x: q.x.to_bits(), y: q.y.to_bits(), z: q.z.to_bits(), w: q.w.to_bits() }
}

fn identity_transform() -> TransformBits {
    TransformBits {
        translation: Vec3Bits { x: ZERO_BITS, y: ZERO_BITS, z: ZERO_BITS },
        rotation: QuatBits { x: ZERO_BITS, y: ZERO_BITS, z: ZERO_BITS, w: ONE_BITS },
        scale: Vec3Bits { x: ONE_BITS, y: ONE_BITS, z: ONE_BITS },
    }
}

fn triangle_path() -> Path {
    let mut builder = Path::builder();
    builder.begin(point(0.0, 0.0));
    builder.line_to(point(10.0, 0.0));
    builder.line_to(point(0.0, 10.0));
    builder.close();
    builder.build()
}

fn triangle_svg(color: u32) -> Svg {
    Svg {
        name: String::from("triangle"),
        size: Vec2Bits { x: 10.0f32.to_bits(), y: 10.0f32.to_bits() },
        paths: vec![PathDescriptor {
            segments: triangle_path(),
            color,
            draw_type: DrawType::Fill(FillRule::NonZero),
            abs_transform: identity_transform(),
        }],
    }
}

#[test]
fn origin_translations_match_the_documented_formulas() {
    let w = 200.0f32;
    let h = 150.0f32;
    let size = Vec2Bits { x: w.to_bits(), y: h.to_bits() };

    let top_left = Origin::TopLeft.compute_translation(size);
    assert_eq!(top_left, vec3_bits(Vec3::ZERO));

    let center = Origin::Center.compute_translation(size);
    assert_eq!(center, vec3_bits(Vec3::new(-w * 0.5, h * 0.5, 0.0)));

    let bottom_right = Origin::BottomRight.compute_translation(size);
    assert_eq!(bottom_right, vec3_bits(Vec3::new(-w, h, 0.0)));

    let bottom_left = Origin::BottomLeft.compute_translation(size);
    assert_eq!(bottom_left, vec3_bits(Vec3::new(0.0, h, 0.0)));

    let top_right = Origin::TopRight.compute_translation(size);
    assert_eq!(top_right, vec3_bits(Vec3::new(-w, 0.0, 0.0)));
}

#[test]
fn extruding_one_triangle_gives_three_walls_with_reversed_back_face() {
    let v = |x: f32, y: f32| Vertex {
        position: vec3_bits(Vec3::new(x, y, 0.0)),
        color: 0xff00ff00,
    };
    let mut buffer = VertexBuffers {
        vertices: vec![v(0.0, 0.0), v(1.0, 0.0), v(0.0, 1.0)],
        indices: vec![0, 1, 2],
    };
    let offset = vec3_bits(Vec3::new(0.0, 0.0, -2.0));
    extrude_buffer(&mut buffer, offset);

    // Front vertices kept, then the back copy of each, moved by the offset.
    assert_eq!(buffer.vertices.len(), 6);
    for i in 0..3 {
        assert_eq!(buffer.vertices[i + 3].position.z, (-2.0f32).to_bits());
        assert_eq!(buffer.vertices[i + 3].position.x, buffer.vertices[i].position.x);
        assert_eq!(buffer.vertices[i + 3].color, buffer.vertices[i].color);
    }
    // Front triangle unchanged, back triangle reversed, and one wall (two
    // triangles) for each of the three silhouette edges.
    assert_eq!(
        buffer.indices,
        vec![
            0, 1, 2, // front
            5, 4, 3, // back, winding reversed
            0, 3, 1, 1, 3, 4, // wall of edge (0, 1)
            1, 4, 2, 2, 4, 5, // wall of edge (1, 2)
            2, 5, 0, 0, 5, 3, // wall of edge (2, 0)
        ]
    );
}

#[test]
fn extruding_two_triangles_sharing_an_edge_gives_four_walls() {
    let v = |x: f32, y: f32| Vertex {
        position: vec3_bits(Vec3::new(x, y, 0.0)),
        color: 0,
    };
    let mut buffer = VertexBuffers {
        vertices: vec![v(0.0, 0.0), v(1.0, 0.0), v(0.0, 1.0), v(1.0, 1.0)],
        indices: vec![0, 1, 2, 2, 1, 3],
    };
    extrude_buffer(&mut buffer, vec3_bits(Vec3::new(0.0, 0.0, -1.0)));

    assert_eq!(buffer.vertices.len(), 8);
    // 6 front + 6 back + 4 walls of 6 indices each: the shared edge (1, 2) /
    // (2, 1) gets no wall.
    assert_eq!(buffer.indices.len(), 36);
    assert_eq!(&buffer.indices[0..6], &[0, 1, 2, 2, 1, 3]);
    assert_eq!(&buffer.indices[6..12], &[6, 5, 4, 7, 5, 6]);
    assert_eq!(
        &buffer.indices[12..36],
        &[
            0, 4, 1, 1, 4, 5, // wall of edge (0, 1)
            2, 6, 0, 0, 6, 4, // wall of edge (2, 0)
            1, 5, 3, 3, 5, 7, // wall of edge (1, 3)
            3, 7, 2, 2, 7, 6, // wall of edge (3, 2)
        ]
    );
}

#[test]
fn filled_triangle_tessellates_to_one_front_triangle() {
    let svg = triangle_svg(0xaabbccdd);
    let mut fill = lyon_tessellation::FillTessellator::new();
    let mut stroke = lyon_tessellation::StrokeTessellator::new();
    let settings = SvgMesh3d::default();
    let buffer = svg.tessellate(&settings, &mut fill, &mut stroke);
    assert_eq!(buffer.vertices.len(), 3);
    assert_eq!(buffer.indices.len(), 3);
    for v in &buffer.vertices {
        assert_eq!(v.color, 0xaabbccdd);
    }
}

#[test]
fn extruded_triangle_document_has_back_face_and_three_walls() {
    let svg = triangle_svg(1);
    let mut fill = lyon_tessellation::FillTessellator::new();
    let mut stroke = lyon_tessellation::StrokeTessellator::new();
    let settings = SvgMesh3d { depth: Some(3.0f32.to_bits()), ..SvgMesh3d::default() };
    let buffer = svg.tessellate(&settings, &mut fill, &mut stroke);
    // 3 front + 3 back vertices; 1 front + 1 back + 6 wall triangles.
    assert_eq!(buffer.vertices.len(), 6);
    assert_eq!(buffer.indices.len(), 24);
}

#[test]
fn zero_depth_still_duplicates_with_degenerate_walls() {
    let svg = triangle_svg(1);
    let mut fill = lyon_tessellation::FillTessellator::new();
    let mut stroke = lyon_tessellation::StrokeTessellator::new();
    let settings = SvgMesh3d { depth: Some(0.0f32.to_bits()), ..SvgMesh3d::default() };
    let buffer = svg.tessellate(&settings, &mut fill, &mut stroke);
    assert_eq!(buffer.vertices.len(), 6);
    assert_eq!(buffer.indices.len(), 24);
    // The back face coincides with the front face: zero-area side walls are
    // accepted, not special-cased.
    assert_eq!(buffer.vertices[3].position.x, buffer.vertices[0].position.x);
    assert_eq!(buffer.vertices[3].position.y, buffer.vertices[0].position.y);
}

#[test]
fn path_without_segments_contributes_nothing() {
    let empty_path = Path::builder().build();
    let svg = Svg {
        name: String::from("blank"),
        size: Vec2Bits { x: 10.0f32.to_bits(), y: 10.0f32.to_bits() },
        paths: vec![
            PathDescriptor {
                segments: empty_path,
                color: 1,
                draw_type: DrawType::Fill(FillRule::NonZero),
                abs_transform: identity_transform(),
            },
            triangle_svg(2).paths.remove(0),
        ],
    };
    let mut fill = lyon_tessellation::FillTessellator::new();
    let mut stroke = lyon_tessellation::StrokeTessellator::new();
    let buffer = svg.tessellate(&SvgMesh3d::default(), &mut fill, &mut stroke);
    assert_eq!(buffer.vertices.len(), 3);
    assert!(buffer.vertices.iter().all(|v| v.color == 2));
}

#[test]
fn empty_document_assembles_to_an_empty_buffer() {
    let svg = Svg {
        name: String::from("empty"),
        size: Vec2Bits { x: 1.0f32.to_bits(), y: 1.0f32.to_bits() },
        paths: vec![],
    };
    let mut fill = lyon_tessellation::FillTessellator::new();
    let mut stroke = lyon_tessellation::StrokeTessellator::new();
    let buffer = svg.tessellate(&SvgMesh3d::default(), &mut fill, &mut stroke);
    assert!(buffer.vertices.is_empty());
    assert!(buffer.indices.is_empty());
}

#[test]
fn failing_path_is_isolated_and_others_still_contribute() {
    // Under a zero flattening tolerance the fill triangulator rejects its
    // input (tolerance must be positive), while stroked paths carry their
    // own tolerance and still succeed.  The middle (fill) path must fail
    // alone; the two strokes around it come through untouched.
    let stroke_style = bevy_svg::svg::StrokeStyle {
        line_width: 1.0f32.to_bits(),
        start_cap: lyon_tessellation::LineCap::Butt,
        end_cap: lyon_tessellation::LineCap::Butt,
        line_join: lyon_tessellation::LineJoin::Miter,
        miter_limit: 4.0f32.to_bits(),
        tolerance: 0.1f32.to_bits(),
    };
    let descriptor = |draw_type: DrawType, color: u32| PathDescriptor {
        segments: triangle_path(),
        color,
        draw_type,
        abs_transform: identity_transform(),
    };
    let settings = SvgMesh3d { tolerance: 0.0f32.to_bits(), ..SvgMesh3d::default() };
    let mut fill = lyon_tessellation::FillTessellator::new();
    let mut stroke = lyon_tessellation::StrokeTessellator::new();

    // How many vertices one stroked triangle produces on its own.
    let single = Svg {
        name: String::from("one"),
        size: Vec2Bits { x: 10.0f32.to_bits(), y: 10.0f32.to_bits() },
        paths: vec![descriptor(DrawType::Stroke(stroke_style), 1)],
    };
    let alone = single.tessellate(&settings, &mut fill, &mut stroke);
    let n = alone.vertices.len();
    let m = alone.indices.len();
    assert!(n > 0);

    let svg = Svg {
        name: String::from("three"),
        size: Vec2Bits { x: 10.0f32.to_bits(), y: 10.0f32.to_bits() },
        paths: vec![
            descriptor(DrawType::Stroke(stroke_style), 1),
            descriptor(DrawType::Fill(FillRule::NonZero), 2),
            descriptor(DrawType::Stroke(stroke_style), 3),
        ],
    };
    let buffer = svg.tessellate(&settings, &mut fill, &mut stroke);
    // Both strokes are present, nothing from the failing fill path.
    assert_eq!(buffer.vertices.len(), 2 * n);
    assert_eq!(buffer.indices.len(), 2 * m);
    assert!(buffer.vertices[0..n].iter().all(|v| v.color == 1));
    assert!(buffer.vertices[n..2 * n].iter().all(|v| v.color == 3));
    // The second stroke's indices are offset past the first one's vertices.
    assert!(buffer.indices[0..m].iter().all(|i| (*i as usize) < n));
    assert!(buffer.indices[m..2 * m].iter().all(|i| (*i as usize) >= n && (*i as usize) < 2 * n));
}

#[test]
fn stroked_path_matches_the_triangulator_bit_for_bit() {
    // Tessellate the same stroked triangle directly and hold the engine's
    // output (which only adds the document transform, here the plain
    // vertical flip) against it.
    let style = bevy_svg::svg::StrokeStyle {
        line_width: 2.0f32.to_bits(),
        start_cap: lyon_tessellation::LineCap::Round,
        end_cap: lyon_tessellation::LineCap::Round,
        line_join: lyon_tessellation::LineJoin::Bevel,
        miter_limit: 4.0f32.to_bits(),
        tolerance: 0.05f32.to_bits(),
    };
    let svg = Svg {
        name: String::from("stroked"),
        size: Vec2Bits { x: 10.0f32.to_bits(), y: 10.0f32.to_bits() },
        paths: vec![PathDescriptor {
            segments: triangle_path(),
            color: 9,
            draw_type: DrawType::Stroke(style),
            abs_transform: identity_transform(),
        }],
    };
    let mut fill = lyon_tessellation::FillTessellator::new();
    let mut stroke = lyon_tessellation::StrokeTessellator::new();
    let buffer = svg.tessellate(&SvgMesh3d::default(), &mut fill, &mut stroke);

    let opts = lyon_tessellation::StrokeOptions::tolerance(0.05)
        .with_line_width(2.0)
        .with_line_cap(lyon_tessellation::LineCap::Round)
        .with_line_join(lyon_tessellation::LineJoin::Bevel)
        .with_miter_limit(4.0);
    let mut local: lyon_tessellation::VertexBuffers<lyon_tessellation::math::Point, u32> =
        lyon_tessellation::VertexBuffers::new();
    let mut direct = lyon_tessellation::StrokeTessellator::new();
    direct
        .tessellate_path(
            &triangle_path(),
            &opts,
            &mut lyon_tessellation::geometry_builder::BuffersBuilder::new(
                &mut local,
                lyon_tessellation::geometry_builder::Positions,
            ),
        )
        .unwrap();
    assert!(!local.vertices.is_empty());
    assert_eq!(buffer.vertices.len(), local.vertices.len());
    assert_eq!(buffer.indices, local.indices);
    let transform = Transform {
        translation: Vec3::ZERO,
        rotation: Quat::IDENTITY,
        scale: Vec3::new(1.0, -1.0, 1.0),
    };
    let composed = transform.mul_transform(Transform::IDENTITY);
    for (i, p) in local.vertices.iter().enumerate() {
        let expected = composed.transform_point(Vec3::new(p.x, p.y, 0.0));
        assert_eq!(buffer.vertices[i].position, vec3_bits(expected));
    }
}

#[test]
fn assembly_matches_the_host_math_library_bit_for_bit() {
    // Recompute the whole per-vertex pipeline with the host math library
    // directly and hold the engine's output against it.
    let w = 10.0f32;
    let h = 10.0f32;
    let rotation = Quat::from_rotation_z(0.35);
    let depth = 2.5f32;
    let size_override = Vec2::new(25.0, 40.0);
    let settings = SvgMesh3d {
        origin: Origin::Center,
        size: Some(Vec2Bits { x: size_override.x.to_bits(), y: size_override.y.to_bits() }),
        depth: Some(depth.to_bits()),
        rotation: quat_bits(rotation),
        tolerance: 0.001f32.to_bits(),
    };
    let svg = triangle_svg(7);
    let mut fill = lyon_tessellation::FillTessellator::new();
    let mut stroke = lyon_tessellation::StrokeTessellator::new();
    let buffer = svg.tessellate(&settings, &mut fill, &mut stroke);

    // The document transform, as the host math library computes it.
    let scale = size_override / Vec2::new(w, h);
    let front_z = Vec3::Z * depth * 0.5;
    let origin_offset = Vec3::new(-size_override.x * 0.5, size_override.y * 0.5, 0.0);
    let transform = Transform {
        translation: rotation * (origin_offset + front_z),
        rotation,
        scale: Vec3::new(scale.x, -scale.y, 1.0),
    };
    let composed = transform.mul_transform(Transform::IDENTITY);

    // The same path, tessellated directly.
    let mut local: lyon_tessellation::VertexBuffers<lyon_tessellation::math::Point, u32> =
        lyon_tessellation::VertexBuffers::new();
    let mut direct = lyon_tessellation::FillTessellator::new();
    direct
        .tessellate_path(
            &triangle_path(),
            &lyon_tessellation::FillOptions::non_zero().with_tolerance(0.001),
            &mut lyon_tessellation::geometry_builder::BuffersBuilder::new(
                &mut local,
                lyon_tessellation::geometry_builder::Positions,
            ),
        )
        .unwrap();
    assert_eq!(buffer.vertices.len(), 2 * local.vertices.len());

    let back_offset = composed.rotation * (Vec3::NEG_Z * (depth * 0.5));
    for (i, p) in local.vertices.iter().enumerate() {
        let front = composed.transform_point(Vec3::new(p.x, p.y, 0.0));
        assert_eq!(buffer.vertices[i].position, vec3_bits(front));
        let back = front + back_offset;
        assert_eq!(buffer.vertices[i + local.vertices.len()].position, vec3_bits(back));
    }
}
