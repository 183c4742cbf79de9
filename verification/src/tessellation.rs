//! Buffer assembly: turning a document plus geometric settings into one
//! triangle-mesh buffer.
//!
//! Per path, the external triangulator produces a local-space buffer; its
//! vertices are carried through the composed document-and-path transform and
//! colored, the result is optionally extruded along the rotated z axis, and
//! the per-path buffers are merged into one document buffer with their
//! indices offset.
//!
//! Extrusion duplicates the front face (offset backwards, winding reversed
//! so the back face points away), and closes the solid with side walls along
//! the silhouette: a directed edge of a front triangle gets a wall exactly
//! when neither it nor its reverse occurs as an edge of any other triangle.
//! Interior edges, shared by two triangles, get no wall.
//!
//! A triangulation failure for one path is non-fatal: that path contributes
//! an empty buffer and the remaining paths are still processed.

use vstd::prelude::*;

use crate::math::{
    ieee_div, ieee_mul, ieee_neg, mul_bits, neg_bits, div_bits, quat_rotate, quat_rotated,
    vec3_add, vec3_scale, vec3_scaled, vec3_sum, QuatBits, TransformBits, Vec2Bits, Vec3Bits,
    composed_transform, transformed_point, HALF_BITS, NEG_ONE_BITS, ONE_BITS, ZERO_BITS,
};
use crate::origin::origin_translation;
use crate::resources::{
    fill_tess_of, local_buffer_wf, path_data, stroke_tess_of, tessellate_fill, tessellate_stroke,
};
use crate::settings::SvgMesh3d;
use crate::svg::{DrawType, PathDescriptor, Svg};
use crate::vertex_buffer::{buffer_wf, shifted_indices, Vertex, VertexBuffers};

verus! {

/// The unit vector along the positive z axis, as bit patterns.
pub open spec fn z_axis() -> Vec3Bits {
    Vec3Bits { x: ZERO_BITS, y: ZERO_BITS, z: ONE_BITS }
}

/// The unit vector along the negative z axis, as bit patterns.
pub open spec fn neg_z_axis() -> Vec3Bits {
    Vec3Bits { x: ZERO_BITS, y: ZERO_BITS, z: NEG_ONE_BITS }
}

/// The size the document is drawn at: the override when one is given, the
/// intrinsic size otherwise.
pub open spec fn effective_size(doc_size: Vec2Bits, size: Option<Vec2Bits>) -> Vec2Bits {
    match size {
        Some(v) => v,
        None => doc_size,
    }
}

/// The scale the override implies: the requested size divided by the
/// intrinsic size, component-wise; one when no override is given.
pub open spec fn effective_scale(doc_size: Vec2Bits, size: Option<Vec2Bits>) -> Vec2Bits {
    match size {
        Some(v) => Vec2Bits { x: ieee_div(v.x, doc_size.x), y: ieee_div(v.y, doc_size.y) },
        None => Vec2Bits { x: ONE_BITS, y: ONE_BITS },
    }
}

/// Half the extrusion depth along the positive z axis: the front face sits
/// this far forward so that the extruded solid is centered.
pub open spec fn front_offset(depth: Option<u32>) -> Vec3Bits {
    vec3_scaled(
        vec3_scaled(
            z_axis(),
            match depth {
                Some(d) => d,
                None => ZERO_BITS,
            },
        ),
        HALF_BITS,
    )
}

/// The document-level transform: the origin offset (of the effective size)
/// plus the half-depth forward offset, carried through the rotation, with
/// the vertical scale negated because the source format's y axis grows
/// downward while the target's grows upward.
pub open spec fn document_transform(doc_size: Vec2Bits, s: SvgMesh3d) -> TransformBits {
    TransformBits {
        translation: quat_rotated(
            s.rotation,
            vec3_sum(
                origin_translation(s.origin, effective_size(doc_size, s.size)),
                front_offset(s.depth),
            ),
        ),
        rotation: s.rotation,
        scale: Vec3Bits {
            x: effective_scale(doc_size, s.size).x,
            y: ieee_neg(effective_scale(doc_size, s.size).y),
            z: ONE_BITS,
        },
    }
}

/// The offset of the back face from the front face: half the depth along
/// the rotated negative z axis.
pub open spec fn back_offset(rotation: QuatBits, depth: u32) -> Vec3Bits {
    quat_rotated(rotation, vec3_scaled(neg_z_axis(), ieee_mul(depth, HALF_BITS)))
}

/// What the triangulator produces for one path under the given settings.
pub open spec fn local_tess_of(path: PathDescriptor, s: SvgMesh3d) -> Option<
    (Seq<Vec2Bits>, Seq<u32>),
> {
    match path.draw_type {
        DrawType::Fill(rule) => fill_tess_of(path_data(path.segments), rule, s.tolerance),
        DrawType::Stroke(style) => stroke_tess_of(path_data(path.segments), style),
    }
}

/// A path's local vertices carried through the composed transform and
/// colored: each local (x, y) becomes the transformed (x, y, 0).
pub open spec fn transformed_vertices(
    local: Seq<Vec2Bits>,
    composed: TransformBits,
    color: u32,
) -> Seq<Vertex> {
    local.map_values(
        |p: Vec2Bits|
            Vertex {
                position: transformed_point(composed, Vec3Bits { x: p.x, y: p.y, z: ZERO_BITS }),
                color,
            },
    )
}

/// The vertices of an extruded buffer: the front vertices, then one back
/// vertex per front vertex, offset by the back-face offset.
pub open spec fn extruded_vertices(front: Seq<Vertex>, offset: Vec3Bits) -> Seq<Vertex> {
    front + front.map_values(
        |v: Vertex| Vertex { position: vec3_sum(v.position, offset), color: v.color },
    )
}

/// The back-face indices of the first `t` front triangles: each triangle's
/// index triple reversed (so the back face points away from the solid) and
/// moved up to the back-face copy of the vertices.
pub open spec fn back_indices(idx: Seq<u32>, n: u32, t: nat) -> Seq<u32>
    decreases t,
{
    if t == 0 {
        Seq::empty()
    } else {
        back_indices(idx, n, (t - 1) as nat) + seq![
            ((idx[3 * (t - 1) + 2] + n) as u32),
            ((idx[3 * (t - 1) + 1] + n) as u32),
            ((idx[3 * (t - 1)] + n) as u32),
        ]
    }
}

/// The `j`-th directed edge implied by the front triangles: triangle `j / 3`
/// contributes its edges (a, b), (b, c), (c, a) at positions 0, 1, 2.
pub open spec fn edge_of(idx: Seq<u32>, j: int) -> (u32, u32) {
    (idx[j], idx[3 * (j / 3) + ((j % 3) + 1) % 3])
}

/// A directed edge is a boundary (silhouette) edge when neither it nor its
/// reverse occurs as any other edge of the front triangles.
pub open spec fn is_boundary_edge(idx: Seq<u32>, j: int) -> bool {
    forall|k: int|
        0 <= k < idx.len() && k != j ==> (#[trigger] edge_of(idx, k)) != edge_of(idx, j)
            && edge_of(idx, k) != (edge_of(idx, j).1, edge_of(idx, j).0)
}

/// The two side-wall triangles closing one boundary edge (a, b) against its
/// back-face counterpart (a + n, b + n).
pub open spec fn wall_of(idx: Seq<u32>, n: u32, j: int) -> Seq<u32> {
    let a = edge_of(idx, j).0;
    let b = edge_of(idx, j).1;
    seq![a, ((a + n) as u32), b, b, ((a + n) as u32), ((b + n) as u32)]
}

/// The side-wall indices contributed by the first `j` directed edges: a
/// wall for each boundary edge, nothing for interior edges.
pub open spec fn side_wall_indices(idx: Seq<u32>, n: u32, j: nat) -> Seq<u32>
    decreases j,
{
    if j == 0 {
        Seq::empty()
    } else {
        side_wall_indices(idx, n, (j - 1) as nat) + if is_boundary_edge(idx, j - 1) {
            wall_of(idx, n, j - 1)
        } else {
            Seq::empty()
        }
    }
}

/// The indices of an extruded buffer: the front triangles unchanged, then
/// the back face with reversed winding, then the silhouette side walls.
pub open spec fn extruded_indices(idx: Seq<u32>, n: u32) -> Seq<u32> {
    idx + back_indices(idx, n, idx.len() / 3) + side_wall_indices(idx, n, idx.len())
}

/// What one path adds to the document buffer: nothing when its
/// triangulation fails; otherwise its transformed, colored vertices and its
/// triangles, extruded when a depth is requested.  Extrusion is skipped for
/// a path whose doubled vertex count could not be indexed.
pub open spec fn path_contribution(
    path: PathDescriptor,
    doc_size: Vec2Bits,
    s: SvgMesh3d,
) -> (Seq<Vertex>, Seq<u32>) {
    match local_tess_of(path, s) {
        None => (Seq::empty(), Seq::empty()),
        Some(local) => {
            let composed = composed_transform(document_transform(doc_size, s), path.abs_transform);
            let front = transformed_vertices(local.0, composed, path.color);
            match s.depth {
                None => (front, local.1),
                Some(d) => if 2 * local.0.len() <= u32::MAX {
                    (
                        extruded_vertices(front, back_offset(composed.rotation, d)),
                        extruded_indices(local.1, local.0.len() as u32),
                    )
                } else {
                    (front, local.1)
                },
            }
        },
    }
}

/// The assembled document buffer: the contributions of the paths, in paint
/// order, each one's indices offset by the vertices before it.  A path
/// whose addition would overflow the index space is skipped.
pub open spec fn assembled(
    paths: Seq<PathDescriptor>,
    doc_size: Vec2Bits,
    s: SvgMesh3d,
) -> (Seq<Vertex>, Seq<u32>)
    decreases paths.len(),
{
    if paths.len() == 0 {
        (Seq::empty(), Seq::empty())
    } else {
        let prev = assembled(paths.drop_last(), doc_size, s);
        let c = path_contribution(paths.last(), doc_size, s);
        if prev.0.len() + c.0.len() <= u32::MAX {
            (prev.0 + c.0, prev.1 + shifted_indices(c.1, prev.0.len() as u32))
        } else {
            prev
        }
    }
}

/// Extrudes an assembled front face in place: appends the back-face copy of
/// every vertex (offset by `offset`), the back-face triangles with reversed
/// winding, and two side-wall triangles for every boundary edge of the
/// front face.
pub fn extrude_buffer(buffer: &mut VertexBuffers, offset: Vec3Bits)
    requires
        old(buffer).wf(),
        old(buffer).indices@.len() % 3 == 0,
        2 * old(buffer).vertices@.len() <= u32::MAX,
    ensures
        final(buffer).vertices@ == extruded_vertices(old(buffer).vertices@, offset),
        final(buffer).indices@ == extruded_indices(
            old(buffer).indices@,
            old(buffer).vertices@.len() as u32,
        ),
        final(buffer).wf(),
        final(buffer).indices@.len() % 3 == 0,
{
    let n_usize: usize = buffer.vertices.len();
    let n: u32 = n_usize as u32;
    let front_idx_len: usize = buffer.indices.len();
    let ghost front_verts = buffer.vertices@;
    let ghost front_idx = buffer.indices@;

    // Back-face vertices: every front vertex moved by the back offset.
    let mut vi: usize = 0;
    while vi < n_usize
        invariant
            0 <= vi <= n_usize,
            n_usize == front_verts.len(),
            n == n_usize as u32,
            buffer.indices@ == front_idx,
            buffer.vertices@ == front_verts + front_verts.subrange(0, vi as int).map_values(
                |v: Vertex| Vertex { position: vec3_sum(v.position, offset), color: v.color },
            ),
        decreases n_usize - vi,
    {
        let v = buffer.vertices[vi];
        buffer.vertices.push(Vertex { position: vec3_add(v.position, offset), color: v.color });
        vi = vi + 1;
        proof {
            assert(buffer.vertices@ =~= front_verts + front_verts.subrange(0, vi as int).map_values(
                |v: Vertex| Vertex { position: vec3_sum(v.position, offset), color: v.color },
            ));
        }
    }
    proof {
        assert(front_verts.subrange(0, front_verts.len() as int) =~= front_verts);
        assert(buffer.vertices@ =~= extruded_vertices(front_verts, offset));
    }

    // Back-face triangles: reversed winding, indices moved to the back copy.
    let tri_count: usize = front_idx_len / 3;
    let mut t: usize = 0;
    while t < tri_count
        invariant
            0 <= t <= tri_count,
            tri_count == front_idx.len() / 3,
            front_idx.len() % 3 == 0,
            n == front_verts.len(),
            2 * front_verts.len() <= u32::MAX,
            buffer.vertices@ == extruded_vertices(front_verts, offset),
            front_idx_len == front_idx.len(),
            buffer.indices@ == front_idx + back_indices(front_idx, n, t as nat),
            buffer_wf(front_verts, front_idx),
        decreases tri_count - t,
    {
        let a = buffer.indices[3 * t];
        let b = buffer.indices[3 * t + 1];
        let c = buffer.indices[3 * t + 2];
        buffer.indices.push(c + n);
        buffer.indices.push(b + n);
        buffer.indices.push(a + n);
        t = t + 1;
        proof {
            assert(buffer.indices@ =~= front_idx + back_indices(front_idx, n, t as nat));
        }
    }

    // Side walls: one quad (two triangles) for every silhouette edge.
    let mut j: usize = 0;
    while j < front_idx_len
        invariant
            0 <= j <= front_idx_len,
            front_idx_len == front_idx.len(),
            front_idx.len() % 3 == 0,
            n == front_verts.len(),
            2 * front_verts.len() <= u32::MAX,
            buffer.vertices@ == extruded_vertices(front_verts, offset),
            buffer.indices@ == front_idx + back_indices(front_idx, n, front_idx.len() / 3)
                + side_wall_indices(front_idx, n, j as nat),
            buffer_wf(front_verts, front_idx),
        decreases front_idx_len - j,
    {
        let a = buffer.indices[j];
        let p: usize = j % 3;
        let q: usize = if p == 2 {
            0
        } else {
            p + 1
        };
        let b = buffer.indices[(j / 3) * 3 + q];
        proof {
            assert((j / 3) * 3 + q == 3 * ((j as int) / 3) + (((j as int) % 3) + 1) % 3);
            assert((a, b) == edge_of(front_idx, j as int));
        }
        // The edge is on the silhouette when no other directed edge equals
        // it or its reverse.
        let mut shared = false;
        let mut k: usize = 0;
        while k < front_idx_len
            invariant
                0 <= k <= front_idx_len,
                front_idx_len == front_idx.len(),
                front_idx.len() % 3 == 0,
                j < front_idx.len(),
                (a, b) == edge_of(front_idx, j as int),
                buffer.indices@ == front_idx + back_indices(front_idx, n, front_idx.len() / 3)
                    + side_wall_indices(front_idx, n, j as nat),
                shared <==> exists|m: int|
                    0 <= m < k && m != j && ((#[trigger] edge_of(front_idx, m)) == edge_of(
                        front_idx,
                        j as int,
                    ) || edge_of(front_idx, m) == (
                        edge_of(front_idx, j as int).1,
                        edge_of(front_idx, j as int).0,
                    )),
            decreases front_idx_len - k,
        {
            if k != j {
                let ka = buffer.indices[k];
                let kp: usize = k % 3;
                let kq: usize = if kp == 2 {
                    0
                } else {
                    kp + 1
                };
                let kb = buffer.indices[(k / 3) * 3 + kq];
                proof {
                    assert((k / 3) * 3 + kq == 3 * ((k as int) / 3) + (((k as int) % 3) + 1) % 3);
                    assert((ka, kb) == edge_of(front_idx, k as int));
                }
                if (ka == a && kb == b) || (ka == b && kb == a) {
                    shared = true;
                }
            }
            k = k + 1;
        }
        if !shared {
            // Outside edge: close it with two triangles against the back
            // face.
            let c = a + n;
            let d = b + n;
            buffer.indices.push(a);
            buffer.indices.push(c);
            buffer.indices.push(b);
            buffer.indices.push(b);
            buffer.indices.push(c);
            buffer.indices.push(d);
            proof {
                assert(is_boundary_edge(front_idx, j as int));
                assert(buffer.indices@ =~= front_idx + back_indices(
                    front_idx,
                    n,
                    front_idx.len() / 3,
                ) + side_wall_indices(front_idx, n, (j + 1) as nat));
            }
        } else {
            // The edge is shared with another triangle: it is interior and
            // gets no wall.
            proof {
                assert(!is_boundary_edge(front_idx, j as int));
                assert(buffer.indices@ =~= front_idx + back_indices(
                    front_idx,
                    n,
                    front_idx.len() / 3,
                ) + side_wall_indices(front_idx, n, (j + 1) as nat));
            }
        }
        j = j + 1;
    }
    proof {
        lemma_extruded_wf(front_verts, front_idx, offset, n);
    }
}

/// Generates the document's mesh buffer under the given settings: each
/// path is tessellated by the external triangulator, carried through the
/// composed transform, colored, extruded when a depth is requested, and
/// merged into one buffer.  A path whose triangulation fails contributes
/// nothing, and the remaining paths are still processed.
pub fn generate_buffer(
    svg: &Svg,
    fill_tess: &mut lyon_tessellation::FillTessellator,
    stroke_tess: &mut lyon_tessellation::StrokeTessellator,
    settings: &SvgMesh3d,
) -> (r: VertexBuffers)
    ensures
        r.vertices@ == assembled(svg.paths@, svg.size, *settings).0,
        r.indices@ == assembled(svg.paths@, svg.size, *settings).1,
        r.wf(),
        r.indices@.len() % 3 == 0,
{
    let size = match settings.size {
        Some(v) => v,
        None => svg.size,
    };
    let scale = match settings.size {
        Some(v) => Vec2Bits { x: div_bits(v.x, svg.size.x), y: div_bits(v.y, svg.size.y) },
        None => Vec2Bits { x: ONE_BITS, y: ONE_BITS },
    };
    let depth_bits = match settings.depth {
        Some(d) => d,
        None => ZERO_BITS,
    };
    let front_z = vec3_scale(
        vec3_scale(Vec3Bits { x: ZERO_BITS, y: ZERO_BITS, z: ONE_BITS }, depth_bits),
        HALF_BITS,
    );
    let origin_offset = settings.origin.compute_translation(size);
    let transform = TransformBits {
        translation: quat_rotate(settings.rotation, vec3_add(origin_offset, front_z)),
        rotation: settings.rotation,
        // The source format's y axis grows downward, the target's grows
        // upward, so the vertical scale is flipped.
        scale: Vec3Bits { x: scale.x, y: neg_bits(scale.y), z: ONE_BITS },
    };
    proof {
        assert(transform == document_transform(svg.size, *settings));
    }

    let mut buffers = VertexBuffers::new();
    let mut i: usize = 0;
    while i < svg.paths.len()
        invariant
            0 <= i <= svg.paths@.len(),
            transform == document_transform(svg.size, *settings),
            buffers.vertices@ == assembled(svg.paths@.subrange(0, i as int), svg.size, *settings).0,
            buffers.indices@ == assembled(svg.paths@.subrange(0, i as int), svg.size, *settings).1,
            buffers.wf(),
            buffers.indices@.len() % 3 == 0,
        decreases svg.paths@.len() - i,
    {
        let path = &svg.paths[i];
        let composed = transform.mul_transform(&path.abs_transform);
        let local = match path.draw_type {
            DrawType::Fill(rule) => tessellate_fill(
                fill_tess,
                &path.segments,
                rule,
                settings.tolerance,
            ),
            DrawType::Stroke(style) => tessellate_stroke(stroke_tess, &path.segments, &style),
        };
        let mut buffer = VertexBuffers::new();
        if let Some(local_buf) = local {
            let mut vi: usize = 0;
            while vi < local_buf.vertices.len()
                invariant
                    0 <= vi <= local_buf.vertices@.len(),
                    buffer.indices@.len() == 0,
                    buffer.vertices@ == transformed_vertices(
                        local_buf.vertices@.subrange(0, vi as int),
                        composed,
                        path.color,
                    ),
                decreases local_buf.vertices@.len() - vi,
            {
                let p = local_buf.vertices[vi];
                buffer.vertices.push(
                    Vertex {
                        position: composed.transform_point(
                            Vec3Bits { x: p.x, y: p.y, z: ZERO_BITS },
                        ),
                        color: path.color,
                    },
                );
                vi = vi + 1;
                proof {
                    assert(buffer.vertices@ =~= transformed_vertices(
                        local_buf.vertices@.subrange(0, vi as int),
                        composed,
                        path.color,
                    ));
                }
            }
            proof {
                assert(local_buf.vertices@.subrange(0, local_buf.vertices@.len() as int)
                    =~= local_buf.vertices@);
            }
            buffer.indices = local_buf.indices;
            if let Some(d) = settings.depth {
                if 2 * (buffer.vertices.len() as u128) <= u32::MAX as u128 {
                    let offset = quat_rotate(
                        composed.rotation,
                        vec3_scale(
                            Vec3Bits { x: ZERO_BITS, y: ZERO_BITS, z: NEG_ONE_BITS },
                            mul_bits(d, HALF_BITS),
                        ),
                    );
                    proof {
                        assert(offset == back_offset(composed.rotation, d));
                    }
                    extrude_buffer(&mut buffer, offset);
                }
            }
            proof {
                assert(buffer.vertices@ == path_contribution(
                    svg.paths@[i as int],
                    svg.size,
                    *settings,
                ).0);
                assert(buffer.indices@ == path_contribution(
                    svg.paths@[i as int],
                    svg.size,
                    *settings,
                ).1);
            }
        }
        if (buffers.vertices.len() as u128) + (buffer.vertices.len() as u128) <= u32::MAX as u128 {
            buffers.extend_one(&buffer);
        }
        i = i + 1;
        proof {
            assert(svg.paths@.subrange(0, i as int).drop_last() =~= svg.paths@.subrange(
                0,
                i - 1,
            ));
            assert(svg.paths@.subrange(0, i as int).last() == svg.paths@[i - 1]);
        }
    }
    proof {
        assert(svg.paths@.subrange(0, svg.paths@.len() as int) =~= svg.paths@);
    }
    buffers
}

impl Svg {
    /// Generates this document's mesh buffer under the given settings.
    pub fn tessellate(
        &self,
        settings: &SvgMesh3d,
        fill_tess: &mut lyon_tessellation::FillTessellator,
        stroke_tess: &mut lyon_tessellation::StrokeTessellator,
    ) -> (r: VertexBuffers)
        ensures
            r.vertices@ == assembled(self.paths@, self.size, *settings).0,
            r.indices@ == assembled(self.paths@, self.size, *settings).1,
            r.wf(),
            r.indices@.len() % 3 == 0,
    {
        generate_buffer(self, fill_tess, stroke_tess, settings)
    }
}

proof fn lemma_back_indices_len(idx: Seq<u32>, n: u32, t: nat)
    ensures
        back_indices(idx, n, t).len() == 3 * t,
    decreases t,
{
    if t > 0 {
        lemma_back_indices_len(idx, n, (t - 1) as nat);
    }
}

proof fn lemma_back_indices_at(idx: Seq<u32>, n: u32, t: nat, u: int)
    requires
        0 <= u < t,
    ensures
        back_indices(idx, n, t).len() == 3 * t,
        back_indices(idx, n, t)[3 * u] == ((idx[3 * u + 2] + n) as u32),
        back_indices(idx, n, t)[3 * u + 1] == ((idx[3 * u + 1] + n) as u32),
        back_indices(idx, n, t)[3 * u + 2] == ((idx[3 * u] + n) as u32),
    decreases t,
{
    lemma_back_indices_len(idx, n, t);
    lemma_back_indices_len(idx, n, (t - 1) as nat);
    if u < t - 1 {
        lemma_back_indices_at(idx, n, (t - 1) as nat, u);
    }
}

/// Law: in an extruded mesh, every front-face triangle's index order is
/// preserved, and the corresponding back-face triangle (the same triangle
/// moved to the back-face copy of the vertices) has its index order exactly
/// reversed.
pub proof fn lemma_winding_consistency(idx: Seq<u32>, n: u32, t: int)
    requires
        idx.len() % 3 == 0,
        0 <= t < idx.len() / 3,
    ensures
        extruded_indices(idx, n)[3 * t] == idx[3 * t],
        extruded_indices(idx, n)[3 * t + 1] == idx[3 * t + 1],
        extruded_indices(idx, n)[3 * t + 2] == idx[3 * t + 2],
        extruded_indices(idx, n)[idx.len() + 3 * t] == ((idx[3 * t + 2] + n) as u32),
        extruded_indices(idx, n)[idx.len() + 3 * t + 1] == ((idx[3 * t + 1] + n) as u32),
        extruded_indices(idx, n)[idx.len() + 3 * t + 2] == ((idx[3 * t] + n) as u32),
{
    assert(3 * (idx.len() / 3) == idx.len());
    lemma_back_indices_at(idx, n, (idx.len() / 3) as nat, t);
}

/// Law: extruding a single closed filled triangle with three distinct
/// corners produces a side wall for each of its three edges and nothing
/// more: the extruded index list is the front triangle, the reversed back
/// triangle, and exactly three walls (six side triangles) — 24 indices in
/// all.
pub proof fn lemma_single_triangle_side_walls(a: u32, b: u32, c: u32, n: u32)
    requires
        a != b,
        b != c,
        a != c,
    ensures
        ({
            let idx = seq![a, b, c];
            &&& is_boundary_edge(idx, 0)
            &&& is_boundary_edge(idx, 1)
            &&& is_boundary_edge(idx, 2)
            &&& side_wall_indices(idx, n, 3) == wall_of(idx, n, 0) + wall_of(idx, n, 1) + wall_of(
                idx,
                n,
                2,
            )
            &&& extruded_indices(idx, n).len() == 24
        }),
{
    let idx = seq![a, b, c];
    assert(edge_of(idx, 0) == (a, b));
    assert(edge_of(idx, 1) == (b, c));
    assert(edge_of(idx, 2) == (c, a));
    assert forall|k: int| 0 <= k < idx.len() && k != 0 implies (#[trigger] edge_of(idx, k))
        != edge_of(idx, 0) && edge_of(idx, k) != (edge_of(idx, 0).1, edge_of(idx, 0).0) by {
        assert(k == 1 || k == 2);
    }
    assert forall|k: int| 0 <= k < idx.len() && k != 1 implies (#[trigger] edge_of(idx, k))
        != edge_of(idx, 1) && edge_of(idx, k) != (edge_of(idx, 1).1, edge_of(idx, 1).0) by {
        assert(k == 0 || k == 2);
    }
    assert forall|k: int| 0 <= k < idx.len() && k != 2 implies (#[trigger] edge_of(idx, k))
        != edge_of(idx, 2) && edge_of(idx, k) != (edge_of(idx, 2).1, edge_of(idx, 2).0) by {
        assert(k == 0 || k == 1);
    }
    assert(side_wall_indices(idx, n, 1) == side_wall_indices(idx, n, 0) + wall_of(idx, n, 0));
    assert(side_wall_indices(idx, n, 2) == side_wall_indices(idx, n, 1) + wall_of(idx, n, 1));
    assert(side_wall_indices(idx, n, 3) == side_wall_indices(idx, n, 2) + wall_of(idx, n, 2));
    assert(side_wall_indices(idx, n, 0) + wall_of(idx, n, 0) =~= wall_of(idx, n, 0));
    lemma_back_indices_len(idx, n, 1);
}

/// Law: extruding two filled triangles that share one edge produces walls
/// only for the four silhouette edges — the shared edge and its reverse get
/// none — so the extruded index list holds exactly four walls (eight side
/// triangles): 6 front, 6 back and 24 side indices.
pub proof fn lemma_quad_side_walls(a: u32, b: u32, c: u32, d: u32, n: u32)
    requires
        a != b,
        a != c,
        a != d,
        b != c,
        b != d,
        c != d,
    ensures
        ({
            let idx = seq![a, b, c, c, b, d];
            &&& is_boundary_edge(idx, 0)
            &&& !is_boundary_edge(idx, 1)
            &&& is_boundary_edge(idx, 2)
            &&& !is_boundary_edge(idx, 3)
            &&& is_boundary_edge(idx, 4)
            &&& is_boundary_edge(idx, 5)
            &&& side_wall_indices(idx, n, 6) == wall_of(idx, n, 0) + wall_of(idx, n, 2) + wall_of(
                idx,
                n,
                4,
            ) + wall_of(idx, n, 5)
            &&& extruded_indices(idx, n).len() == 36
        }),
{
    let idx = seq![a, b, c, c, b, d];
    assert(edge_of(idx, 0) == (a, b));
    assert(edge_of(idx, 1) == (b, c));
    assert(edge_of(idx, 2) == (c, a));
    assert(edge_of(idx, 3) == (c, b));
    assert(edge_of(idx, 4) == (b, d));
    assert(edge_of(idx, 5) == (d, c));
    assert(edge_of(idx, 3) == (edge_of(idx, 1).1, edge_of(idx, 1).0));
    assert(!is_boundary_edge(idx, 1));
    assert(!is_boundary_edge(idx, 3));
    assert forall|k: int| 0 <= k < idx.len() && k != 0 implies (#[trigger] edge_of(idx, k))
        != edge_of(idx, 0) && edge_of(idx, k) != (edge_of(idx, 0).1, edge_of(idx, 0).0) by {
        assert(k == 1 || k == 2 || k == 3 || k == 4 || k == 5);
    }
    assert forall|k: int| 0 <= k < idx.len() && k != 2 implies (#[trigger] edge_of(idx, k))
        != edge_of(idx, 2) && edge_of(idx, k) != (edge_of(idx, 2).1, edge_of(idx, 2).0) by {
        assert(k == 0 || k == 1 || k == 3 || k == 4 || k == 5);
    }
    assert forall|k: int| 0 <= k < idx.len() && k != 4 implies (#[trigger] edge_of(idx, k))
        != edge_of(idx, 4) && edge_of(idx, k) != (edge_of(idx, 4).1, edge_of(idx, 4).0) by {
        assert(k == 0 || k == 1 || k == 2 || k == 3 || k == 5);
    }
    assert forall|k: int| 0 <= k < idx.len() && k != 5 implies (#[trigger] edge_of(idx, k))
        != edge_of(idx, 5) && edge_of(idx, k) != (edge_of(idx, 5).1, edge_of(idx, 5).0) by {
        assert(k == 0 || k == 1 || k == 2 || k == 3 || k == 4);
    }
    assert(side_wall_indices(idx, n, 1) == side_wall_indices(idx, n, 0) + wall_of(idx, n, 0));
    assert(side_wall_indices(idx, n, 2) == side_wall_indices(idx, n, 1));
    assert(side_wall_indices(idx, n, 3) == side_wall_indices(idx, n, 2) + wall_of(idx, n, 2));
    assert(side_wall_indices(idx, n, 4) == side_wall_indices(idx, n, 3));
    assert(side_wall_indices(idx, n, 5) == side_wall_indices(idx, n, 4) + wall_of(idx, n, 4));
    assert(side_wall_indices(idx, n, 6) == side_wall_indices(idx, n, 5) + wall_of(idx, n, 5));
    assert(side_wall_indices(idx, n, 0) + wall_of(idx, n, 0) =~= wall_of(idx, n, 0));
    lemma_back_indices_len(idx, n, 2);
}

/// Law: a triangulation failure is isolated to its own path.  For a
/// three-path document whose middle path fails to triangulate, the
/// assembled buffer is exactly the first path's contribution followed by
/// the third's, and the middle path contributes nothing.
pub proof fn lemma_partial_failure_isolation(
    first: PathDescriptor,
    failing: PathDescriptor,
    third: PathDescriptor,
    doc_size: Vec2Bits,
    s: SvgMesh3d,
)
    requires
        local_tess_of(failing, s) is None,
        path_contribution(first, doc_size, s).0.len() + path_contribution(third, doc_size, s).0.len()
            <= u32::MAX,
    ensures
        path_contribution(failing, doc_size, s) == (Seq::<Vertex>::empty(), Seq::<u32>::empty()),
        assembled(seq![first, failing, third], doc_size, s).0 == path_contribution(
            first,
            doc_size,
            s,
        ).0 + path_contribution(third, doc_size, s).0,
        assembled(seq![first, failing, third], doc_size, s).1 == path_contribution(
            first,
            doc_size,
            s,
        ).1 + shifted_indices(
            path_contribution(third, doc_size, s).1,
            path_contribution(first, doc_size, s).0.len() as u32,
        ),
{
    reveal_with_fuel(assembled, 5);
    let paths = seq![first, failing, third];
    let c1 = path_contribution(first, doc_size, s);
    let c2 = path_contribution(failing, doc_size, s);
    let c3 = path_contribution(third, doc_size, s);
    assert(c2 == (Seq::<Vertex>::empty(), Seq::<u32>::empty()));
    assert(paths.drop_last() =~= seq![first, failing]);
    assert(seq![first, failing].drop_last() =~= seq![first]);
    assert(seq![first].drop_last() =~= Seq::<PathDescriptor>::empty());
    assert(seq![first].last() == first);
    assert(seq![first, failing].last() == failing);
    assert(paths.last() == third);
    let a1 = assembled(seq![first], doc_size, s);
    assert(c1.0.len() <= u32::MAX);
    assert(a1.0 =~= c1.0 && a1.1 =~= c1.1) by {
        assert(Seq::<Vertex>::empty() + c1.0 =~= c1.0);
        assert(shifted_indices(c1.1, 0).len() == c1.1.len());
        assert forall|i: int| 0 <= i < c1.1.len() implies shifted_indices(c1.1, 0)[i] == c1.1[i]
        by {
            assert(shifted_indices(c1.1, 0)[i] == ((c1.1[i] + 0) as u32));
        }
        assert(shifted_indices(c1.1, 0) =~= c1.1);
        assert(Seq::<u32>::empty() + shifted_indices(c1.1, 0) =~= c1.1);
    }
    let a2 = assembled(seq![first, failing], doc_size, s);
    assert(a2.0 =~= c1.0 && a2.1 =~= c1.1) by {
        assert(a1.0 + c2.0 =~= a1.0);
        assert(shifted_indices(c2.1, a1.0.len() as u32) =~= Seq::<u32>::empty());
        assert(a1.1 + shifted_indices(c2.1, a1.0.len() as u32) =~= a1.1);
    }
    assert(assembled(paths, doc_size, s).0 == a2.0 + c3.0);
    assert(assembled(paths, doc_size, s).1 == a2.1 + shifted_indices(c3.1, a2.0.len() as u32));
}

/// The extruded buffer of a well-formed front face is well formed: every
/// back-face or side-wall index refers to a front or back vertex.
proof fn lemma_extruded_wf(verts: Seq<Vertex>, idx: Seq<u32>, offset: Vec3Bits, n: u32)
    requires
        buffer_wf(verts, idx),
        idx.len() % 3 == 0,
        n == verts.len(),
        2 * verts.len() <= u32::MAX,
    ensures
        buffer_wf(extruded_vertices(verts, offset), extruded_indices(idx, n)),
        extruded_indices(idx, n).len() % 3 == 0,
{
    assert(extruded_vertices(verts, offset).len() == 2 * verts.len());
    lemma_back_indices_wf(verts, idx, n, idx.len() / 3);
    lemma_side_walls_wf(verts, idx, n, idx.len());
    assert(3 * (idx.len() / 3) == idx.len());
    assert forall|i: int|
        0 <= i < extruded_indices(idx, n).len() implies (#[trigger] extruded_indices(idx, n)[i])
        < 2 * verts.len() by {
        let back = back_indices(idx, n, idx.len() / 3);
        let walls = side_wall_indices(idx, n, idx.len());
        if i < idx.len() {
            assert(extruded_indices(idx, n)[i] == idx[i]);
        } else if i < idx.len() + back.len() {
            assert(extruded_indices(idx, n)[i] == back[i - idx.len()]);
        } else {
            assert(extruded_indices(idx, n)[i] == walls[i - idx.len() - back.len()]);
        }
    }
}

/// Every back-face index is a front index moved up by the vertex count.
proof fn lemma_back_indices_wf(verts: Seq<Vertex>, idx: Seq<u32>, n: u32, t: nat)
    requires
        buffer_wf(verts, idx),
        n == verts.len(),
        2 * verts.len() <= u32::MAX,
        3 * t <= idx.len(),
    ensures
        back_indices(idx, n, t).len() == 3 * t,
        forall|i: int|
            0 <= i < 3 * t ==> n <= (#[trigger] back_indices(idx, n, t)[i]) < 2 * verts.len(),
    decreases t,
{
    if t > 0 {
        lemma_back_indices_wf(verts, idx, n, (t - 1) as nat);
    }
}

/// Every side-wall index refers to a front vertex or its back copy.
proof fn lemma_side_walls_wf(verts: Seq<Vertex>, idx: Seq<u32>, n: u32, j: nat)
    requires
        buffer_wf(verts, idx),
        idx.len() % 3 == 0,
        n == verts.len(),
        2 * verts.len() <= u32::MAX,
        j <= idx.len(),
    ensures
        side_wall_indices(idx, n, j).len() % 3 == 0,
        forall|i: int|
            0 <= i < side_wall_indices(idx, n, j).len() ==> (#[trigger] side_wall_indices(
                idx,
                n,
                j,
            )[i]) < 2 * verts.len(),
    decreases j,
{
    if j > 0 {
        lemma_side_walls_wf(verts, idx, n, (j - 1) as nat);
        if is_boundary_edge(idx, j - 1) {
            let m = (j - 1) as int;
            let l = idx.len() as int;
            assert(3 * (m / 3) + ((m % 3) + 1) % 3 < l) by (nonlinear_arith)
                requires
                    0 <= m < l,
                    l % 3 == 0,
            ;
        }
    }
}

} // verus!
