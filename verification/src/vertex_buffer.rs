//! Flat triangle-mesh buffers: vertices with packed colors, and triples of
//! indices forming front-facing triangles under a fixed winding convention.

use vstd::prelude::*;

use crate::math::Vec3Bits;

verus! {

/// One mesh vertex: a position (three IEEE-754 bit patterns) and a packed
/// color.
#[derive(Clone, Copy, Debug, PartialEq, Eq, Structural, Hash)]
pub struct Vertex {
    /// Position of the vertex.
    pub position: Vec3Bits,
    /// Packed color of the vertex.
    pub color: u32,
}

/// An ordered sequence of vertices plus an ordered sequence of triangle
/// indices; each consecutive triple of indices forms one front-facing
/// triangle.
#[derive(Clone, Debug)]
pub struct VertexBuffers {
    /// The vertices of the mesh.
    pub vertices: Vec<Vertex>,
    /// The triangle indices, in triples.
    pub indices: Vec<u32>,
}

/// A buffer is well formed when every index refers to one of its vertices
/// (which also keeps every index value far below the index type's maximum
/// whenever the vertex count is bounded).
pub open spec fn buffer_wf(vertices: Seq<Vertex>, indices: Seq<u32>) -> bool {
    &&& vertices.len() <= u32::MAX
    &&& forall|i: int| 0 <= i < indices.len() ==> (#[trigger] indices[i]) < vertices.len()
}

/// The index sequence of a merged buffer: every index moved up by the
/// number of vertices that preceded it.
pub open spec fn shifted_indices(indices: Seq<u32>, base: u32) -> Seq<u32> {
    indices.map_values(|i: u32| (i + base) as u32)
}

impl VertexBuffers {
    /// Whether every index of the buffer refers to one of its vertices.
    pub open spec fn wf(&self) -> bool {
        buffer_wf(self.vertices@, self.indices@)
    }

    /// An empty buffer.
    pub fn new() -> (r: Self)
        ensures
            r.vertices@ =~= Seq::<Vertex>::empty(),
            r.indices@ =~= Seq::<u32>::empty(),
            r.wf(),
    {
        VertexBuffers { vertices: Vec::new(), indices: Vec::new() }
    }

    /// Appends another buffer's geometry, offsetting its indices by the
    /// number of vertices already present so that they keep referring to
    /// the vertices they came with.
    pub fn extend_one(&mut self, other: &VertexBuffers)
        requires
            old(self).wf(),
            other.wf(),
            old(self).vertices@.len() + other.vertices@.len() <= u32::MAX,
        ensures
            final(self).vertices@ == old(self).vertices@ + other.vertices@,
            final(self).indices@ == old(self).indices@ + shifted_indices(
                other.indices@,
                old(self).vertices@.len() as u32,
            ),
            final(self).wf(),
    {
        let base: u32 = self.vertices.len() as u32;
        let mut vi: usize = 0;
        while vi < other.vertices.len()
            invariant
                0 <= vi <= other.vertices@.len(),
                self.vertices@ == old(self).vertices@ + other.vertices@.subrange(0, vi as int),
                self.indices@ == old(self).indices@,
                old(self).wf(),
                other.wf(),
                old(self).vertices@.len() + other.vertices@.len() <= u32::MAX,
                base == old(self).vertices@.len(),
            decreases other.vertices@.len() - vi,
        {
            self.vertices.push(other.vertices[vi]);
            vi = vi + 1;
            proof {
                assert(self.vertices@ =~= old(self).vertices@ + other.vertices@.subrange(
                    0,
                    vi as int,
                ));
            }
        }
        proof {
            assert(self.vertices@ =~= old(self).vertices@ + other.vertices@);
        }
        let mut ii: usize = 0;
        while ii < other.indices.len()
            invariant
                0 <= ii <= other.indices@.len(),
                self.vertices@ == old(self).vertices@ + other.vertices@,
                self.indices@ == old(self).indices@ + shifted_indices(
                    other.indices@.subrange(0, ii as int),
                    base,
                ),
                old(self).wf(),
                other.wf(),
                old(self).vertices@.len() + other.vertices@.len() <= u32::MAX,
                base == old(self).vertices@.len(),
            decreases other.indices@.len() - ii,
        {
            let idx = other.indices[ii];
            assert(idx < other.vertices@.len());
            self.indices.push(idx + base);
            ii = ii + 1;
            proof {
                assert(shifted_indices(other.indices@.subrange(0, ii as int), base)
                    =~= shifted_indices(other.indices@.subrange(0, ii - 1), base).push(
                    (other.indices@[ii - 1] + base) as u32,
                ));
                assert(self.indices@ =~= old(self).indices@ + shifted_indices(
                    other.indices@.subrange(0, ii as int),
                    base,
                ));
            }
        }
        proof {
            assert(other.indices@.subrange(0, other.indices@.len() as int) =~= other.indices@);
            assert(forall|i: int|
                0 <= i < self.indices@.len() ==> (#[trigger] self.indices@[i])
                    < self.vertices@.len()) by {
                assert(forall|i: int|
                    0 <= i < shifted_indices(other.indices@, base).len() ==> #[trigger] shifted_indices(
                        other.indices@,
                        base,
                    )[i] == other.indices@[i] + base);
            }
        }
    }
}

} // verus!
