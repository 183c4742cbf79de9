//! The mesh cache: one generated buffer per (document identity, settings
//! key) pair.
//!
//! A request reserves an entry with a fresh handle on its first arrival and
//! finds the same handle on every later arrival, so consumers asking for the
//! same visual result share one buffer and tessellation runs at most once
//! per key.  A "document changed" notification regenerates every entry of
//! that document from the settings recovered from its key; a "document
//! removed" notification drops the document's entries, and later requests
//! start over with fresh handles.
//!
//! The cache is the engine's only mutable state.  It is owned by the caller
//! and passed into these entry points explicitly; the engine expects them to
//! be driven from one scheduling thread.

use vstd::prelude::*;

use crate::resources::{key_of_mesh3d, mesh3d_of_key, SvgMeshKey};
use crate::settings::SvgMesh3d;
use crate::svg::{PathDescriptor, Svg};
use crate::tessellation::{assembled, generate_buffer};
use crate::math::Vec2Bits;
use crate::vertex_buffer::{Vertex, VertexBuffers};

verus! {

/// One cache entry: the document it belongs to, the canonical settings key,
/// the handle consumers hold, and the generated buffer once the document's
/// data has been available (`None` while the entry is only reserved).
pub struct CacheEntry {
    /// Identity of the source document.
    pub doc: u128,
    /// Canonical settings key.
    pub key: SvgMeshKey,
    /// The handle handed to every consumer of this entry.
    pub handle: u64,
    /// The generated buffer; `None` while the entry is pending.
    pub mesh: Option<VertexBuffers>,
}

impl CacheEntry {
    /// The pair the cache is keyed by.
    pub open spec fn cache_key(&self) -> (u128, SvgMeshKey) {
        (self.doc, self.key)
    }
}

/// No two entries share a (document, key) pair.
pub open spec fn unique_keys(s: Seq<CacheEntry>) -> bool {
    forall|i: int, j: int|
        0 <= i < j < s.len() ==> (#[trigger] s[i].cache_key()) != (#[trigger] s[j].cache_key())
}

/// No two entries share a handle.
pub open spec fn distinct_handles(s: Seq<CacheEntry>) -> bool {
    forall|i: int, j: int|
        0 <= i < j < s.len() ==> (#[trigger] s[i].handle) != (#[trigger] s[j].handle)
}

/// The map a sequence of entries stands for.
pub open spec fn seq_map(s: Seq<CacheEntry>) -> Map<(u128, SvgMeshKey), CacheEntry>
    decreases s.len(),
{
    if s.len() == 0 {
        Map::empty()
    } else {
        seq_map(s.drop_last()).insert(s.last().cache_key(), s.last())
    }
}

/// Every handle the map knows is below the bound (so a handle equal to the
/// bound is fresh).
pub open spec fn handles_below(m: Map<(u128, SvgMeshKey), CacheEntry>, b: u64) -> bool {
    forall|k: (u128, SvgMeshKey)| #[trigger] m.contains_key(k) ==> m[k].handle < b
}

/// An entry holds a populated buffer with exactly these vertices and
/// indices.
pub open spec fn mesh_views_eq(e: CacheEntry, vs: Seq<Vertex>, is_: Seq<u32>) -> bool {
    &&& e.mesh is Some
    &&& e.mesh.unwrap().vertices@ == vs
    &&& e.mesh.unwrap().indices@ == is_
}

/// How one `get_or_create` call changes the cache: on a hit nothing moves
/// and the stored handle comes back; on a miss a pending entry is inserted
/// under a handle at the old freshness bound, and the bound grows.
pub open spec fn get_or_create_post(
    m0: Map<(u128, SvgMeshKey), CacheEntry>,
    b0: u64,
    m1: Map<(u128, SvgMeshKey), CacheEntry>,
    b1: u64,
    h: u64,
    doc: u128,
    s: SvgMesh3d,
) -> bool {
    let k = (doc, key_of_mesh3d(s));
    if m0.contains_key(k) {
        &&& h == m0[k].handle
        &&& m1 == m0
        &&& b1 == b0
    } else {
        &&& h == b0
        &&& b1 == b0 + 1
        &&& m1 == m0.insert(
            k,
            CacheEntry { doc, key: key_of_mesh3d(s), handle: h, mesh: None },
        )
    }
}

/// How one request (a `get_or_create` plus, when the document's data is at
/// hand, one generation) changes the cache.  `svg_data` carries the
/// document's paths and intrinsic size when it was available.
pub open spec fn request_post(
    m0: Map<(u128, SvgMeshKey), CacheEntry>,
    b0: u64,
    m1: Map<(u128, SvgMeshKey), CacheEntry>,
    b1: u64,
    h: u64,
    doc: u128,
    s: SvgMesh3d,
    svg_data: Option<(Seq<PathDescriptor>, Vec2Bits)>,
) -> bool {
    let k = (doc, key_of_mesh3d(s));
    &&& if m0.contains_key(k) {
        h == m0[k].handle && b1 == b0
    } else {
        h == b0 && b1 == b0 + 1
    }
    &&& forall|k2: (u128, SvgMeshKey)|
        k2 != k ==> (#[trigger] m1.contains_key(k2) <==> m0.contains_key(k2))
    &&& forall|k2: (u128, SvgMeshKey)|
        k2 != k && #[trigger] m0.contains_key(k2) ==> m1[k2] == m0[k2]
    &&& m1.contains_key(k)
    &&& m1[k].doc == doc
    &&& m1[k].key == key_of_mesh3d(s)
    &&& m1[k].handle == h
    &&& match svg_data {
        Some(d) => mesh_views_eq(m1[k], assembled(d.0, d.1, s).0, assembled(d.0, d.1, s).1),
        None => if m0.contains_key(k) {
            m1[k] == m0[k]
        } else {
            m1[k].mesh is None
        },
    }
}

/// How a "document changed" notification changes the cache: no entry comes
/// or goes, handles stay, and every entry of the changed document holds the
/// buffer regenerated from the settings its key encodes.
pub open spec fn regenerate_post(
    m0: Map<(u128, SvgMeshKey), CacheEntry>,
    m1: Map<(u128, SvgMeshKey), CacheEntry>,
    doc: u128,
    paths: Seq<PathDescriptor>,
    size: Vec2Bits,
) -> bool {
    &&& forall|k: (u128, SvgMeshKey)|
        #[trigger] m1.contains_key(k) <==> m0.contains_key(k)
    &&& forall|k: (u128, SvgMeshKey)| #[trigger] m0.contains_key(k) ==> {
        &&& m1[k].doc == m0[k].doc
        &&& m1[k].key == m0[k].key
        &&& m1[k].handle == m0[k].handle
        &&& if k.0 == doc {
            mesh_views_eq(
                m1[k],
                assembled(paths, size, mesh3d_of_key(k.1)).0,
                assembled(paths, size, mesh3d_of_key(k.1)).1,
            )
        } else {
            m1[k] == m0[k]
        }
    }
}

/// How a "document removed" notification changes the cache: exactly the
/// document's entries disappear, everything else stays as it was.
pub open spec fn remove_post(
    m0: Map<(u128, SvgMeshKey), CacheEntry>,
    m1: Map<(u128, SvgMeshKey), CacheEntry>,
    doc: u128,
) -> bool {
    &&& forall|k: (u128, SvgMeshKey)|
        #[trigger] m1.contains_key(k) <==> m0.contains_key(k) && k.0 != doc
    &&& forall|k: (u128, SvgMeshKey)| #[trigger] m1.contains_key(k) ==> m1[k] == m0[k]
}

/// The mesh cache: (document identity, canonical settings key) to entry.
pub struct SvgMeshCache {
    entries: Vec<CacheEntry>,
    next_handle: u64,
}

impl View for SvgMeshCache {
    type V = Map<(u128, SvgMeshKey), CacheEntry>;

    closed spec fn view(&self) -> Map<(u128, SvgMeshKey), CacheEntry> {
        seq_map(self.entries@)
    }
}

impl SvgMeshCache {
    /// Handles at or above this bound have never been handed out.
    pub closed spec fn fresh_bound(&self) -> u64 {
        self.next_handle
    }

    /// The cache's internal invariant: entry keys are pairwise distinct,
    /// handles are pairwise distinct, and every handle is below the
    /// freshness bound.
    pub closed spec fn wf(&self) -> bool {
        &&& unique_keys(self.entries@)
        &&& distinct_handles(self.entries@)
        &&& forall|i: int|
            0 <= i < self.entries@.len() ==> (#[trigger] self.entries@[i]).handle
                < self.next_handle
    }

    /// An empty cache.
    pub fn new() -> (r: Self)
        ensures
            r.wf(),
            r@ == Map::<(u128, SvgMeshKey), CacheEntry>::empty(),
            r.fresh_bound() == 0,
            handles_below(r@, r.fresh_bound()),
    {
        SvgMeshCache { entries: Vec::new(), next_handle: 0 }
    }

    /// The index of the entry for (doc, key), if the cache holds one.
    fn find_entry(&self, doc: u128, key: &SvgMeshKey) -> (r: Option<usize>)
        ensures
            match r {
                Some(i) => {
                    &&& i < self.entries@.len()
                    &&& self.entries@[i as int].doc == doc
                    &&& self.entries@[i as int].key == *key
                },
                None => forall|j: int|
                    0 <= j < self.entries@.len() ==> (#[trigger] self.entries@[j].cache_key())
                        != (doc, *key),
            },
    {
        let mut i: usize = 0;
        while i < self.entries.len()
            invariant
                0 <= i <= self.entries@.len(),
                forall|j: int|
                    0 <= j < i ==> (#[trigger] self.entries@[j].cache_key()) != (doc, *key),
            decreases self.entries@.len() - i,
        {
            if self.entries[i].doc == doc && self.entries[i].key == *key {
                return Some(i);
            }
            i = i + 1;
        }
        None
    }

    /// Looks up the entry for a document and key without changing anything.
    pub fn lookup(&self, doc: u128, key: &SvgMeshKey) -> (r: Option<&CacheEntry>)
        requires
            self.wf(),
        ensures
            match r {
                Some(e) => self@.contains_key((doc, *key)) && *e == self@[(doc, *key)],
                None => !self@.contains_key((doc, *key)),
            },
    {
        proof {
            lemma_seq_map_complete(self.entries@);
        }
        match self.find_entry(doc, key) {
            Some(i) => {
                proof {
                    assert(self.entries@[i as int].cache_key() == (doc, *key));
                }
                Some(&self.entries[i])
            },
            None => {
                proof {
                    if self@.contains_key((doc, *key)) {
                        let j = choose|j: int|
                            0 <= j < self.entries@.len() && (#[trigger] self.entries@[
                                j
                            ].cache_key()) == (doc, *key);
                    }
                }
                None
            },
        }
    }

    /// Returns the handle for (doc, settings), reserving a pending entry
    /// under a fresh handle when none exists yet.
    pub fn get_or_create(&mut self, doc: u128, settings: &SvgMesh3d) -> (h: u64)
        requires
            old(self).wf(),
            old(self).fresh_bound() < u64::MAX,
        ensures
            final(self).wf(),
            handles_below(final(self)@, final(self).fresh_bound()),
            old(self).fresh_bound() <= final(self).fresh_bound(),
            get_or_create_post(
                old(self)@,
                old(self).fresh_bound(),
                final(self)@,
                final(self).fresh_bound(),
                h,
                doc,
                *settings,
            ),
    {
        proof {
            lemma_seq_map_complete(self.entries@);
            lemma_handles_below(*self);
        }
        let key = SvgMeshKey::from(*settings);
        proof {
            assert(key == key_of_mesh3d(*settings));
        }
        match self.find_entry(doc, &key) {
            Some(i) => {
                proof {
                    assert(self.entries@[i as int].cache_key() == (doc, key));
                    assert(old(self)@[(doc, key)] == self.entries@[i as int]);
                }
                self.entries[i].handle
            },
            None => {
                proof {
                    if old(self)@.contains_key((doc, key)) {
                        let j = choose|j: int|
                            0 <= j < self.entries@.len() && (#[trigger] self.entries@[
                                j
                            ].cache_key()) == (doc, key);
                    }
                }
                let h = self.next_handle;
                self.next_handle = self.next_handle + 1;
                self.entries.push(CacheEntry { doc, key, handle: h, mesh: None });
                proof {
                    assert(self.entries@.drop_last() =~= old(self).entries@);
                    assert(self.entries@.last() == (CacheEntry {
                        doc,
                        key,
                        handle: h,
                        mesh: None,
                    }));
                    assert(self@ == old(self)@.insert(
                        (doc, key),
                        CacheEntry { doc, key, handle: h, mesh: None },
                    ));
                    // The new entry's key is absent and its handle is fresh,
                    // so both uniqueness invariants carry over.
                    assert forall|a: int, b: int| 0 <= a < b < self.entries@.len() implies (
                    #[trigger] self.entries@[a].cache_key()) != (#[trigger] self.entries@[
                        b
                    ].cache_key()) && self.entries@[a].handle != self.entries@[b].handle by {
                        if b < self.entries@.len() - 1 {
                            assert(old(self).entries@[a].cache_key() != old(self).entries@[
                                b
                            ].cache_key());
                            assert(old(self).entries@[a].handle != old(self).entries@[b].handle);
                        } else {
                            assert(old(self).entries@[a].cache_key() != (doc, key));
                            assert(old(self).entries@[a].handle < h);
                        }
                    }
                    lemma_seq_map_complete(self.entries@);
                    lemma_handles_below(*self);
                }
                h
            },
        }
    }

    /// Resolves one consumer request: returns the shared handle for
    /// (doc, settings), reserving a fresh entry when none exists, and — when
    /// the document's data is at hand — (re)generates the entry's buffer.
    /// When the document is not available yet the entry stays pending and
    /// whatever it held is retained.
    pub fn process_request(
        &mut self,
        doc: u128,
        settings: &SvgMesh3d,
        svg: Option<&Svg>,
        fill_tess: &mut lyon_tessellation::FillTessellator,
        stroke_tess: &mut lyon_tessellation::StrokeTessellator,
    ) -> (h: u64)
        requires
            old(self).wf(),
            old(self).fresh_bound() < u64::MAX,
        ensures
            final(self).wf(),
            handles_below(final(self)@, final(self).fresh_bound()),
            old(self).fresh_bound() <= final(self).fresh_bound(),
            request_post(
                old(self)@,
                old(self).fresh_bound(),
                final(self)@,
                final(self).fresh_bound(),
                h,
                doc,
                *settings,
                match svg {
                    Some(d) => Some((d.paths@, d.size)),
                    None => None,
                },
            ),
    {
        proof {
            lemma_seq_map_complete(self.entries@);
        }
        let h = self.get_or_create(doc, settings);
        let ghost mid = *self;
        if let Some(svg_doc) = svg {
            let buf = generate_buffer(svg_doc, fill_tess, stroke_tess, settings);
            let key = SvgMeshKey::from(*settings);
            proof {
                lemma_seq_map_complete(self.entries@);
            }
            match self.find_entry(doc, &key) {
                Some(i) => {
                    let entry_doc = self.entries[i].doc;
                    let entry_key = self.entries[i].key;
                    let entry_handle = self.entries[i].handle;
                    self.entries[i] = CacheEntry {
                        doc: entry_doc,
                        key: entry_key,
                        handle: entry_handle,
                        mesh: Some(buf),
                    };
                    proof {
                        let k = (doc, key_of_mesh3d(*settings));
                        let e = CacheEntry {
                            doc: entry_doc,
                            key: entry_key,
                            handle: entry_handle,
                            mesh: Some(buf),
                        };
                        lemma_seq_map_complete(mid.entries@);
                        assert(mid.entries@[i as int].cache_key() == k);
                        assert(e.cache_key() == k);
                        assert(mid@[k] == mid.entries@[i as int]);
                        assert(entry_handle == mid@[k].handle);
                        assert(entry_handle == h);
                        assert(self.entries@ == mid.entries@.update(i as int, e));
                        lemma_seq_map_update(mid.entries@, i as int);
                        assert(self@ == mid@.insert(k, e));
                        // The handle at the updated slot is unchanged, so
                        // handle distinctness carries over.
                        assert forall|a: int, b: int| 0 <= a < b < self.entries@.len() implies (
                        #[trigger] self.entries@[a].handle) != (#[trigger] self.entries@[
                            b
                        ].handle) by {
                            assert(mid.entries@[a].handle != mid.entries@[b].handle);
                            assert(self.entries@[a].handle == mid.entries@[a].handle);
                            assert(self.entries@[b].handle == mid.entries@[b].handle);
                        }
                        assert forall|a: int| 0 <= a < self.entries@.len() implies (
                        #[trigger] self.entries@[a]).handle < self.next_handle by {
                            assert(mid.entries@[a].handle < mid.next_handle);
                        }
                        lemma_handles_below(*self);
                    }
                },
                None => {
                    proof {
                        lemma_seq_map_complete(self.entries@);
                        assert(self@.contains_key((doc, key_of_mesh3d(*settings))));
                        assert(false);
                    }
                },
            }
        }
        h
    }

    /// How many handles have been handed out so far (the freshness bound):
    /// lets an unverified caller check that the next reservation cannot
    /// exhaust the handle space.
    pub fn handle_count(&self) -> (r: u64)
        ensures
            r == self.fresh_bound(),
    {
        self.next_handle
    }

    /// The key and handle of every entry of one document, for the host to
    /// walk when it mirrors a change notification into its own mesh store.
    pub fn document_entries(&self, doc: u128) -> (r: Vec<(SvgMeshKey, u64)>)
        requires
            self.wf(),
        ensures
            forall|i: int|
                0 <= i < r@.len() ==> self@.contains_key((doc, (#[trigger] r@[i]).0)) && self@[
                    (doc, r@[i].0)
                ].handle == r@[i].1,
            forall|k: (u128, SvgMeshKey)|
                #[trigger] self@.contains_key(k) && k.0 == doc ==> exists|i: int|
                    0 <= i < r@.len() && (#[trigger] r@[i]).0 == k.1,
    {
        let mut r: Vec<(SvgMeshKey, u64)> = Vec::new();
        let mut j: usize = 0;
        while j < self.entries.len()
            invariant
                0 <= j <= self.entries@.len(),
                r@ == doc_pairs(self.entries@.subrange(0, j as int), doc),
            decreases self.entries@.len() - j,
        {
            proof {
                assert(self.entries@.subrange(0, j + 1).drop_last() =~= self.entries@.subrange(
                    0,
                    j as int,
                ));
                assert(self.entries@.subrange(0, j + 1).last() == self.entries@[j as int]);
            }
            if self.entries[j].doc == doc {
                r.push((self.entries[j].key, self.entries[j].handle));
            }
            j = j + 1;
        }
        proof {
            assert(self.entries@.subrange(0, self.entries@.len() as int) =~= self.entries@);
            lemma_doc_pairs(self.entries@, doc);
        }
        r
    }

    /// Applies a "document changed" notification: every entry of the
    /// document is regenerated from the settings recovered from its key.
    pub fn regenerate_document(
        &mut self,
        doc: u128,
        svg: &Svg,
        fill_tess: &mut lyon_tessellation::FillTessellator,
        stroke_tess: &mut lyon_tessellation::StrokeTessellator,
    )
        requires
            old(self).wf(),
        ensures
            final(self).wf(),
            final(self).fresh_bound() == old(self).fresh_bound(),
            handles_below(final(self)@, final(self).fresh_bound()) <== handles_below(
                old(self)@,
                old(self).fresh_bound(),
            ),
            regenerate_post(old(self)@, final(self)@, doc, svg.paths@, svg.size),
    {
        let mut i: usize = 0;
        while i < self.entries.len()
            invariant
                0 <= i <= self.entries@.len(),
                self.entries@.len() == old(self).entries@.len(),
                self.next_handle == old(self).next_handle,
                forall|j: int|
                    i <= j < self.entries@.len() ==> (#[trigger] self.entries@[j]) == old(
                        self,
                    ).entries@[j],
                forall|j: int| 0 <= j < i ==> {
                    &&& (#[trigger] self.entries@[j]).doc == old(self).entries@[j].doc
                    &&& self.entries@[j].key == old(self).entries@[j].key
                    &&& self.entries@[j].handle == old(self).entries@[j].handle
                    &&& if old(self).entries@[j].doc == doc {
                        mesh_views_eq(
                            self.entries@[j],
                            assembled(
                                svg.paths@,
                                svg.size,
                                mesh3d_of_key(old(self).entries@[j].key),
                            ).0,
                            assembled(
                                svg.paths@,
                                svg.size,
                                mesh3d_of_key(old(self).entries@[j].key),
                            ).1,
                        )
                    } else {
                        self.entries@[j] == old(self).entries@[j]
                    }
                },
                old(self).wf(),
            decreases self.entries@.len() - i,
        {
            if self.entries[i].doc == doc {
                let settings = SvgMesh3d::from(self.entries[i].key);
                let buf = generate_buffer(svg, fill_tess, stroke_tess, &settings);
                let entry_doc = self.entries[i].doc;
                let entry_key = self.entries[i].key;
                let entry_handle = self.entries[i].handle;
                self.entries[i] = CacheEntry {
                    doc: entry_doc,
                    key: entry_key,
                    handle: entry_handle,
                    mesh: Some(buf),
                };
            }
            i = i + 1;
        }
        proof {
            lemma_wf_from_pointwise(*old(self), *self);
            lemma_seq_map_complete(old(self).entries@);
            lemma_seq_map_complete(self.entries@);
            let s0 = old(self).entries@;
            let s1 = self.entries@;
            assert forall|k: (u128, SvgMeshKey)| #[trigger] seq_map(s1).contains_key(k) implies
                seq_map(s0).contains_key(k) by {
                let j = choose|j: int|
                    0 <= j < s1.len() && (#[trigger] s1[j].cache_key()) == k;
                assert(s0[j].cache_key() == k);
            }
            assert forall|k: (u128, SvgMeshKey)| #[trigger] seq_map(s0).contains_key(k) implies
                seq_map(s1).contains_key(k) by {
                let j = choose|j: int|
                    0 <= j < s0.len() && (#[trigger] s0[j].cache_key()) == k;
                assert(s1[j].cache_key() == k);
            }
            assert forall|k: (u128, SvgMeshKey)| #[trigger] seq_map(s0).contains_key(k) implies {
                &&& seq_map(s1)[k].doc == seq_map(s0)[k].doc
                &&& seq_map(s1)[k].key == seq_map(s0)[k].key
                &&& seq_map(s1)[k].handle == seq_map(s0)[k].handle
                &&& if k.0 == doc {
                    mesh_views_eq(
                        seq_map(s1)[k],
                        assembled(svg.paths@, svg.size, mesh3d_of_key(k.1)).0,
                        assembled(svg.paths@, svg.size, mesh3d_of_key(k.1)).1,
                    )
                } else {
                    seq_map(s1)[k] == seq_map(s0)[k]
                }
            } by {
                let j = choose|j: int|
                    0 <= j < s0.len() && (#[trigger] s0[j].cache_key()) == k;
                assert(s1[j].cache_key() == k);
                assert(seq_map(s0)[k] == s0[j]);
                assert(seq_map(s1)[k] == s1[j]);
                assert(k.0 == s0[j].doc);
                assert(k.1 == s0[j].key);
            }
        }
    }

    /// Applies a "document removed" notification: all entries of the
    /// document are dropped; later requests against this identity start
    /// over as cache misses.
    pub fn remove_document(&mut self, doc: u128)
        requires
            old(self).wf(),
        ensures
            final(self).wf(),
            final(self).fresh_bound() == old(self).fresh_bound(),
            handles_below(final(self)@, final(self).fresh_bound()) <== handles_below(
                old(self)@,
                old(self).fresh_bound(),
            ),
            remove_post(old(self)@, final(self)@, doc),
    {
        let ghost orig = self.entries@;
        let ghost mut g: int = 0;
        let mut i: usize = 0;
        while i < self.entries.len()
            invariant
                0 <= g <= orig.len(),
                self.entries@ =~= remove_doc_seq(orig.subrange(0, g), doc) + orig.subrange(
                    g,
                    orig.len() as int,
                ),
                i == remove_doc_seq(orig.subrange(0, g), doc).len(),
                self.next_handle == old(self).next_handle,
                orig == old(self).entries@,
            decreases orig.len() - g,
        {
            proof {
                assert(orig.subrange(0, g + 1).drop_last() =~= orig.subrange(0, g));
                assert(orig.subrange(0, g + 1).last() == orig[g]);
                assert(self.entries@[i as int] == orig[g]);
            }
            if self.entries[i].doc == doc {
                self.entries.remove(i);
                proof {
                    g = g + 1;
                    assert(self.entries@ =~= remove_doc_seq(orig.subrange(0, g), doc)
                        + orig.subrange(g, orig.len() as int));
                }
            } else {
                i = i + 1;
                proof {
                    g = g + 1;
                    assert(self.entries@ =~= remove_doc_seq(orig.subrange(0, g), doc)
                        + orig.subrange(g, orig.len() as int));
                }
            }
        }
        proof {
            assert(g == orig.len());
            assert(orig.subrange(0, orig.len() as int) =~= orig);
            assert(orig.subrange(orig.len() as int, orig.len() as int)
                =~= Seq::<CacheEntry>::empty());
            assert(self.entries@ =~= remove_doc_seq(orig, doc));
            lemma_remove_doc_seq(orig, doc);
            lemma_seq_map_complete(orig);
            lemma_seq_map_complete(self.entries@);
        }
    }
}

/// Law: cache sharing.  Two requests with the same document identity and
/// bit-identical settings return the same handle, and the second one finds
/// the cache exactly as the first left it: generation work is shared, never
/// repeated, for one (document, key) pair.
pub proof fn lemma_cache_sharing(
    m0: Map<(u128, SvgMeshKey), CacheEntry>,
    b0: u64,
    m1: Map<(u128, SvgMeshKey), CacheEntry>,
    b1: u64,
    h1: u64,
    m2: Map<(u128, SvgMeshKey), CacheEntry>,
    b2: u64,
    h2: u64,
    doc: u128,
    s: SvgMesh3d,
)
    requires
        get_or_create_post(m0, b0, m1, b1, h1, doc, s),
        get_or_create_post(m1, b1, m2, b2, h2, doc, s),
    ensures
        h2 == h1,
        m2 == m1,
        b2 == b1,
{
}

/// Law: distinct keys get distinct handles.  In a well-formed cache, two
/// entries whose settings differ in any bit (a different tolerance bit
/// pattern, say) never share a handle.
pub proof fn lemma_distinct_keys_distinct_handles(
    c: &SvgMeshCache,
    k1: (u128, SvgMeshKey),
    k2: (u128, SvgMeshKey),
)
    requires
        c.wf(),
        c@.contains_key(k1),
        c@.contains_key(k2),
        k1 != k2,
    ensures
        c@[k1].handle != c@[k2].handle,
{
    lemma_seq_map_complete(c.entries@);
    let i = choose|i: int| 0 <= i < c.entries@.len() && (#[trigger] c.entries@[i].cache_key()) == k1;
    let j = choose|j: int| 0 <= j < c.entries@.len() && (#[trigger] c.entries@[j].cache_key()) == k2;
    assert(c.entries@[i].handle != c.entries@[j].handle);
}

/// Law: regeneration under unchanged geometry is bit-identical.  After a
/// "document changed" notification, an entry of that document that already
/// held the buffer its key describes holds exactly the same vertex and
/// index bits again.
pub proof fn lemma_regeneration_bit_identical(
    m0: Map<(u128, SvgMeshKey), CacheEntry>,
    m1: Map<(u128, SvgMeshKey), CacheEntry>,
    doc: u128,
    paths: Seq<PathDescriptor>,
    size: Vec2Bits,
    k: (u128, SvgMeshKey),
)
    requires
        regenerate_post(m0, m1, doc, paths, size),
        m0.contains_key(k),
        k.0 == doc,
        mesh_views_eq(
            m0[k],
            assembled(paths, size, mesh3d_of_key(k.1)).0,
            assembled(paths, size, mesh3d_of_key(k.1)).1,
        ),
    ensures
        m1.contains_key(k),
        m1[k].handle == m0[k].handle,
        m1[k].mesh is Some,
        m0[k].mesh is Some,
        m1[k].mesh.unwrap().vertices@ == m0[k].mesh.unwrap().vertices@,
        m1[k].mesh.unwrap().indices@ == m0[k].mesh.unwrap().indices@,
{
}

/// Law: after a "document removed" notification the identity is gone from
/// the cache, and the next request for it is a fresh miss: it reserves a
/// new pending entry under a handle that was never handed out before — in
/// particular not the stale handle the identity had before the removal.
pub proof fn lemma_removal_gives_fresh_entry(
    m0: Map<(u128, SvgMeshKey), CacheEntry>,
    b0: u64,
    m1: Map<(u128, SvgMeshKey), CacheEntry>,
    m2: Map<(u128, SvgMeshKey), CacheEntry>,
    b2: u64,
    h0: u64,
    h2: u64,
    doc: u128,
    s: SvgMesh3d,
)
    requires
        handles_below(m0, b0),
        m0.contains_key((doc, key_of_mesh3d(s))),
        h0 == m0[(doc, key_of_mesh3d(s))].handle,
        remove_post(m0, m1, doc),
        get_or_create_post(m1, b0, m2, b2, h2, doc, s),
    ensures
        !m1.contains_key((doc, key_of_mesh3d(s))),
        h2 == b0,
        h2 != h0,
        m2.contains_key((doc, key_of_mesh3d(s))),
        m2[(doc, key_of_mesh3d(s))].mesh is None,
{
    let k = (doc, key_of_mesh3d(s));
    assert(!m1.contains_key(k));
    assert(h0 < b0);
}

/// The key and handle of each entry of one document, in entry order.
pub open spec fn doc_pairs(s: Seq<CacheEntry>, doc: u128) -> Seq<(SvgMeshKey, u64)>
    decreases s.len(),
{
    if s.len() == 0 {
        Seq::empty()
    } else {
        let r = doc_pairs(s.drop_last(), doc);
        if s.last().doc == doc {
            r.push((s.last().key, s.last().handle))
        } else {
            r
        }
    }
}

/// The document's pairs list exactly the document's entries of the map.
proof fn lemma_doc_pairs(s: Seq<CacheEntry>, doc: u128)
    requires
        unique_keys(s),
    ensures
        forall|i: int|
            0 <= i < doc_pairs(s, doc).len() ==> seq_map(s).contains_key(
                (doc, (#[trigger] doc_pairs(s, doc)[i]).0),
            ) && seq_map(s)[(doc, doc_pairs(s, doc)[i].0)].handle == doc_pairs(s, doc)[i].1,
        forall|k: (u128, SvgMeshKey)|
            #[trigger] seq_map(s).contains_key(k) && k.0 == doc ==> exists|i: int|
                0 <= i < doc_pairs(s, doc).len() && (#[trigger] doc_pairs(s, doc)[i]).0 == k.1,
    decreases s.len(),
{
    if s.len() > 0 {
        lemma_doc_pairs(s.drop_last(), doc);
        lemma_seq_map_complete(s);
        lemma_seq_map_complete(s.drop_last());
        let r = doc_pairs(s, doc);
        let rp = doc_pairs(s.drop_last(), doc);
        assert forall|j: int| 0 <= j < s.len() - 1 implies (#[trigger] s.drop_last()[
            j
        ].cache_key()) != s.last().cache_key() by {
            assert(s[j].cache_key() != s[s.len() - 1].cache_key());
        }
        assert(!seq_map(s.drop_last()).contains_key(s.last().cache_key())) by {
            if seq_map(s.drop_last()).contains_key(s.last().cache_key()) {
                let m = choose|m: int|
                    0 <= m < s.drop_last().len() && (#[trigger] s.drop_last()[m].cache_key())
                        == s.last().cache_key();
            }
        }
        assert forall|i: int| 0 <= i < r.len() implies seq_map(s).contains_key(
            (doc, (#[trigger] r[i]).0),
        ) && seq_map(s)[(doc, r[i].0)].handle == r[i].1 by {
            if s.last().doc == doc && i == r.len() - 1 {
                assert(r[i] == (s.last().key, s.last().handle));
                assert(seq_map(s)[(doc, r[i].0)] == s.last());
            } else {
                assert(r[i] == rp[i]);
                assert(seq_map(s.drop_last()).contains_key((doc, rp[i].0)));
                assert((doc, rp[i].0) != s.last().cache_key());
            }
        }
        assert forall|k: (u128, SvgMeshKey)|
            #[trigger] seq_map(s).contains_key(k) && k.0 == doc implies exists|i: int|
            0 <= i < r.len() && (#[trigger] r[i]).0 == k.1 by {
            if k == s.last().cache_key() {
                assert(r[r.len() - 1].0 == k.1);
            } else {
                assert(seq_map(s.drop_last()).contains_key(k));
                let i = choose|i: int| 0 <= i < rp.len() && (#[trigger] rp[i]).0 == k.1;
                assert(r[i].0 == k.1);
            }
        }
    }
}

/// The entries that survive the removal of one document, in order.
pub open spec fn remove_doc_seq(s: Seq<CacheEntry>, doc: u128) -> Seq<CacheEntry>
    decreases s.len(),
{
    if s.len() == 0 {
        Seq::empty()
    } else {
        let r = remove_doc_seq(s.drop_last(), doc);
        if s.last().doc == doc {
            r
        } else {
            r.push(s.last())
        }
    }
}

/// Removal keeps exactly the entries of other documents, preserving key
/// uniqueness, handle distinctness and every surviving entry.
proof fn lemma_remove_doc_seq(s: Seq<CacheEntry>, doc: u128)
    requires
        unique_keys(s),
        distinct_handles(s),
    ensures
        unique_keys(remove_doc_seq(s, doc)),
        distinct_handles(remove_doc_seq(s, doc)),
        forall|i: int|
            0 <= i < remove_doc_seq(s, doc).len() ==> exists|j: int|
                0 <= j < s.len() && s[j] == (#[trigger] remove_doc_seq(s, doc)[i]),
        forall|k: (u128, SvgMeshKey)|
            #[trigger] seq_map(remove_doc_seq(s, doc)).contains_key(k) <==> seq_map(
                s,
            ).contains_key(k) && k.0 != doc,
        forall|k: (u128, SvgMeshKey)|
            #[trigger] seq_map(remove_doc_seq(s, doc)).contains_key(k) ==> seq_map(
                remove_doc_seq(s, doc),
            )[k] == seq_map(s)[k],
    decreases s.len(),
{
    if s.len() > 0 {
        lemma_remove_doc_seq(s.drop_last(), doc);
        lemma_seq_map_complete(s);
        lemma_seq_map_complete(s.drop_last());
        let r = remove_doc_seq(s, doc);
        let rp = remove_doc_seq(s.drop_last(), doc);
        // The last entry's key occurs nowhere earlier, so neither in the map
        // of the shorter sequence nor among what survives of it.
        assert forall|j: int| 0 <= j < s.len() - 1 implies (#[trigger] s.drop_last()[
            j
        ].cache_key()) != s.last().cache_key() by {
            assert(s[j].cache_key() != s[s.len() - 1].cache_key());
        }
        assert(!seq_map(s.drop_last()).contains_key(s.last().cache_key())) by {
            if seq_map(s.drop_last()).contains_key(s.last().cache_key()) {
                let i = choose|i: int|
                    0 <= i < s.drop_last().len() && (#[trigger] s.drop_last()[i].cache_key())
                        == s.last().cache_key();
            }
        }
        assert(unique_keys(rp) && distinct_handles(rp));
        if s.last().doc == doc {
            assert(r == rp);
            assert forall|k: (u128, SvgMeshKey)| #[trigger] seq_map(r).contains_key(k) implies
                seq_map(s).contains_key(k) && k.0 != doc by {
                assert(seq_map(s.drop_last()).contains_key(k));
                assert(k != s.last().cache_key());
            }
            assert forall|k: (u128, SvgMeshKey)|
                seq_map(s).contains_key(k) && k.0 != doc implies #[trigger] seq_map(
                r,
            ).contains_key(k) by {
                assert(k != s.last().cache_key());
                assert(seq_map(s.drop_last()).contains_key(k));
            }
            assert forall|k: (u128, SvgMeshKey)| #[trigger] seq_map(r).contains_key(k) implies
                seq_map(r)[k] == seq_map(s)[k] by {
                assert(seq_map(rp)[k] == seq_map(s.drop_last())[k]);
                assert(k != s.last().cache_key());
            }
        } else {
            assert(r == rp.push(s.last()));
            assert(r.drop_last() =~= rp);
            assert(r.last() == s.last());
            lemma_seq_map_complete(rp);
            // Key uniqueness of the extended survivor sequence: the new last
            // entry is not among the earlier survivors.
            assert forall|a: int, b: int| 0 <= a < b < r.len() implies (#[trigger] r[
                a
            ].cache_key()) != (#[trigger] r[b].cache_key()) by {
                if b < r.len() - 1 {
                    assert(rp[a].cache_key() != rp[b].cache_key());
                } else {
                    assert(r[b] == s.last());
                    assert(rp[a] == r[a]);
                    if r[a].cache_key() == s.last().cache_key() {
                        assert(seq_map(rp).contains_key(rp[a].cache_key()));
                        assert(seq_map(s.drop_last()).contains_key(s.last().cache_key()));
                    }
                }
            }
            assert forall|a: int, b: int| 0 <= a < b < r.len() implies (#[trigger] r[a].handle)
                != (#[trigger] r[b].handle) by {
                if b < r.len() - 1 {
                    assert(rp[a].handle != rp[b].handle);
                } else {
                    let i = choose|i: int| 0 <= i < s.drop_last().len() && s.drop_last()[i] == rp[a];
                    assert(s[i].handle != s[s.len() - 1].handle);
                }
            }
            assert(seq_map(r) == seq_map(rp).insert(s.last().cache_key(), s.last()));
            assert forall|k: (u128, SvgMeshKey)| #[trigger] seq_map(r).contains_key(k) implies
                seq_map(s).contains_key(k) && k.0 != doc && seq_map(r)[k] == seq_map(s)[k] by {
                if k == s.last().cache_key() {
                    assert(seq_map(s)[k] == s.last());
                } else {
                    assert(seq_map(rp).contains_key(k));
                    assert(seq_map(s.drop_last()).contains_key(k));
                }
            }
            assert forall|k: (u128, SvgMeshKey)|
                seq_map(s).contains_key(k) && k.0 != doc implies #[trigger] seq_map(
                r,
            ).contains_key(k) by {
                if k != s.last().cache_key() {
                    assert(seq_map(s.drop_last()).contains_key(k));
                }
            }
        }
        assert forall|i: int| 0 <= i < r.len() implies exists|j: int|
            0 <= j < s.len() && s[j] == (#[trigger] r[i]) by {
            if s.last().doc == doc || i < r.len() - 1 {
                assert(rp[i] == r[i]);
                let j = choose|j: int| 0 <= j < s.drop_last().len() && s.drop_last()[j] == rp[i];
                assert(s[j] == r[i]);
            } else {
                assert(s[s.len() - 1] == r[i]);
            }
        }
    }
}

/// The map of a sequence with unique keys contains exactly the entries of
/// the sequence, each under its own key.
proof fn lemma_seq_map_complete(s: Seq<CacheEntry>)
    requires
        unique_keys(s),
    ensures
        forall|i: int|
            0 <= i < s.len() ==> seq_map(s).contains_key(#[trigger] s[i].cache_key())
                && seq_map(s)[s[i].cache_key()] == s[i],
        forall|k: (u128, SvgMeshKey)|
            #[trigger] seq_map(s).contains_key(k) ==> exists|i: int|
                0 <= i < s.len() && (#[trigger] s[i].cache_key()) == k,
    decreases s.len(),
{
    if s.len() > 0 {
        lemma_seq_map_complete(s.drop_last());
        assert forall|i: int| 0 <= i < s.len() implies seq_map(s).contains_key(
            #[trigger] s[i].cache_key(),
        ) && seq_map(s)[s[i].cache_key()] == s[i] by {
            if i < s.len() - 1 {
                assert(s.drop_last()[i] == s[i]);
                assert(s[i].cache_key() != s.last().cache_key());
            }
        }
        assert forall|k: (u128, SvgMeshKey)| #[trigger] seq_map(s).contains_key(k) implies exists|
            i: int,
        | 0 <= i < s.len() && (#[trigger] s[i].cache_key()) == k by {
            if k == s.last().cache_key() {
                assert(s[s.len() - 1].cache_key() == k);
            } else {
                assert(seq_map(s.drop_last()).contains_key(k));
                let i = choose|i: int|
                    0 <= i < s.drop_last().len() && (#[trigger] s.drop_last()[i].cache_key()) == k;
                assert(s[i].cache_key() == k);
            }
        }
    }
}

/// Replacing one entry with another of the same (doc, key) updates the map
/// at exactly that key.
proof fn lemma_seq_map_update(s: Seq<CacheEntry>, i: int)
    requires
        unique_keys(s),
        0 <= i < s.len(),
    ensures
        forall|e: CacheEntry|
            e.cache_key() == s[i].cache_key() ==> seq_map(#[trigger] s.update(i, e)) == seq_map(
                s,
            ).insert(e.cache_key(), e),
        forall|e: CacheEntry| e.cache_key() == s[i].cache_key() ==> unique_keys(s.update(i, e)),
    decreases s.len(),
{
    assert forall|e: CacheEntry| e.cache_key() == s[i].cache_key() implies seq_map(
        #[trigger] s.update(i, e),
    ) == seq_map(s).insert(e.cache_key(), e) && unique_keys(s.update(i, e)) by {
        lemma_seq_map_update_one(s, i, e);
    }
}

proof fn lemma_seq_map_update_one(s: Seq<CacheEntry>, i: int, e: CacheEntry)
    requires
        unique_keys(s),
        0 <= i < s.len(),
        e.cache_key() == s[i].cache_key(),
    ensures
        seq_map(s.update(i, e)) == seq_map(s).insert(e.cache_key(), e),
        unique_keys(s.update(i, e)),
    decreases s.len(),
{
    assert forall|a: int, b: int| 0 <= a < b < s.update(i, e).len() implies (#[trigger] s.update(
        i,
        e,
    )[a].cache_key()) != (#[trigger] s.update(i, e)[b].cache_key()) by {
        assert(s[a].cache_key() != s[b].cache_key());
    }
    if i == s.len() - 1 {
        assert(s.update(i, e).drop_last() =~= s.drop_last());
        assert(s.update(i, e).last() == e);
    } else {
        lemma_seq_map_update_one(s.drop_last(), i, e);
        assert(s.update(i, e).drop_last() =~= s.drop_last().update(i, e));
        assert(s.update(i, e).last() == s.last());
        assert(s.last().cache_key() != e.cache_key());
        assert(seq_map(s.update(i, e)) =~= seq_map(s).insert(e.cache_key(), e));
    }
}

/// A well-formed cache's map keeps every handle below the freshness bound.
proof fn lemma_handles_below(c: SvgMeshCache)
    requires
        c.wf(),
    ensures
        handles_below(c@, c.fresh_bound()),
{
    lemma_seq_map_complete(c.entries@);
}

/// Pointwise preservation of keys and handles preserves the invariant.
proof fn lemma_wf_from_pointwise(c0: SvgMeshCache, c1: SvgMeshCache)
    requires
        c0.wf(),
        c0.entries@.len() == c1.entries@.len(),
        c0.next_handle == c1.next_handle,
        forall|j: int| 0 <= j < c1.entries@.len() ==> {
            &&& (#[trigger] c1.entries@[j]).doc == c0.entries@[j].doc
            &&& c1.entries@[j].key == c0.entries@[j].key
            &&& c1.entries@[j].handle == c0.entries@[j].handle
        },
    ensures
        c1.wf(),
{
    assert forall|i: int, j: int| 0 <= i < j < c1.entries@.len() implies (#[trigger] c1.entries@[
        i
    ].cache_key()) != (#[trigger] c1.entries@[j].cache_key()) by {
        assert(c0.entries@[i].cache_key() != c0.entries@[j].cache_key());
    }
}

} // verus!
