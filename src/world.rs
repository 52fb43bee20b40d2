//! The world: chunks created on first write, addressed by their origins.

use vstd::prelude::*;

use crate::block::{BlockId, BlockInstance};
use crate::chunk::{Chunk, lemma_slot_relpos_index, placed, slot_index};
use crate::mesh::{Mesh, MeshView};
use crate::position::{BlockPosition, chunk_base, lemma_chunk_base_bounds};
use crate::registry::{BlockRegistry, RegistryError};

verus! {

/// The origin of the chunk that holds `p`.
pub open spec fn origin_of(p: BlockPosition) -> BlockPosition {
    BlockPosition {
        x: chunk_base(p.x as int) as i32,
        y: chunk_base(p.y as int) as i32,
        z: chunk_base(p.z as int) as i32,
    }
}

/// The position of `p` relative to the origin of its chunk.
pub open spec fn relpos_of(p: BlockPosition) -> BlockPosition {
    BlockPosition {
        x: (p.x - chunk_base(p.x as int)) as i32,
        y: (p.y - chunk_base(p.y as int)) as i32,
        z: (p.z - chunk_base(p.z as int)) as i32,
    }
}

/// Whether the chunks in `s` have pairwise distinct origins.
pub open spec fn distinct_origins(s: Seq<Chunk>) -> bool {
    forall|i: int, j: int|
        0 <= i < s.len() && 0 <= j < s.len() && i != j ==> s[i].origin_spec() != s[j].origin_spec()
}

/// Whether some chunk of `s` has origin `origin`.
pub open spec fn contains_origin(s: Seq<Chunk>, origin: BlockPosition) -> bool {
    exists|k: int| 0 <= k < s.len() && s[k].origin_spec() == origin
}

/// The chunk of `s` with origin `origin`.
pub open spec fn chunk_with_origin(s: Seq<Chunk>, origin: BlockPosition) -> Chunk
    recommends
        contains_origin(s, origin),
{
    s[choose|k: int| 0 <= k < s.len() && s[k].origin_spec() == origin]
}

/// With distinct origins, the chunk found for a chunk's origin is that chunk.
pub proof fn lemma_chunk_with_origin_at(s: Seq<Chunk>, k: int)
    requires
        distinct_origins(s),
        0 <= k < s.len(),
    ensures
        contains_origin(s, s[k].origin_spec()),
        chunk_with_origin(s, s[k].origin_spec()) == s[k],
{
    assert(contains_origin(s, s[k].origin_spec()));
}

/// Replacing (or appending) the chunk at `k`, whose origin stays `origin`,
/// leaves the chunks of every other origin as they were.
pub proof fn lemma_other_origins(s1: Seq<Chunk>, s2: Seq<Chunk>, k: int, origin: BlockPosition)
    requires
        distinct_origins(s1),
        distinct_origins(s2),
        0 <= k < s2.len(),
        s2[k].origin_spec() == origin,
        s2.len() == s1.len() || (s2.len() == s1.len() + 1 && k == s1.len()),
        k < s1.len() ==> s1[k].origin_spec() == origin,
        forall|j: int| 0 <= j < s1.len() && j != k ==> s2[j] == s1[j],
    ensures
        forall|o: BlockPosition|
            o != origin ==> (contains_origin(s2, o) == contains_origin(s1, o) && (contains_origin(
                s1,
                o,
            ) ==> chunk_with_origin(s2, o) == chunk_with_origin(s1, o))),
{
    assert forall|o: BlockPosition| o != origin implies (contains_origin(s2, o) == contains_origin(
        s1,
        o,
    ) && (contains_origin(s1, o) ==> chunk_with_origin(s2, o) == chunk_with_origin(s1, o))) by {
        if contains_origin(s1, o) {
            let j = choose|j: int| 0 <= j < s1.len() && s1[j].origin_spec() == o;
            assert(j != k);
            assert(s2[j] == s1[j]);
            lemma_chunk_with_origin_at(s1, j);
            lemma_chunk_with_origin_at(s2, j);
        }
        if contains_origin(s2, o) {
            let j = choose|j: int| 0 <= j < s2.len() && s2[j].origin_spec() == o;
            assert(j != k);
            assert(s2[j] == s1[j]);
        }
    }
}

/// The meshes of the chunks marked visible, chunk by chunk.
pub open spec fn visible_meshes(chunks: Seq<Chunk>, visible: Seq<bool>) -> Seq<MeshView>
    decreases chunks.len(),
{
    if chunks.len() == 0 {
        Seq::empty()
    } else {
        visible_meshes(chunks.drop_last(), visible.drop_last()) + if visible.last() {
            chunks.last().mesh_entries().map_values(|e: (BlockId, MeshView)| e.1)
        } else {
            Seq::empty()
        }
    }
}

/// What a result of `World::meshes` holds: the meshes' contents, or the error.
pub open spec fn mesh_views(r: Result<Vec<&Mesh>, RegistryError>) -> Result<Seq<MeshView>, RegistryError> {
    match r {
        Ok(v) => Ok(v@.map_values(|m: &Mesh| m@)),
        Err(e) => Err(e),
    }
}

/// The loaded chunks of a world. A chunk is created by the first write that
/// falls into it and is never dropped.
pub struct World {
    loaded_chunks: Vec<Chunk>,
}

impl World {
    /// The loaded chunks, in the order they were created.
    pub closed spec fn chunks(&self) -> Seq<Chunk> {
        self.loaded_chunks@
    }

    pub open spec fn wf(&self) -> bool {
        &&& distinct_origins(self.chunks())
        &&& forall|k: int|
            0 <= k < self.chunks().len() ==> {
                &&& (#[trigger] self.chunks()[k]).wf()
                &&& self.chunks()[k].origin_spec() == origin_of(self.chunks()[k].origin_spec())
            }
    }

    /// Whether a chunk with origin `origin` is loaded.
    pub open spec fn has_chunk(&self, origin: BlockPosition) -> bool {
        contains_origin(self.chunks(), origin)
    }

    /// The loaded chunk with origin `origin`.
    pub open spec fn chunk_spec(&self, origin: BlockPosition) -> Chunk
        recommends
            self.has_chunk(origin),
    {
        chunk_with_origin(self.chunks(), origin)
    }

    /// The block at absolute position `p`; `None` where no block or no chunk is.
    pub open spec fn block_at_spec(&self, p: BlockPosition) -> Option<BlockInstance> {
        if self.has_chunk(origin_of(p)) {
            self.chunk_spec(origin_of(p)).block_at_abs_spec(p)
        } else {
            None
        }
    }

    /// An empty world.
    pub fn new() -> (r: Self)
        ensures
            r.wf(),
            r.chunks().len() == 0,
    {
        World { loaded_chunks: Vec::new() }
    }

    /// The position of the loaded chunk with origin `origin`, if any.
    fn find_chunk(&self, origin: BlockPosition) -> (r: Option<usize>)
        ensures
            match r {
                Some(k) => k < self.chunks().len() && self.chunks()[k as int].origin_spec() == origin,
                None => !self.has_chunk(origin),
            },
    {
        let mut k: usize = 0;
        while k < self.loaded_chunks.len()
            invariant
                k <= self.chunks().len(),
                forall|j: int| 0 <= j < k ==> self.chunks()[j].origin_spec() != origin,
            decreases self.chunks().len() - k,
        {
            if self.loaded_chunks[k].origin() == origin {
                return Some(k);
            }
            k = k + 1;
        }
        None
    }

    /// The loaded chunk with origin `origin`.
    pub fn chunk(&self, origin: BlockPosition) -> (r: Option<&Chunk>)
        requires
            self.wf(),
        ensures
            match r {
                Some(c) => self.has_chunk(origin) && *c == self.chunk_spec(origin),
                None => !self.has_chunk(origin),
            },
    {
        match self.find_chunk(origin) {
            Some(k) => {
                proof {
                    self.lemma_chunk_spec_at(k as int);
                }
                Some(&self.loaded_chunks[k])
            },
            None => None,
        }
    }

    /// With distinct origins, `chunk_spec` of a loaded chunk's origin is that chunk.
    proof fn lemma_chunk_spec_at(&self, k: int)
        requires
            self.wf(),
            0 <= k < self.chunks().len(),
        ensures
            self.has_chunk(self.chunks()[k].origin_spec()),
            self.chunk_spec(self.chunks()[k].origin_spec()) == self.chunks()[k],
    {
        lemma_chunk_with_origin_at(self.chunks(), k);
    }

    /// Places `block` at absolute `position`, or clears it for `None`. The
    /// chunk whose origin is `position` rounded down to multiples of
    /// `CHUNK_DIMEN` receives the write; it is created empty when missing.
    pub fn set_block(&mut self, position: BlockPosition, block: Option<BlockId>)
        requires
            old(self).wf(),
        ensures
            final(self).wf(),
            final(self).has_chunk(origin_of(position)),
            final(self).block_at_spec(position) == placed(block, position),
            final(self).chunk_spec(origin_of(position)).dirty_spec(),
            forall|o: BlockPosition|
                o != origin_of(position) ==> (final(self).has_chunk(o) == old(self).has_chunk(o)
                    && (old(self).has_chunk(o) ==> final(self).chunk_spec(o) == old(self).chunk_spec(o))),
            forall|q: BlockPosition|
                q != position ==> #[trigger] final(self).block_at_spec(q) == old(self).block_at_spec(q),
    {
        let origin = position.chunk_origin();
        proof {
            lemma_chunk_base_bounds(position.x as int);
            lemma_chunk_base_bounds(position.y as int);
            lemma_chunk_base_bounds(position.z as int);
        }
        let relpos = position.minus(origin);
        proof {
            lemma_origin_and_relpos(position);
            assert(origin == origin_of(position));
            assert(relpos == relpos_of(position));
        }
        let ghost s1 = self.chunks();
        let k = match self.find_chunk(origin) {
            Some(k) => k,
            None => {
                let fresh = Chunk::new(origin);
                proof {
                    lemma_origin_of_origin(position);
                }
                self.loaded_chunks.push(fresh);
                proof {
                    assert forall|i: int, j: int|
                        0 <= i < self.chunks().len() && 0 <= j < self.chunks().len() && i != j
                        implies self.chunks()[i].origin_spec() != self.chunks()[j].origin_spec() by {
                        if i < s1.len() && j < s1.len() {
                        } else if i < s1.len() {
                            assert(s1[i].origin_spec() != origin);
                        } else {
                            assert(s1[j].origin_spec() != origin);
                        }
                    }
                }
                self.loaded_chunks.len() - 1
            },
        };
        let ghost s_mid = self.chunks();
        let ghost before = s_mid[k as int];
        proof {
            lemma_origin_of_origin(position);
            assert(s_mid[k as int].wf());
        }
        self.loaded_chunks[k].set_block(relpos, block);
        proof {
            let s2 = self.chunks();
            assert(s2 == s_mid.update(k as int, s2[k as int]));
            assert(distinct_origins(s2)) by {
                assert forall|i: int, j: int|
                    0 <= i < s2.len() && 0 <= j < s2.len() && i != j implies s2[i].origin_spec()
                    != s2[j].origin_spec() by {
                    assert(s_mid[i].origin_spec() != s_mid[j].origin_spec());
                }
            }
            lemma_other_origins(s1, s2, k as int, origin);
            lemma_chunk_with_origin_at(s2, k as int);
            lemma_slot_relpos_index(relpos.x as int, relpos.y as int, relpos.z as int);
            let c = s2[k as int];
            assert forall|q: BlockPosition|
                q != position implies #[trigger] self.block_at_spec(q) == old(self).block_at_spec(q) by {
                if origin_of(q) == origin {
                    lemma_origin_and_relpos(q);
                    lemma_same_chunk_distinct_slots(q, position);
                    if !contains_origin(s1, origin) {
                        lemma_slot_relpos_index(
                            relpos_of(q).x as int,
                            relpos_of(q).y as int,
                            relpos_of(q).z as int,
                        );
                    } else {
                        let j = choose|j: int| 0 <= j < s1.len() && s1[j].origin_spec() == origin;
                        lemma_chunk_with_origin_at(s1, j);
                        assert(j == k);
                    }
                }
            }
        }
    }
}

impl World {
    /// Whether every visible chunk can regenerate its meshes with `registry`;
    /// `visible[k]` tells whether the `k`-th chunk is visible.
    pub open spec fn can_regenerate(&self, registry: &BlockRegistry, visible: Seq<bool>) -> bool {
        forall|k: int|
            0 <= k < self.chunks().len() && #[trigger] visible[k] ==> !self.chunks()[k].dirty_spec()
                || self.chunks()[k].all_registered(registry)
    }

    /// What `meshes` does when `visible[k]` tells whether the `k`-th chunk is
    /// visible: with `Ok`, each visible chunk is regenerated, the others stay,
    /// and `meshes` lists the visible chunks' meshes, chunk by chunk; with
    /// `Err`, nothing changes.
    pub open spec fn meshes_outcome(
        registry: &BlockRegistry,
        before: World,
        after: World,
        visible: Seq<bool>,
        result: Result<Seq<MeshView>, RegistryError>,
    ) -> bool {
        &&& visible.len() == before.chunks().len()
        &&& (result is Ok <==> before.can_regenerate(registry, visible))
        &&& result is Err ==> result == Err::<Seq<MeshView>, RegistryError>(RegistryError::NotFound)
            && after == before
        &&& result is Ok ==> {
            &&& after.chunks().len() == before.chunks().len()
            &&& forall|k: int|
                0 <= k < before.chunks().len() ==> if visible[k] {
                    Chunk::regenerated(registry, #[trigger] before.chunks()[k], after.chunks()[k])
                } else {
                    after.chunks()[k] == before.chunks()[k]
                }
            &&& result->Ok_0 == visible_meshes(after.chunks(), visible)
        }
    }

    /// Asks `is_visible` once about the origin of each loaded chunk,
    /// regenerates the meshes of the visible chunks that changed, and returns
    /// the meshes of all visible chunks, chunk by chunk. When some visible
    /// changed chunk holds a block type unknown to `registry`, it fails with
    /// `NotFound` and changes nothing.
    pub fn meshes<F: Fn(BlockPosition) -> bool>(
        &mut self,
        registry: &BlockRegistry,
        is_visible: F,
    ) -> (r: Result<Vec<&Mesh>, RegistryError>)
        requires
            old(self).wf(),
            registry.wf(),
            forall|o: BlockPosition| is_visible.requires((o,)),
        ensures
            final(self).wf(),
            exists|visible: Seq<bool>|
                {
                    &&& visible.len() == old(self).chunks().len()
                    &&& forall|k: int|
                        0 <= k < visible.len() ==> is_visible.ensures(
                            (old(self).chunks()[k].origin_spec(),),
                            #[trigger] visible[k],
                        )
                    &&& #[trigger] World::meshes_outcome(
                        registry,
                        *old(self),
                        *final(self),
                        visible,
                        mesh_views(r),
                    )
                },
    {
        let mut visible: Vec<bool> = Vec::new();
        let mut k: usize = 0;
        while k < self.loaded_chunks.len()
            invariant
                *self == *old(self),
                forall|o: BlockPosition| is_visible.requires((o,)),
                k <= self.chunks().len(),
                visible@.len() == k,
                forall|j: int|
                    0 <= j < k ==> is_visible.ensures(
                        (self.chunks()[j].origin_spec(),),
                        #[trigger] visible@[j],
                    ),
            decreases self.chunks().len() - k,
        {
            let v = is_visible(self.loaded_chunks[k].origin());
            visible.push(v);
            k = k + 1;
        }
        let ghost vis = visible@;
        let mut k: usize = 0;
        while k < self.loaded_chunks.len()
            invariant
                self.wf(),
                registry.wf(),
                *self == *old(self),
                visible@ == vis,
                vis.len() == self.chunks().len(),
                forall|j: int|
                    0 <= j < vis.len() ==> is_visible.ensures(
                        (old(self).chunks()[j].origin_spec(),),
                        #[trigger] vis[j],
                    ),
                k <= self.chunks().len(),
                forall|j: int|
                    0 <= j < k && #[trigger] vis[j] ==> !self.chunks()[j].dirty_spec()
                        || self.chunks()[j].all_registered(registry),
            decreases self.chunks().len() - k,
        {
            let chunk = &self.loaded_chunks[k];
            if visible[k] && chunk.is_dirty() {
                let mut j: usize = 0;
                while j < chunk.present_type_count()
                    invariant
                        self.wf(),
                        registry.wf(),
                        *self == *old(self),
                        k < self.chunks().len(),
                        *chunk == self.chunks()[k as int],
                        visible@ == vis,
                        vis.len() == self.chunks().len(),
                        vis[k as int],
                        forall|j: int|
                            0 <= j < vis.len() ==> is_visible.ensures(
                                (old(self).chunks()[j].origin_spec(),),
                                #[trigger] vis[j],
                            ),
                        chunk.wf(),
                        chunk.dirty_spec(),
                        j <= chunk.count_entries().len(),
                        forall|i: int|
                            0 <= i < j ==> registry.has_block(#[trigger] chunk.count_entries()[i].0),
                    decreases chunk.count_entries().len() - j,
                {
                    if registry.block(chunk.present_type(j)).is_err() {
                        assert(!registry.has_block(chunk.count_entries()[j as int].0));
                        assert(!old(self).chunks()[k as int].all_registered(registry));
                        assert(!old(self).can_regenerate(registry, vis));
                        let r = Err(RegistryError::NotFound);
                        assert(World::meshes_outcome(registry, *old(self), *self, vis, mesh_views(r)));
                        return r;
                    }
                    j = j + 1;
                }
            }
            k = k + 1;
        }
        let ghost s0 = self.chunks();
        let mut k: usize = 0;
        while k < self.loaded_chunks.len()
            invariant
                registry.wf(),
                self.wf(),
                s0 == old(self).chunks(),
                old(self).can_regenerate(registry, vis),
                visible@ == vis,
                vis.len() == s0.len(),
                forall|j: int|
                    0 <= j < vis.len() ==> is_visible.ensures(
                        (old(self).chunks()[j].origin_spec(),),
                        #[trigger] vis[j],
                    ),

                self.chunks().len() == s0.len(),
                k <= s0.len(),
                forall|j: int|
                    0 <= j < k ==> if vis[j] {
                        Chunk::regenerated(registry, #[trigger] s0[j], self.chunks()[j])
                    } else {
                        self.chunks()[j] == s0[j]
                    },
                forall|j: int| k <= j < s0.len() ==> #[trigger] self.chunks()[j] == s0[j],
            decreases s0.len() - k,
        {
            if visible[k] {
                let ghost mid = self.chunks();
                let res = self.loaded_chunks[k].invalidate_all_meshes(registry);
                proof {
                    let s2 = self.chunks();
                    assert(s2 == mid.update(k as int, s2[k as int]));
                    assert(distinct_origins(s2)) by {
                        assert forall|a: int, b: int|
                            0 <= a < s2.len() && 0 <= b < s2.len() && a != b implies s2[a].origin_spec()
                            != s2[b].origin_spec() by {
                            assert(mid[a].origin_spec() != mid[b].origin_spec());
                        }
                    }
                }
            }
            k = k + 1;
        }
        let mut r: Vec<&Mesh> = Vec::new();
        let mut k: usize = 0;
        while k < self.loaded_chunks.len()
            invariant
                k <= self.chunks().len(),
                visible@ == vis,
                vis.len() == self.chunks().len(),
                forall|j: int|
                    0 <= j < vis.len() ==> is_visible.ensures(
                        (old(self).chunks()[j].origin_spec(),),
                        #[trigger] vis[j],
                    ),
                r@.map_values(|m: &Mesh| m@) == visible_meshes(
                    self.chunks().take(k as int),
                    vis.take(k as int),
                ),
            decreases self.chunks().len() - k,
        {
            let ghost t = self.chunks().take(k as int + 1);
            let ghost u = vis.take(k as int + 1);
            if visible[k] {
                let mut ms = self.loaded_chunks[k].meshes();
                r.append(&mut ms);
            }
            proof {
                assert(t.drop_last() == self.chunks().take(k as int));
                assert(u.drop_last() == vis.take(k as int));
                assert(t.last() == self.chunks()[k as int]);
                assert(r@.map_values(|m: &Mesh| m@) =~= visible_meshes(t, u));
            }
            k = k + 1;
        }
        assert(self.chunks().take(k as int) == self.chunks());
        assert(vis.take(k as int) == vis);
        let r = Ok(r);
        assert(World::meshes_outcome(registry, *old(self), *self, vis, mesh_views(r)));
        r
    }
}

/// A position is its chunk's origin plus its relative position, and the
/// relative position lies inside the chunk.
pub proof fn lemma_origin_and_relpos(p: BlockPosition)
    ensures
        relpos_of(p).is_relpos(),
        origin_of(p).is_chunk_origin(),
        origin_of(p).shifted(relpos_of(p).x as int, relpos_of(p).y as int, relpos_of(p).z as int)
            == p,
        relpos_of(p).x == p.x - origin_of(p).x,
        relpos_of(p).y == p.y - origin_of(p).y,
        relpos_of(p).z == p.z - origin_of(p).z,
{
    lemma_chunk_base_bounds(p.x as int);
    lemma_chunk_base_bounds(p.y as int);
    lemma_chunk_base_bounds(p.z as int);
}

/// A chunk origin is its own chunk's origin.
pub proof fn lemma_origin_of_origin(p: BlockPosition)
    ensures
        origin_of(origin_of(p)) == origin_of(p),
{
    lemma_chunk_base_bounds(p.x as int);
    lemma_chunk_base_bounds(p.y as int);
    lemma_chunk_base_bounds(p.z as int);
    lemma_chunk_base_of_base(p.x as int);
    lemma_chunk_base_of_base(p.y as int);
    lemma_chunk_base_of_base(p.z as int);
}

/// Rounding down to a multiple of the chunk size twice is rounding once.
pub proof fn lemma_chunk_base_of_base(a: int)
    ensures
        chunk_base(chunk_base(a)) == chunk_base(a),
{
    let q = a / 32;
    assert((q * 32) / 32 == q) by (nonlinear_arith);
}

/// Two positions of one chunk at different places lie in different slots.
pub proof fn lemma_same_chunk_distinct_slots(p: BlockPosition, q: BlockPosition)
    requires
        origin_of(p) == origin_of(q),
        p != q,
    ensures
        slot_index(relpos_of(p).x as int, relpos_of(p).y as int, relpos_of(p).z as int)
            != slot_index(relpos_of(q).x as int, relpos_of(q).y as int, relpos_of(q).z as int),
{
    lemma_origin_and_relpos(p);
    lemma_origin_and_relpos(q);
    lemma_slot_relpos_index(relpos_of(p).x as int, relpos_of(p).y as int, relpos_of(p).z as int);
    lemma_slot_relpos_index(relpos_of(q).x as int, relpos_of(q).y as int, relpos_of(q).z as int);
}

} // verus!
