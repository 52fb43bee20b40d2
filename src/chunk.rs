//! A chunk: dense block storage with per-type counts and cached meshes.

use vstd::prelude::*;

use crate::block::{BlockId, BlockInstance};
use crate::mesh::{Mesh, MeshView};
use crate::model::{
    BlockMeshLocation, BlockModel, MAX_MODEL_VERTICES, Vertex, all_locations, shift_indices,
    translate_all,
};
use crate::position::{BlockPosition, CHUNK_DIMEN, in_chunk_range};
use crate::registry::{BlockRegistry, RegistryError};

verus! {

/// Number of block slots in a chunk.
pub const CHUNK_BLOCK_COUNT: usize = 32768;

/// The storage slot of a chunk-relative position.
pub open spec fn slot_index(x: int, y: int, z: int) -> int {
    x + y * CHUNK_DIMEN as int + z * (CHUNK_DIMEN * CHUNK_DIMEN) as int
}

/// The chunk-relative position stored in slot `i`.
pub open spec fn slot_relpos(i: int) -> BlockPosition {
    BlockPosition {
        x: (i % CHUNK_DIMEN as int) as i32,
        y: ((i / CHUNK_DIMEN as int) % CHUNK_DIMEN as int) as i32,
        z: (i / (CHUNK_DIMEN * CHUNK_DIMEN) as int) as i32,
    }
}

/// The block at a chunk-relative position, or `None` outside the chunk.
pub open spec fn occupant(slots: Seq<Option<BlockInstance>>, x: int, y: int, z: int) -> Option<
    BlockInstance,
> {
    if in_chunk_range(x) && in_chunk_range(y) && in_chunk_range(z) {
        slots[slot_index(x, y, z)]
    } else {
        None
    }
}

/// Whether a slot holds a block of type `id`.
pub open spec fn holds(slot: Option<BlockInstance>, id: BlockId) -> bool {
    match slot {
        Some(b) => b.block == id,
        None => false,
    }
}

/// Number of slots that hold a block of type `id`.
pub open spec fn count_in(slots: Seq<Option<BlockInstance>>, id: BlockId) -> nat
    decreases slots.len(),
{
    if slots.len() == 0 {
        0
    } else {
        count_in(slots.drop_last(), id) + if holds(slots.last(), id) {
            1nat
        } else {
            0nat
        }
    }
}

/// Whether the types listed in `entries` are pairwise distinct.
pub open spec fn distinct_types<V>(entries: Seq<(BlockId, V)>) -> bool {
    forall|i: int, j: int|
        0 <= i < entries.len() && 0 <= j < entries.len() && i != j ==> entries[i].0 != entries[j].0
}

/// Whether type `id` has an entry.
pub open spec fn has_entry<V>(entries: Seq<(BlockId, V)>, id: BlockId) -> bool {
    exists|k: int| 0 <= k < entries.len() && entries[k].0 == id
}

/// The count listed for type `id`; zero when it has no entry.
pub open spec fn entry_count(entries: Seq<(BlockId, u32)>, id: BlockId) -> nat {
    if has_entry(entries, id) {
        entries[choose|k: int| 0 <= k < entries.len() && entries[k].0 == id].1 as nat
    } else {
        0
    }
}

/// A chunk of `CHUNK_DIMEN`³ block slots at a fixed origin.
pub struct Chunk {
    origin: BlockPosition,
    blocks: Vec<Option<BlockInstance>>,
    block_type_counts: Vec<(BlockId, u32)>,
    meshes: Vec<(BlockId, Mesh)>,
    dirty: bool,
}

impl Chunk {
    /// The origin: the absolute position of relative position (0, 0, 0).
    pub closed spec fn origin_spec(&self) -> BlockPosition {
        self.origin
    }

    /// The slots in storage order (x fastest, then y, then z).
    pub closed spec fn slots(&self) -> Seq<Option<BlockInstance>> {
        self.blocks@
    }

    /// The stored per-type counts, in the order the types first appeared.
    pub closed spec fn count_entries(&self) -> Seq<(BlockId, u32)> {
        self.block_type_counts@
    }

    /// The stored meshes, one per type.
    pub closed spec fn mesh_entries(&self) -> Seq<(BlockId, MeshView)> {
        self.meshes@.map_values(|e: (BlockId, Mesh)| (e.0, e.1@))
    }

    /// Set by every change of a slot, cleared by mesh regeneration.
    pub closed spec fn dirty_spec(&self) -> bool {
        self.dirty
    }

    /// The types that have at least one block, in the order of `count_entries`.
    pub open spec fn present_types(&self) -> Seq<BlockId> {
        self.count_entries().map_values(|e: (BlockId, u32)| e.0)
    }

    /// Number of blocks of type `id` in the storage.
    pub open spec fn type_count(&self, id: BlockId) -> nat {
        count_in(self.slots(), id)
    }

    /// The block at a chunk-relative position; `None` outside the chunk.
    pub open spec fn block_at_spec(&self, relpos: BlockPosition) -> Option<BlockInstance> {
        occupant(self.slots(), relpos.x as int, relpos.y as int, relpos.z as int)
    }

    /// The block at an absolute position; `None` outside the chunk.
    pub open spec fn block_at_abs_spec(&self, abspos: BlockPosition) -> Option<BlockInstance> {
        occupant(
            self.slots(),
            abspos.x - self.origin_spec().x,
            abspos.y - self.origin_spec().y,
            abspos.z - self.origin_spec().z,
        )
    }

    /// Storage and counts agree: each stored count is the number of slots of
    /// its type, every present type has a positive entry, and no type has two.
    pub open spec fn counts_match(&self) -> bool {
        &&& distinct_types(self.count_entries())
        &&& forall|k: int|
            0 <= k < self.count_entries().len() ==> (#[trigger] self.count_entries()[k]).1 > 0
        &&& forall|id: BlockId| entry_count(self.count_entries(), id) == #[trigger] count_in(
            self.slots(),
            id,
        )
    }

    pub open spec fn wf(&self) -> bool {
        &&& self.slots().len() == CHUNK_BLOCK_COUNT
        &&& self.origin_spec().is_chunk_origin()
        &&& forall|i: int|
            0 <= i < CHUNK_BLOCK_COUNT ==> match #[trigger] self.slots()[i] {
                Some(b) => b.position == self.origin_spec().shifted(
                    slot_relpos(i).x as int,
                    slot_relpos(i).y as int,
                    slot_relpos(i).z as int,
                ),
                None => true,
            }
        &&& self.counts_match()
        &&& distinct_types(self.mesh_entries())
    }

    /// An empty chunk at `origin`.
    pub fn new(origin: BlockPosition) -> (r: Self)
        requires
            origin.is_chunk_origin(),
        ensures
            r.wf(),
            r.origin_spec() == origin,
            r.slots() == Seq::new(CHUNK_BLOCK_COUNT as nat, |i: int| None::<BlockInstance>),
            r.count_entries().len() == 0,
            r.mesh_entries().len() == 0,
            !r.dirty_spec(),
    {
        let mut blocks: Vec<Option<BlockInstance>> = Vec::new();
        let mut i: usize = 0;
        while i < CHUNK_BLOCK_COUNT
            invariant
                i <= CHUNK_BLOCK_COUNT,
                blocks@ =~= Seq::new(i as nat, |j: int| None::<BlockInstance>),
            decreases CHUNK_BLOCK_COUNT - i,
        {
            blocks.push(None);
            i = i + 1;
        }
        let r = Chunk {
            origin,
            blocks,
            block_type_counts: Vec::new(),
            meshes: Vec::new(),
            dirty: false,
        };
        assert forall|id: BlockId| entry_count(r.count_entries(), id) == count_in(r.slots(), id) by {
            lemma_count_in_empty(r.slots(), id);
        }
        assert(r.mesh_entries() =~= Seq::empty());
        r
    }
}

impl Chunk {
    /// The stored-count entry of type `id`, if any.
    fn find_count(&self, id: BlockId) -> (r: Option<usize>)
        ensures
            match r {
                Some(k) => k < self.count_entries().len() && self.count_entries()[k as int].0 == id,
                None => !has_entry(self.count_entries(), id),
            },
    {
        let mut k: usize = 0;
        while k < self.block_type_counts.len()
            invariant
                k <= self.block_type_counts@.len(),
                forall|j: int| 0 <= j < k ==> self.block_type_counts@[j].0 != id,
            decreases self.block_type_counts@.len() - k,
        {
            if self.block_type_counts[k].0 == id {
                return Some(k);
            }
            k = k + 1;
        }
        None
    }

    /// Number of blocks of type `id` in this chunk, as stored in the counts.
    pub fn block_count(&self, id: BlockId) -> (r: u32)
        requires
            self.wf(),
        ensures
            r == self.type_count(id),
    {
        match self.find_count(id) {
            Some(k) => {
                proof {
                    lemma_entry_count_at(self.count_entries(), k as int);
                }
                self.block_type_counts[k].1
            },
            None => 0,
        }
    }

    /// Adds one to the stored count of `id`, creating its entry if needed.
    fn inc_block_count(&mut self, id: BlockId)
        requires
            distinct_types(old(self).count_entries()),
            forall|k: int|
                0 <= k < old(self).count_entries().len()
                    ==> (#[trigger] old(self).count_entries()[k]).1 > 0,
            entry_count(old(self).count_entries(), id) < CHUNK_BLOCK_COUNT,
        ensures
            distinct_types(final(self).count_entries()),
            forall|k: int|
                0 <= k < final(self).count_entries().len()
                    ==> (#[trigger] final(self).count_entries()[k]).1 > 0,
            forall|j: BlockId|
                #[trigger] entry_count(final(self).count_entries(), j) == entry_count(
                    old(self).count_entries(),
                    j,
                ) + if j == id {
                    1int
                } else {
                    0int
                },
            final(self).origin == old(self).origin,
            final(self).blocks == old(self).blocks,
            final(self).meshes == old(self).meshes,
            final(self).dirty == old(self).dirty,
    {
        match self.find_count(id) {
            Some(k) => {
                let c = self.block_type_counts[k].1;
                proof {
                    lemma_entry_count_at(self.count_entries(), k as int);
                    lemma_entries_update(self.count_entries(), k as int, (c + 1) as u32);
                }
                self.block_type_counts[k] = (id, c + 1);
            },
            None => {
                proof {
                    lemma_entries_push(self.count_entries(), id, 1);
                }
                self.block_type_counts.push((id, 1));
            },
        }
    }

    /// Takes one from the stored count of `id`, dropping its entry at zero.
    fn dec_block_count(&mut self, id: BlockId)
        requires
            distinct_types(old(self).count_entries()),
            forall|k: int|
                0 <= k < old(self).count_entries().len()
                    ==> (#[trigger] old(self).count_entries()[k]).1 > 0,
            entry_count(old(self).count_entries(), id) > 0,
        ensures
            distinct_types(final(self).count_entries()),
            forall|k: int|
                0 <= k < final(self).count_entries().len()
                    ==> (#[trigger] final(self).count_entries()[k]).1 > 0,
            forall|j: BlockId|
                #[trigger] entry_count(final(self).count_entries(), j) == entry_count(
                    old(self).count_entries(),
                    j,
                ) - if j == id {
                    1int
                } else {
                    0int
                },
            final(self).origin == old(self).origin,
            final(self).blocks == old(self).blocks,
            final(self).meshes == old(self).meshes,
            final(self).dirty == old(self).dirty,
    {
        match self.find_count(id) {
            Some(k) => {
                let c = self.block_type_counts[k].1;
                proof {
                    lemma_entry_count_at(self.count_entries(), k as int);
                }
                if c == 1 {
                    proof {
                        lemma_entries_remove(self.count_entries(), k as int);
                    }
                    self.block_type_counts.remove(k);
                } else {
                    proof {
                        lemma_entries_update(self.count_entries(), k as int, (c - 1) as u32);
                    }
                    self.block_type_counts[k] = (id, c - 1);
                }
            },
            None => {},
        }
    }

    /// What `set_block(relpos, block)` makes of `before`: outside the chunk
    /// nothing changes; inside, the slot of `relpos` holds `block` placed at
    /// the matching absolute position, the chunk is dirty, and its origin and
    /// meshes stay.
    pub open spec fn block_set(
        before: Chunk,
        relpos: BlockPosition,
        block: Option<BlockId>,
        after: Chunk,
    ) -> bool {
        if !relpos.is_relpos() {
            after == before
        } else {
            &&& after.slots() == before.slots().update(
                slot_index(relpos.x as int, relpos.y as int, relpos.z as int),
                placed(
                    block,
                    before.origin_spec().shifted(relpos.x as int, relpos.y as int, relpos.z as int),
                ),
            )
            &&& after.dirty_spec()
            &&& after.origin_spec() == before.origin_spec()
            &&& after.mesh_entries() == before.mesh_entries()
        }
    }

    /// Places `block` at chunk-relative `relpos`, or clears the slot for
    /// `None`. Outside the chunk nothing changes; inside, the chunk becomes
    /// dirty even when the slot's content stays the same.
    pub fn set_block(&mut self, relpos: BlockPosition, block: Option<BlockId>)
        requires
            old(self).wf(),
        ensures
            final(self).wf(),
            Chunk::block_set(*old(self), relpos, block, *final(self)),
    {
        if !relpos.is_valid_chunk_relpos() {
            return ;
        }
        let idx = relpos.x as usize + relpos.y as usize * CHUNK_DIMEN + relpos.z as usize
            * CHUNK_DIMEN * CHUNK_DIMEN;
        proof {
            lemma_slot_relpos_index(relpos.x as int, relpos.y as int, relpos.z as int);
        }
        let ghost old_slots = self.blocks@;
        let previous = self.blocks[idx];
        let ghost before_dec = self.count_entries();
        match previous {
            Some(b) => {
                proof {
                    lemma_count_in_positive(old_slots, idx as int, b.block);
                }
                self.dec_block_count(b.block);
            },
            None => {},
        }
        let ghost after_dec = self.count_entries();
        let placed_now = match block {
            Some(id) => {
                proof {
                    lemma_count_in_bound(old_slots, id);
                    if !holds(previous, id) {
                        lemma_count_in_not_full(old_slots, idx as int, id);
                    }
                }
                self.inc_block_count(id);
                Some(BlockInstance::new(id, self.origin.plus(relpos)))
            },
            None => None,
        };
        self.blocks[idx] = placed_now;
        self.dirty = true;
        proof {
            assert forall|j: BlockId|
                entry_count(self.count_entries(), j) == #[trigger] count_in(self.slots(), j) by {
                lemma_count_in_update(old_slots, idx as int, placed_now, j);
            }
            assert(self.slots() == old_slots.update(idx as int, placed_now));
            assert forall|i: int| 0 <= i < CHUNK_BLOCK_COUNT implies match #[trigger] self.slots()[i] {
                Some(b) => b.position == self.origin_spec().shifted(
                    slot_relpos(i).x as int,
                    slot_relpos(i).y as int,
                    slot_relpos(i).z as int,
                ),
                None => true,
            } by {
                if i != idx as int {
                    assert(self.slots()[i] == old_slots[i]);
                }
            }
        }
    }

    /// The block at chunk-relative `relpos`; `None` when the slot is empty or
    /// lies outside the chunk.
    pub fn block_at(&self, relpos: BlockPosition) -> (r: Option<BlockInstance>)
        requires
            self.wf(),
        ensures
            r == self.block_at_spec(relpos),
    {
        if !relpos.is_valid_chunk_relpos() {
            return None;
        }
        let idx = relpos.x as usize + relpos.y as usize * CHUNK_DIMEN + relpos.z as usize
            * CHUNK_DIMEN * CHUNK_DIMEN;
        proof {
            lemma_slot_relpos_index(relpos.x as int, relpos.y as int, relpos.z as int);
            assert(idx as int == slot_index(relpos.x as int, relpos.y as int, relpos.z as int));
        }
        self.blocks[idx]
    }

    /// The block at absolute `abspos`; `None` when the slot is empty or lies
    /// outside the chunk.
    pub fn block_at_abs(&self, abspos: BlockPosition) -> (r: Option<BlockInstance>)
        requires
            self.wf(),
        ensures
            r == self.block_at_abs_spec(abspos),
    {
        let dx = abspos.x as i64 - self.origin.x as i64;
        let dy = abspos.y as i64 - self.origin.y as i64;
        let dz = abspos.z as i64 - self.origin.z as i64;
        if dx < 0 || dx >= 32 || dy < 0 || dy >= 32 || dz < 0 || dz >= 32 {
            return None;
        }
        self.block_at(BlockPosition { x: dx as i32, y: dy as i32, z: dz as i32 })
    }

    /// The origin of the chunk.
    pub fn origin(&self) -> (r: BlockPosition)
        ensures
            r == self.origin_spec(),
    {
        self.origin
    }

    /// Number of block types present in the chunk.
    pub fn present_type_count(&self) -> (r: usize)
        ensures
            r == self.count_entries().len(),
    {
        self.block_type_counts.len()
    }

    /// The `k`-th present block type, in the order of the count entries.
    pub fn present_type(&self, k: usize) -> (r: BlockId)
        requires
            k < self.count_entries().len(),
        ensures
            r == self.count_entries()[k as int].0,
    {
        self.block_type_counts[k].0
    }

    /// Whether the chunk changed since its meshes were last regenerated.
    pub fn is_dirty(&self) -> (r: bool)
        ensures
            r == self.dirty_spec(),
    {
        self.dirty
    }
}

impl Chunk {
    /// Whether every type present in the chunk is known to `registry`.
    pub open spec fn all_registered(&self, registry: &BlockRegistry) -> bool {
        forall|k: int|
            0 <= k < self.count_entries().len() ==> registry.has_block(
                #[trigger] self.count_entries()[k].0,
            )
    }

    /// What mesh regeneration makes of `before`: a clean chunk stays as it
    /// is; a dirty one keeps its blocks and counts, becomes clean, and holds
    /// one mesh per present type, in the order of its count entries.
    pub open spec fn regenerated(registry: &BlockRegistry, before: Chunk, after: Chunk) -> bool {
        if !before.dirty_spec() {
            after == before
        } else {
            &&& after.origin_spec() == before.origin_spec()
            &&& after.slots() == before.slots()
            &&& after.count_entries() == before.count_entries()
            &&& !after.dirty_spec()
            &&& after.mesh_entries() == before.present_types().map_values(
                |id: BlockId| (id, mesh_spec(registry, before.slots(), id)),
            )
        }
    }

    /// Whether the face on side `location` of the block at chunk-relative
    /// `relpos` is drawn.
    fn face_visible(
        &self,
        registry: &BlockRegistry,
        relpos: BlockPosition,
        location: BlockMeshLocation,
    ) -> (r: bool)
        requires
            self.wf(),
            registry.wf(),
            self.all_registered(registry),
            relpos.is_relpos(),
        ensures
            r == face_shown(registry, self.slots(), relpos, location),
    {
        if location == BlockMeshLocation::Inside {
            return true;
        }
        let n = relpos.neighbour(location);
        match self.block_at(n) {
            None => true,
            Some(nb) => {
                proof {
                    lemma_slot_relpos_index(n.x as int, n.y as int, n.z as int);
                    let i = slot_index(n.x as int, n.y as int, n.z as int);
                    lemma_count_in_positive(self.slots(), i, nb.block);
                    assert(has_entry(self.count_entries(), nb.block));
                    let k = choose|k: int|
                        0 <= k < self.count_entries().len() && self.count_entries()[k].0 == nb.block;
                    assert(registry.has_block(self.count_entries()[k].0));
                }
                let model = registry.block_model(nb.block);
                !model.has_face_at(location.opposite())
            },
        }
    }

    /// The mesh of all blocks of type `id` in this chunk.
    fn build_mesh(&self, registry: &BlockRegistry, id: BlockId) -> (r: Mesh)
        requires
            self.wf(),
            registry.wf(),
            self.all_registered(registry),
            registry.has_block(id),
        ensures
            r@ == mesh_spec(registry, self.slots(), id),
    {
        let model = registry.block_model(id);
        let texture = registry.block_texture(id);
        let locations = BlockMeshLocation::all();
        let ghost slots = self.slots();
        let mut vertices: Vec<Vertex> = Vec::new();
        let mut indices: Vec<u32> = Vec::new();
        let mut i: usize = 0;
        proof {
            assert(model.wf());
        }
        while i < CHUNK_BLOCK_COUNT
            invariant
                self.wf(),
                registry.wf(),
                self.all_registered(registry),
                slots == self.slots(),
                *model == registry.model_of(id),
                model.wf(),
                locations@ == all_locations(),
                i <= CHUNK_BLOCK_COUNT,
                vertices@ == mesh_prefix(registry, slots, id, i as nat).0,
                indices@ == mesh_prefix(registry, slots, id, i as nat).1,
                vertices@.len() <= i * MAX_MODEL_VERTICES,
            decreases CHUNK_BLOCK_COUNT - i,
        {
            let slot = self.blocks[i];
            match slot {
                Some(inst) => {
                    if inst.block == id {
                        let shift = vertices.len() as u32;
                        let ghost before = indices@;
                        let mut placed_vertices = model.vertices_at(inst.position);
                        vertices.append(&mut placed_vertices);
                        let relpos = BlockPosition {
                            x: (i % CHUNK_DIMEN) as i32,
                            y: ((i / CHUNK_DIMEN) % CHUNK_DIMEN) as i32,
                            z: (i / (CHUNK_DIMEN * CHUNK_DIMEN)) as i32,
                        };
                        proof {
                            lemma_slot_index_of_relpos(i as int);
                            assert(relpos == slot_relpos(i as int));
                        }
                        let mut k: usize = 0;
                        while k < locations.len()
                            invariant
                                self.wf(),
                                registry.wf(),
                                self.all_registered(registry),
                                slots == self.slots(),
                                locations@ == all_locations(),
                                relpos.is_relpos(),
                                shift <= u32::MAX - u16::MAX,
                                k <= locations@.len(),
                                indices@ == before + face_indices(
                                    registry,
                                    slots,
                                    relpos,
                                    *model,
                                    shift,
                                    k as nat,
                                ),
                            decreases locations@.len() - k,
                        {
                            let location = locations[k];
                            if self.face_visible(registry, relpos, location) {
                                let mut face = model.indices_of(location, shift);
                                indices.append(&mut face);
                            }
                            k = k + 1;
                            proof {
                                assert(indices@ =~= before + face_indices(
                                    registry,
                                    slots,
                                    relpos,
                                    *model,
                                    shift,
                                    k as nat,
                                ));
                            }
                        }
                    }
                },
                None => {},
            }
            i = i + 1;
        }
        Mesh::new(vertices, indices, texture)
    }

    /// Rebuilds the meshes of a dirty chunk: one per present block type, from
    /// the faces that are not hidden by a neighbour in this chunk. A clean
    /// chunk is left as it is. When a present type is unknown to `registry`
    /// it fails with `NotFound` and changes nothing.
    pub fn invalidate_all_meshes(&mut self, registry: &BlockRegistry) -> (r: Result<
        (),
        RegistryError,
    >)
        requires
            old(self).wf(),
            registry.wf(),
        ensures
            final(self).wf(),
            r is Ok <==> (!old(self).dirty_spec() || old(self).all_registered(registry)),
            r is Ok ==> Chunk::regenerated(registry, *old(self), *final(self)),
            r is Err ==> r == Err::<(), RegistryError>(RegistryError::NotFound) && *final(self)
                == *old(self),
    {
        if !self.dirty {
            return Ok(());
        }
        let mut k: usize = 0;
        while k < self.block_type_counts.len()
            invariant
                self.wf(),
                registry.wf(),
                *self == *old(self),
                old(self).dirty_spec(),
                k <= self.count_entries().len(),
                forall|j: int| 0 <= j < k ==> registry.has_block(#[trigger] self.count_entries()[j].0),
            decreases self.count_entries().len() - k,
        {
            if registry.block(self.block_type_counts[k].0).is_err() {
                assert(!registry.has_block(self.count_entries()[k as int].0));
                return Err(RegistryError::NotFound);
            }
            k = k + 1;
        }
        let mut meshes: Vec<(BlockId, Mesh)> = Vec::new();
        let mut k: usize = 0;
        while k < self.block_type_counts.len()
            invariant
                self.wf(),
                registry.wf(),
                self.all_registered(registry),
                k <= self.count_entries().len(),
                meshes@.len() == k,
                forall|j: int|
                    0 <= j < k ==> (#[trigger] meshes@[j]).0 == self.count_entries()[j].0
                        && meshes@[j].1@ == mesh_spec(registry, self.slots(), self.count_entries()[j].0),
            decreases self.count_entries().len() - k,
        {
            let id = self.block_type_counts[k].0;
            let mesh = self.build_mesh(registry, id);
            meshes.push((id, mesh));
            k = k + 1;
        }
        self.meshes = meshes;
        self.dirty = false;
        proof {
            assert(self.mesh_entries() =~= old(self).present_types().map_values(
                |id: BlockId| (id, mesh_spec(registry, old(self).slots(), id)),
            ));
        }
        Ok(())
    }

    /// The current meshes, one per block type present when they were built.
    pub fn meshes(&self) -> (r: Vec<&Mesh>)
        ensures
            r@.len() == self.mesh_entries().len(),
            forall|k: int| 0 <= k < r@.len() ==> (#[trigger] r@[k])@ == self.mesh_entries()[k].1,
    {
        let mut r: Vec<&Mesh> = Vec::new();
        let mut k: usize = 0;
        while k < self.meshes.len()
            invariant
                k <= self.meshes@.len(),
                r@.len() == k,
                forall|j: int| 0 <= j < k ==> (#[trigger] r@[j])@ == self.mesh_entries()[j].1,
            decreases self.meshes@.len() - k,
        {
            r.push(&self.meshes[k].1);
            k = k + 1;
        }
        r
    }
}

/// Whether the face on side `location` of the block at chunk-relative
/// `relpos` is drawn: always for `Inside`; otherwise when the neighbouring
/// slot in this chunk is empty or lies outside it, or when the neighbour's
/// model has no geometry on the facing side.
pub open spec fn face_shown(
    registry: &BlockRegistry,
    slots: Seq<Option<BlockInstance>>,
    relpos: BlockPosition,
    location: BlockMeshLocation,
) -> bool {
    location == BlockMeshLocation::Inside || match occupant(
        slots,
        relpos.x + location.dx(),
        relpos.y + location.dy(),
        relpos.z + location.dz(),
    ) {
        None => true,
        Some(n) => !registry.model_of(n.block).has_face(location.opposite_spec()),
    }
}

/// The indices a block contributes from the first `k` face directions.
pub open spec fn face_indices(
    registry: &BlockRegistry,
    slots: Seq<Option<BlockInstance>>,
    relpos: BlockPosition,
    model: BlockModel,
    shift: u32,
    k: nat,
) -> Seq<u32>
    decreases k,
{
    if k == 0 {
        Seq::empty()
    } else {
        let location = all_locations()[k - 1];
        face_indices(registry, slots, relpos, model, shift, (k - 1) as nat) + if face_shown(
            registry,
            slots,
            relpos,
            location,
        ) {
            shift_indices(model.face(location), shift)
        } else {
            Seq::empty()
        }
    }
}

/// Vertex and index buffers of type `id` over the first `n` slots: each
/// block of that type, in storage order, adds its translated vertices and,
/// shifted past the vertices before it, the indices of its drawn faces.
pub open spec fn mesh_prefix(
    registry: &BlockRegistry,
    slots: Seq<Option<BlockInstance>>,
    id: BlockId,
    n: nat,
) -> (Seq<Vertex>, Seq<u32>)
    decreases n,
{
    if n == 0 {
        (Seq::empty(), Seq::empty())
    } else {
        let prev = mesh_prefix(registry, slots, id, (n - 1) as nat);
        let slot = slots[n - 1];
        if holds(slot, id) {
            let model = registry.model_of(id);
            (
                prev.0 + translate_all(model.vertices_spec(), slot->Some_0.position),
                prev.1 + face_indices(
                    registry,
                    slots,
                    slot_relpos(n - 1),
                    model,
                    prev.0.len() as u32,
                    all_locations().len(),
                ),
            )
        } else {
            prev
        }
    }
}

/// The mesh of block type `id` over a chunk's slots.
pub open spec fn mesh_spec(
    registry: &BlockRegistry,
    slots: Seq<Option<BlockInstance>>,
    id: BlockId,
) -> MeshView {
    MeshView {
        vertices: mesh_prefix(registry, slots, id, CHUNK_BLOCK_COUNT as nat).0,
        indices: mesh_prefix(registry, slots, id, CHUNK_BLOCK_COUNT as nat).1,
        texture: registry.block_spec(id).texture,
    }
}

/// The slot content after placing `block` at `position`.
pub open spec fn placed(block: Option<BlockId>, position: BlockPosition) -> Option<BlockInstance> {
    match block {
        Some(id) => Some(BlockInstance { block: id, position }),
        None => None,
    }
}

/// Slot index and relative position are inverse to each other inside a chunk.
pub proof fn lemma_slot_relpos_index(x: int, y: int, z: int)
    requires
        in_chunk_range(x),
        in_chunk_range(y),
        in_chunk_range(z),
    ensures
        0 <= slot_index(x, y, z) < CHUNK_BLOCK_COUNT,
        slot_relpos(slot_index(x, y, z)) == (BlockPosition { x: x as i32, y: y as i32, z: z as i32 }),
{
    let i = slot_index(x, y, z);
    assert(0 <= i < 32768) by (nonlinear_arith)
        requires
            i == x + y * 32 + z * 1024,
            0 <= x < 32,
            0 <= y < 32,
            0 <= z < 32,
    {
    }
    assert(i % 32 == x && (i / 32) % 32 == y && i / 1024 == z) by (nonlinear_arith)
        requires
            i == x + y * 32 + z * 1024,
            0 <= x < 32,
            0 <= y < 32,
            0 <= z < 32,
    {
    }
}

/// Slot `i` stores a position inside the chunk whose slot is `i` again.
pub proof fn lemma_slot_index_of_relpos(i: int)
    requires
        0 <= i < CHUNK_BLOCK_COUNT,
    ensures
        in_chunk_range(slot_relpos(i).x as int),
        in_chunk_range(slot_relpos(i).y as int),
        in_chunk_range(slot_relpos(i).z as int),
        slot_index(slot_relpos(i).x as int, slot_relpos(i).y as int, slot_relpos(i).z as int) == i,
{
    assert(0 <= i % 32 < 32 && 0 <= (i / 32) % 32 < 32 && 0 <= i / 1024 < 32 && i % 32 + ((i / 32)
        % 32) * 32 + (i / 1024) * 1024 == i) by (nonlinear_arith)
        requires
            0 <= i < 32768,
    {
    }
}

/// Changing one slot changes each type's count by what left and what came.
pub proof fn lemma_count_in_update(
    s: Seq<Option<BlockInstance>>,
    k: int,
    v: Option<BlockInstance>,
    id: BlockId,
)
    requires
        0 <= k < s.len(),
    ensures
        count_in(s.update(k, v), id) as int == count_in(s, id) as int - (if holds(s[k], id) {
            1int
        } else {
            0int
        }) + (if holds(v, id) {
            1int
        } else {
            0int
        }),
    decreases s.len(),
{
    let t = s.update(k, v);
    if k == s.len() - 1 {
        assert(t.drop_last() =~= s.drop_last());
    } else {
        assert(t.drop_last() =~= s.drop_last().update(k, v));
        lemma_count_in_update(s.drop_last(), k, v, id);
    }
}

/// A type held by some slot has a positive count.
pub proof fn lemma_count_in_positive(s: Seq<Option<BlockInstance>>, k: int, id: BlockId)
    requires
        0 <= k < s.len(),
        holds(s[k], id),
    ensures
        count_in(s, id) > 0,
{
    lemma_count_in_empty(s, id);
}

/// A slot that does not hold `id` keeps its count below the number of slots.
pub proof fn lemma_count_in_not_full(s: Seq<Option<BlockInstance>>, k: int, id: BlockId)
    requires
        0 <= k < s.len(),
        !holds(s[k], id),
    ensures
        count_in(s, id) < s.len(),
    decreases s.len(),
{
    if k == s.len() - 1 {
        lemma_count_in_bound(s.drop_last(), id);
    } else {
        assert(s.drop_last()[k] == s[k]);
        lemma_count_in_not_full(s.drop_last(), k, id);
    }
}

/// A count never exceeds the number of slots.
pub proof fn lemma_count_in_bound(s: Seq<Option<BlockInstance>>, id: BlockId)
    ensures
        count_in(s, id) <= s.len(),
    decreases s.len(),
{
    if s.len() > 0 {
        lemma_count_in_bound(s.drop_last(), id);
    }
}

/// With distinct types, the count of an entry's type is that entry's count.
pub proof fn lemma_entry_count_at(e: Seq<(BlockId, u32)>, k: int)
    requires
        distinct_types(e),
        0 <= k < e.len(),
    ensures
        entry_count(e, e[k].0) == e[k].1,
{
    assert(has_entry(e, e[k].0));
}

/// Setting the count of one entry.
pub proof fn lemma_entries_update(e: Seq<(BlockId, u32)>, k: int, c: u32)
    requires
        distinct_types(e),
        0 <= k < e.len(),
    ensures
        distinct_types(e.update(k, (e[k].0, c))),
        forall|j: BlockId|
            #[trigger] entry_count(e.update(k, (e[k].0, c)), j) == if j == e[k].0 {
                c as nat
            } else {
                entry_count(e, j)
            },
{
    let f = e.update(k, (e[k].0, c));
    assert(distinct_types(f));
    assert forall|j: BlockId| #[trigger] entry_count(f, j) == if j == e[k].0 {
        c as nat
    } else {
        entry_count(e, j)
    } by {
        if j == e[k].0 {
            lemma_entry_count_at(f, k);
        } else if has_entry(e, j) {
            let w = choose|w: int| 0 <= w < e.len() && e[w].0 == j;
            lemma_entry_count_at(e, w);
            lemma_entry_count_at(f, w);
        } else {
            assert(!has_entry(f, j));
        }
    }
}

/// Appending an entry for a type that had none.
pub proof fn lemma_entries_push(e: Seq<(BlockId, u32)>, id: BlockId, c: u32)
    requires
        distinct_types(e),
        !has_entry(e, id),
    ensures
        distinct_types(e.push((id, c))),
        forall|j: BlockId|
            #[trigger] entry_count(e.push((id, c)), j) == if j == id {
                c as nat
            } else {
                entry_count(e, j)
            },
{
    let f = e.push((id, c));
    assert forall|i: int, j: int|
        0 <= i < f.len() && 0 <= j < f.len() && i != j implies f[i].0 != f[j].0 by {
        if i == e.len() {
            assert(f[j] == e[j]);
        } else if j == e.len() {
            assert(f[i] == e[i]);
        } else {
            assert(f[i] == e[i] && f[j] == e[j]);
        }
    }
    assert forall|j: BlockId| #[trigger] entry_count(f, j) == if j == id {
        c as nat
    } else {
        entry_count(e, j)
    } by {
        if j == id {
            lemma_entry_count_at(f, e.len() as int);
        } else if has_entry(e, j) {
            let w = choose|w: int| 0 <= w < e.len() && e[w].0 == j;
            lemma_entry_count_at(e, w);
            assert(f[w] == e[w]);
            lemma_entry_count_at(f, w);
        } else {
            assert forall|w: int| 0 <= w < f.len() implies f[w].0 != j by {
                if w < e.len() {
                    assert(f[w] == e[w]);
                }
            }
            assert(!has_entry(f, j));
        }
    }
}

/// Dropping one entry.
pub proof fn lemma_entries_remove(e: Seq<(BlockId, u32)>, k: int)
    requires
        distinct_types(e),
        0 <= k < e.len(),
    ensures
        distinct_types(e.remove(k)),
        forall|j: BlockId|
            #[trigger] entry_count(e.remove(k), j) == if j == e[k].0 {
                0
            } else {
                entry_count(e, j)
            },
{
    let f = e.remove(k);
    assert forall|i: int| 0 <= i < f.len() implies #[trigger] f[i] == e[if i < k {
        i
    } else {
        i + 1
    }] by {}
    assert(distinct_types(f)) by {
        assert forall|i: int, j: int|
            0 <= i < f.len() && 0 <= j < f.len() && i != j implies f[i].0 != f[j].0 by {
            assert(f[i] == e[if i < k {
                i
            } else {
                i + 1
            }]);
            assert(f[j] == e[if j < k {
                j
            } else {
                j + 1
            }]);
        }
    }
    assert forall|j: BlockId| #[trigger] entry_count(f, j) == if j == e[k].0 {
        0
    } else {
        entry_count(e, j)
    } by {
        if j == e[k].0 {
            assert forall|w: int| 0 <= w < f.len() implies f[w].0 != j by {
                assert(f[w] == e[if w < k {
                    w
                } else {
                    w + 1
                }]);
            }
            assert(!has_entry(f, j));
        } else if has_entry(e, j) {
            let w = choose|w: int| 0 <= w < e.len() && e[w].0 == j;
            lemma_entry_count_at(e, w);
            let v = if w < k {
                w
            } else {
                w - 1
            };
            assert(f[v] == e[w]);
            lemma_entry_count_at(f, v);
        } else {
            assert forall|w: int| 0 <= w < f.len() implies f[w].0 != j by {
                assert(f[w] == e[if w < k {
                    w
                } else {
                    w + 1
                }]);
            }
            assert(!has_entry(f, j));
        }
    }
}

/// No slot of `slots` holds type `id` exactly when its count is zero.
pub proof fn lemma_count_in_empty(slots: Seq<Option<BlockInstance>>, id: BlockId)
    ensures
        (count_in(slots, id) == 0) <==> (forall|i: int|
            0 <= i < slots.len() ==> !holds(#[trigger] slots[i], id)),
    decreases slots.len(),
{
    if slots.len() > 0 {
        lemma_count_in_empty(slots.drop_last(), id);
        if count_in(slots, id) == 0 {
            assert forall|i: int| 0 <= i < slots.len() implies !holds(#[trigger] slots[i], id) by {
                if i < slots.len() - 1 {
                    assert(slots[i] == slots.drop_last()[i]);
                }
            }
        } else {
            if forall|i: int| 0 <= i < slots.len() ==> !holds(#[trigger] slots[i], id) {
                assert forall|i: int| 0 <= i < slots.drop_last().len() implies !holds(
                    #[trigger] slots.drop_last()[i],
                    id,
                ) by {
                    assert(slots[i] == slots.drop_last()[i]);
                }
                assert(!holds(slots[slots.len() - 1], id));
            }
        }
    }
}

} // verus!
