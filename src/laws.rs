//! Properties that relate several chunk operations.

use vstd::prelude::*;

use crate::block::{BlockId, BlockInstance};
use crate::chunk::{
    Chunk, count_in, entry_count, face_shown, lemma_count_in_update, lemma_slot_relpos_index,
    occupant, slot_index,
};
use crate::model::BlockMeshLocation;
use crate::position::BlockPosition;
use crate::registry::BlockRegistry;

verus! {

/// Stored counts match the storage: in every chunk that `Chunk::new` and any
/// sequence of `Chunk::set_block` calls produce, the count stored for each
/// block type is the number of slots holding that type, and every stored
/// count is positive (a type whose count drops to zero loses its entry).
pub proof fn lemma_counts_match_storage(c: Chunk)
    requires
        c.wf(),
    ensures
        forall|id: BlockId| #[trigger] entry_count(c.count_entries(), id) == count_in(c.slots(), id),
        forall|k: int| 0 <= k < c.count_entries().len() ==> #[trigger] c.count_entries()[k].1 > 0,
{
}

/// The facing side of the facing side is the side itself, one step away
/// in the opposite direction.
pub proof fn lemma_opposite_involution(location: BlockMeshLocation)
    ensures
        location.opposite_spec().opposite_spec() == location,
        location.opposite_spec().dx() == -location.dx(),
        location.opposite_spec().dy() == -location.dy(),
        location.opposite_spec().dz() == -location.dz(),
{
}

/// Face culling: when two blocks sit in neighbouring slots and both models
/// have geometry on the sides that touch, neither block draws its touching
/// face.
pub proof fn lemma_touching_faces_hidden(
    registry: &BlockRegistry,
    slots: Seq<Option<BlockInstance>>,
    relpos: BlockPosition,
    location: BlockMeshLocation,
)
    requires
        location != BlockMeshLocation::Inside,
        relpos.has_neighbour(location),
        relpos.neighbour_spec(location).has_neighbour(location.opposite_spec()),
        occupant(slots, relpos.x as int, relpos.y as int, relpos.z as int) is Some,
        occupant(
            slots,
            relpos.neighbour_spec(location).x as int,
            relpos.neighbour_spec(location).y as int,
            relpos.neighbour_spec(location).z as int,
        ) is Some,
        registry.model_of(
            occupant(slots, relpos.x as int, relpos.y as int, relpos.z as int)->Some_0.block,
        ).has_face(location),
        registry.model_of(
            occupant(
                slots,
                relpos.neighbour_spec(location).x as int,
                relpos.neighbour_spec(location).y as int,
                relpos.neighbour_spec(location).z as int,
            )->Some_0.block,
        ).has_face(location.opposite_spec()),
    ensures
        !face_shown(registry, slots, relpos, location),
        !face_shown(
            registry,
            slots,
            relpos.neighbour_spec(location),
            location.opposite_spec(),
        ),
{
    lemma_opposite_involution(location);
}

/// Face culling: a side of a block whose neighbouring slot is empty, or lies
/// outside the chunk, is drawn.
pub proof fn lemma_open_face_shown(
    registry: &BlockRegistry,
    slots: Seq<Option<BlockInstance>>,
    relpos: BlockPosition,
    location: BlockMeshLocation,
)
    requires
        occupant(
            slots,
            relpos.x + location.dx(),
            relpos.y + location.dy(),
            relpos.z + location.dz(),
        ) is None,
    ensures
        face_shown(registry, slots, relpos, location),
{
}

/// Regenerating twice without a change in between: the second call leaves
/// the chunk, its meshes and its clean flag, exactly as the first left it.
pub proof fn lemma_regeneration_idempotent(
    registry: &BlockRegistry,
    first: Chunk,
    second: Chunk,
    third: Chunk,
)
    requires
        Chunk::regenerated(registry, first, second),
        Chunk::regenerated(registry, second, third),
    ensures
        third == second,
        !third.dirty_spec(),
        third.mesh_entries() == second.mesh_entries(),
{
}

/// Placing then clearing: after placing type `id` at absolute position `p`
/// of a chunk, `block_at_abs(p)` is a block of type `id` at `p`; after
/// clearing it again, `block_at_abs(p)` is empty and the count of `id` is one
/// lower than after the placement.
pub proof fn lemma_place_then_clear(
    c0: Chunk,
    c1: Chunk,
    c2: Chunk,
    p: BlockPosition,
    id: BlockId,
)
    requires
        c0.wf(),
        c1.wf(),
        c2.wf(),
        p.can_shift(-c0.origin_spec().x, -c0.origin_spec().y, -c0.origin_spec().z),
        p.shifted(-c0.origin_spec().x, -c0.origin_spec().y, -c0.origin_spec().z).is_relpos(),
        Chunk::block_set(
            c0,
            p.shifted(-c0.origin_spec().x, -c0.origin_spec().y, -c0.origin_spec().z),
            Some(id),
            c1,
        ),
        Chunk::block_set(
            c1,
            p.shifted(-c0.origin_spec().x, -c0.origin_spec().y, -c0.origin_spec().z),
            None,
            c2,
        ),
    ensures
        c1.block_at_abs_spec(p) == Some(BlockInstance { block: id, position: p }),
        c2.block_at_abs_spec(p) is None,
        c2.type_count(id) + 1 == c1.type_count(id),
{
    let o = c0.origin_spec();
    let r = p.shifted(-o.x, -o.y, -o.z);
    lemma_slot_relpos_index(r.x as int, r.y as int, r.z as int);
    let i = slot_index(r.x as int, r.y as int, r.z as int);
    assert(c1.slots()[i] == Some(BlockInstance { block: id, position: p }));
    lemma_count_in_update(c1.slots(), i, None, id);
    assert(c2.slots() == c1.slots().update(i, None));
}

} // verus!
