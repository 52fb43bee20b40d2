use bloom::{
    Block, BlockId, BlockInstance, BlockModel, BlockPosition, BlockRegistry, Chunk, RegistryError,
    TextureId, Vertex,
};

fn pos(x: i32, y: i32, z: i32) -> BlockPosition {
    BlockPosition { x, y, z }
}

struct Types {
    registry: BlockRegistry,
    stone: BlockId,
    glass: BlockId,
    log: BlockId,
}

fn types() -> Types {
    let mut registry = BlockRegistry::new();
    let simple = registry.register_model("simple", BlockModel::model_simple()).unwrap();
    let clear = registry
        .register_model("simple_transparent", BlockModel::model_simple_transparent())
        .unwrap();
    let side = registry.register_model("side_vert", BlockModel::model_side_vert()).unwrap();
    let stone = registry.register_block(Block::new("stone", simple, TextureId(0))).unwrap();
    let glass = registry.register_block(Block::new("glass", clear, TextureId(1))).unwrap();
    let log = registry.register_block(Block::new("oak_log", side, TextureId(2))).unwrap();
    Types { registry, stone, glass, log }
}

const NORTH: [u32; 6] = [16, 18, 19, 16, 19, 17];
const SOUTH: [u32; 6] = [22, 20, 21, 22, 21, 23];
const EAST: [u32; 6] = [0, 1, 2, 0, 2, 3];
const WEST: [u32; 6] = [5, 4, 7, 5, 7, 6];
const TOP: [u32; 6] = [9, 8, 10, 9, 10, 11];
const BOTTOM: [u32; 6] = [14, 15, 13, 14, 13, 12];

fn shifted(faces: &[[u32; 6]], shift: u32) -> Vec<u32> {
    faces.iter().flat_map(|f| f.iter().map(move |i| i + shift)).collect()
}

#[test]
fn new_chunk_is_empty_and_clean() {
    let c = Chunk::new(pos(32, -64, 0));
    assert_eq!(c.origin(), pos(32, -64, 0));
    assert!(!c.is_dirty());
    assert_eq!(c.present_type_count(), 0);
    assert_eq!(c.block_at(pos(0, 0, 0)), None);
    assert_eq!(c.block_at(pos(31, 31, 31)), None);
    assert!(c.meshes().is_empty());
}

#[test]
fn set_block_places_instance_at_absolute_position() {
    let t = types();
    let mut c = Chunk::new(pos(32, -64, 0));
    c.set_block(pos(1, 2, 3), Some(t.stone));
    assert!(c.is_dirty());
    assert_eq!(
        c.block_at(pos(1, 2, 3)),
        Some(BlockInstance { block: t.stone, position: pos(33, -62, 3) })
    );
    assert_eq!(c.block_at_abs(pos(33, -62, 3)).unwrap().position(), pos(33, -62, 3));
    assert_eq!(c.block_at_abs(pos(33, -62, 3)).unwrap().block_type(), t.stone);
    assert_eq!(c.block_count(t.stone), 1);
    assert_eq!(c.block_count(t.glass), 0);
}

#[test]
fn counts_follow_every_placement_and_removal() {
    let t = types();
    let mut c = Chunk::new(pos(0, 0, 0));
    c.set_block(pos(0, 0, 0), Some(t.stone));
    c.set_block(pos(1, 0, 0), Some(t.stone));
    c.set_block(pos(2, 0, 0), Some(t.glass));
    assert_eq!(c.block_count(t.stone), 2);
    assert_eq!(c.block_count(t.glass), 1);
    assert_eq!(c.present_type_count(), 2);
    c.set_block(pos(0, 0, 0), Some(t.glass));
    assert_eq!(c.block_count(t.stone), 1);
    assert_eq!(c.block_count(t.glass), 2);
    c.set_block(pos(1, 0, 0), None);
    assert_eq!(c.block_count(t.stone), 0);
    assert_eq!(c.present_type_count(), 1);
    assert_eq!(c.present_type(0), t.glass);
    c.set_block(pos(5, 5, 5), None);
    assert_eq!(c.block_count(t.glass), 2);
    c.set_block(pos(0, 0, 0), Some(t.glass));
    assert_eq!(c.block_count(t.glass), 2);
}

#[test]
fn out_of_range_writes_change_nothing() {
    let t = types();
    let mut c = Chunk::new(pos(0, 0, 0));
    c.set_block(pos(32, 0, 0), Some(t.stone));
    c.set_block(pos(0, -1, 0), Some(t.stone));
    c.set_block(pos(0, 0, 40), None);
    assert!(!c.is_dirty());
    assert_eq!(c.present_type_count(), 0);
    assert_eq!(c.block_count(t.stone), 0);
    assert_eq!(c.block_at(pos(32, 0, 0)), None);
    assert_eq!(c.block_at(pos(0, 0, 0)), None);
}

#[test]
fn out_of_range_write_keeps_existing_state() {
    let t = types();
    let mut c = Chunk::new(pos(0, 0, 0));
    c.set_block(pos(3, 3, 3), Some(t.log));
    c.invalidate_all_meshes(&t.registry).unwrap();
    c.set_block(pos(32, 0, 0), Some(t.stone));
    assert!(!c.is_dirty());
    assert_eq!(c.block_count(t.log), 1);
    assert_eq!(c.block_count(t.stone), 0);
    assert_eq!(c.meshes().len(), 1);
}

#[test]
fn reads_outside_the_chunk_are_empty() {
    let t = types();
    let mut c = Chunk::new(pos(0, 0, 0));
    c.set_block(pos(31, 0, 0), Some(t.stone));
    assert_eq!(c.block_at(pos(32, 0, 0)), None);
    assert_eq!(c.block_at(pos(-1, 0, 0)), None);
    assert_eq!(c.block_at_abs(pos(i32::MIN, 0, 0)), None);
    assert_eq!(c.block_at_abs(pos(i32::MAX, i32::MAX, i32::MAX)), None);
}

#[test]
fn place_then_clear_round_trip() {
    let t = types();
    let mut c = Chunk::new(pos(-32, 0, 64));
    let p = pos(-20, 7, 95);
    let rel = p.minus(c.origin());
    c.set_block(rel, Some(t.glass));
    let found = c.block_at_abs(p).unwrap();
    assert_eq!(found.position(), p);
    assert_eq!(found.block_type(), t.glass);
    assert_eq!(c.block_count(t.glass), 1);
    c.set_block(rel, None);
    assert_eq!(c.block_at_abs(p), None);
    assert_eq!(c.block_count(t.glass), 0);
}

#[test]
fn single_block_mesh_has_all_six_faces() {
    let t = types();
    let mut c = Chunk::new(pos(0, 0, 0));
    c.set_block(pos(2, 3, 4), Some(t.stone));
    assert_eq!(c.invalidate_all_meshes(&t.registry), Ok(()));
    assert!(!c.is_dirty());
    let meshes = c.meshes();
    assert_eq!(meshes.len(), 1);
    let mesh = meshes[0];
    assert_eq!(mesh.vertices().len(), 24);
    assert_eq!(mesh.index_count(), 36);
    assert_eq!(mesh.texture(), TextureId(0));
    assert_eq!(mesh.indices(), &shifted(&[NORTH, SOUTH, EAST, WEST, TOP, BOTTOM], 0));
    assert_eq!(mesh.vertices()[0], Vertex::new(32, 48, 64 + 16, 0, 16));
}

#[test]
fn stacked_stone_blocks_hide_the_shared_faces() {
    let t = types();
    let mut c = Chunk::new(pos(0, 0, 0));
    c.set_block(pos(1, 1, 1), Some(t.stone));
    c.set_block(pos(1, 0, 1), Some(t.stone));
    c.invalidate_all_meshes(&t.registry).unwrap();
    let meshes = c.meshes();
    assert_eq!(meshes.len(), 1);
    let mesh = meshes[0];
    assert_eq!(mesh.vertices().len(), 48);
    assert_eq!(mesh.index_count(), 60);
    let mut expected = shifted(&[NORTH, SOUTH, EAST, WEST, BOTTOM], 0);
    expected.extend(shifted(&[NORTH, SOUTH, EAST, WEST, TOP], 24));
    assert_eq!(mesh.indices(), &expected);
}

#[test]
fn face_next_to_empty_slot_or_chunk_edge_is_drawn() {
    let t = types();
    let mut c = Chunk::new(pos(0, 0, 0));
    c.set_block(pos(0, 0, 0), Some(t.stone));
    c.set_block(pos(31, 31, 31), Some(t.stone));
    c.invalidate_all_meshes(&t.registry).unwrap();
    assert_eq!(c.meshes()[0].index_count(), 72);
}

#[test]
fn opaque_and_transparent_neighbours_do_not_hide_each_other() {
    let t = types();
    let mut c = Chunk::new(pos(0, 0, 0));
    c.set_block(pos(4, 4, 4), Some(t.stone));
    c.set_block(pos(5, 4, 4), Some(t.glass));
    c.invalidate_all_meshes(&t.registry).unwrap();
    let meshes = c.meshes();
    assert_eq!(meshes.len(), 2);
    assert_eq!(meshes[0].index_count(), 36);
    assert_eq!(meshes[1].index_count(), 36);
    assert_eq!(meshes[1].texture(), TextureId(1));
}

#[test]
fn adjacent_transparent_blocks_hide_their_shared_faces() {
    let t = types();
    let mut c = Chunk::new(pos(0, 0, 0));
    c.set_block(pos(4, 4, 4), Some(t.glass));
    c.set_block(pos(4, 4, 5), Some(t.glass));
    c.invalidate_all_meshes(&t.registry).unwrap();
    let mesh = c.meshes()[0];
    assert_eq!(mesh.index_count(), 60);
    let mut expected = shifted(&[NORTH, SOUTH, WEST, TOP, BOTTOM], 0);
    expected.extend(shifted(&[NORTH, SOUTH, EAST, TOP, BOTTOM], 24));
    assert_eq!(mesh.indices(), &expected);
}

#[test]
fn one_mesh_per_present_type() {
    let t = types();
    let mut c = Chunk::new(pos(0, 0, 0));
    c.set_block(pos(0, 0, 0), Some(t.log));
    c.set_block(pos(10, 0, 0), Some(t.stone));
    c.set_block(pos(20, 0, 0), Some(t.log));
    c.invalidate_all_meshes(&t.registry).unwrap();
    let meshes = c.meshes();
    assert_eq!(meshes.len(), 2);
    assert_eq!(meshes[0].texture(), TextureId(2));
    assert_eq!(meshes[0].vertices().len(), 48);
    assert_eq!(meshes[0].index_count(), 72);
    assert_eq!(meshes[1].texture(), TextureId(0));
    c.set_block(pos(10, 0, 0), None);
    c.invalidate_all_meshes(&t.registry).unwrap();
    assert_eq!(c.meshes().len(), 1);
}

#[test]
fn regenerating_twice_changes_nothing() {
    let t = types();
    let mut c = Chunk::new(pos(0, 0, 0));
    c.set_block(pos(1, 1, 1), Some(t.stone));
    c.set_block(pos(1, 2, 1), Some(t.glass));
    c.set_block(pos(2, 1, 1), Some(t.log));
    c.invalidate_all_meshes(&t.registry).unwrap();
    let first: Vec<(Vec<Vertex>, Vec<u32>, TextureId)> = c
        .meshes()
        .iter()
        .map(|m| (m.vertices().clone(), m.indices().clone(), m.texture()))
        .collect();
    assert!(!c.is_dirty());
    c.invalidate_all_meshes(&t.registry).unwrap();
    assert!(!c.is_dirty());
    let second: Vec<(Vec<Vertex>, Vec<u32>, TextureId)> = c
        .meshes()
        .iter()
        .map(|m| (m.vertices().clone(), m.indices().clone(), m.texture()))
        .collect();
    assert_eq!(first, second);
}

#[test]
fn clean_chunk_keeps_meshes_even_with_other_registry() {
    let t = types();
    let mut c = Chunk::new(pos(0, 0, 0));
    c.set_block(pos(1, 1, 1), Some(t.stone));
    c.invalidate_all_meshes(&t.registry).unwrap();
    let empty = BlockRegistry::new();
    assert_eq!(c.invalidate_all_meshes(&empty), Ok(()));
    assert_eq!(c.meshes().len(), 1);
}

#[test]
fn unknown_block_type_fails_regeneration_without_change() {
    let t = types();
    let mut c = Chunk::new(pos(0, 0, 0));
    c.set_block(pos(1, 1, 1), Some(BlockId(99)));
    assert_eq!(c.invalidate_all_meshes(&t.registry), Err(RegistryError::NotFound));
    assert!(c.is_dirty());
    assert!(c.meshes().is_empty());
    assert_eq!(c.block_count(BlockId(99)), 1);
}
