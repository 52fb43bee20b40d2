use bloom::{Block, BlockModel, BlockPosition, BlockRegistry, RegistryError, TextureId, World, BlockId};

fn pos(x: i32, y: i32, z: i32) -> BlockPosition {
    BlockPosition { x, y, z }
}

fn registry() -> (BlockRegistry, BlockId) {
    let mut r = BlockRegistry::new();
    let m = r.register_model("simple", BlockModel::model_simple()).unwrap();
    let stone = r.register_block(Block::new("stone", m, TextureId(0))).unwrap();
    (r, stone)
}

#[test]
fn writes_create_chunks_lazily() {
    let (_r, stone) = registry();
    let mut w = World::new();
    assert!(w.chunk(pos(0, 0, 0)).is_none());
    w.set_block(pos(1, 1, 1), Some(stone));
    w.set_block(pos(40, 1, 1), Some(stone));
    w.set_block(pos(2, 1, 1), None);
    let c = w.chunk(pos(0, 0, 0)).unwrap();
    assert_eq!(c.block_count(stone), 1);
    assert!(c.is_dirty());
    let c2 = w.chunk(pos(32, 0, 0)).unwrap();
    assert_eq!(c2.block_at(pos(8, 1, 1)).unwrap().position(), pos(40, 1, 1));
}

#[test]
fn negative_positions_go_to_the_chunk_below() {
    let (_r, stone) = registry();
    let mut w = World::new();
    w.set_block(pos(-1, -1, -1), Some(stone));
    assert!(w.chunk(pos(0, 0, 0)).is_none());
    let c = w.chunk(pos(-32, -32, -32)).unwrap();
    let b = c.block_at(pos(31, 31, 31)).unwrap();
    assert_eq!(b.position(), pos(-1, -1, -1));
    assert_eq!(c.block_at_abs(pos(-1, -1, -1)), Some(b));
}

#[test]
fn placing_then_clearing_in_the_world() {
    let (_r, stone) = registry();
    let mut w = World::new();
    let p = pos(-100, 5, 70);
    w.set_block(p, Some(stone));
    let origin = p.chunk_origin();
    assert_eq!(w.chunk(origin).unwrap().block_at_abs(p).unwrap().position(), p);
    assert_eq!(w.chunk(origin).unwrap().block_count(stone), 1);
    w.set_block(p, None);
    assert_eq!(w.chunk(origin).unwrap().block_at_abs(p), None);
    assert_eq!(w.chunk(origin).unwrap().block_count(stone), 0);
}

#[test]
fn meshes_regenerate_every_dirty_chunk() {
    let (r, stone) = registry();
    let mut w = World::new();
    w.set_block(pos(1, 1, 1), Some(stone));
    w.set_block(pos(1, 0, 1), Some(stone));
    w.set_block(pos(100, 0, 0), Some(stone));
    {
        let meshes = w.meshes(&r, |_| true).unwrap();
        assert_eq!(meshes.len(), 2);
        assert_eq!(meshes[0].index_count(), 60);
        assert_eq!(meshes[1].index_count(), 36);
    }
    assert!(!w.chunk(pos(0, 0, 0)).unwrap().is_dirty());
    assert!(!w.chunk(pos(96, 0, 0)).unwrap().is_dirty());
}

#[test]
fn boundary_faces_are_not_culled_across_chunks() {
    let (r, stone) = registry();
    let mut w = World::new();
    w.set_block(pos(31, 0, 0), Some(stone));
    w.set_block(pos(32, 0, 0), Some(stone));
    let meshes = w.meshes(&r, |_| true).unwrap();
    assert_eq!(meshes.len(), 2);
    assert_eq!(meshes[0].index_count(), 36);
    assert_eq!(meshes[1].index_count(), 36);
}

#[test]
fn unknown_type_fails_meshes_without_change() {
    let (r, stone) = registry();
    let mut w = World::new();
    w.set_block(pos(0, 0, 0), Some(stone));
    w.set_block(pos(64, 0, 0), Some(BlockId(3)));
    assert_eq!(w.meshes(&r, |_| true).err(), Some(RegistryError::NotFound));
    assert!(w.chunk(pos(0, 0, 0)).unwrap().is_dirty());
    assert!(w.chunk(pos(64, 0, 0)).unwrap().is_dirty());
}

#[test]
fn only_visible_chunks_are_regenerated_and_listed() {
    let (r, stone) = registry();
    let mut w = World::new();
    w.set_block(pos(1, 1, 1), Some(stone));
    w.set_block(pos(100, 0, 0), Some(stone));
    w.set_block(pos(101, 0, 0), Some(stone));
    {
        let meshes = w.meshes(&r, |origin| origin.x >= 32).unwrap();
        assert_eq!(meshes.len(), 1);
        assert_eq!(meshes[0].index_count(), 60);
    }
    assert!(w.chunk(pos(0, 0, 0)).unwrap().is_dirty());
    assert!(!w.chunk(pos(96, 0, 0)).unwrap().is_dirty());
    let meshes = w.meshes(&r, |_| true).unwrap();
    assert_eq!(meshes.len(), 2);
    assert_eq!(meshes[0].index_count(), 36);
}

#[test]
fn invisible_chunk_with_unknown_type_does_not_fail() {
    let (r, stone) = registry();
    let mut w = World::new();
    w.set_block(pos(0, 0, 0), Some(stone));
    w.set_block(pos(64, 0, 0), Some(BlockId(3)));
    let meshes = w.meshes(&r, |origin| origin.x == 0).unwrap();
    assert_eq!(meshes.len(), 1);
    assert_eq!(meshes[0].index_count(), 36);
}
