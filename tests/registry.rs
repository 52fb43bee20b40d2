use bloom::{Block, BlockMeshLocation, BlockModel, BlockPosition, BlockRegistry, ModelId, RegistryError, TextureId, Vertex};

#[test]
fn registered_blocks_are_found_by_name() {
    let mut r = BlockRegistry::new();
    let m = r.register_model("simple", BlockModel::model_simple()).unwrap();
    assert_eq!(m, ModelId(0));
    let stone = r.register_block(Block::new("stone", m, TextureId(7))).unwrap();
    let dirt = r.register_block(Block::new("dirt", m, TextureId(8))).unwrap();
    assert_eq!(r.find_block("stone"), Ok(stone));
    assert_eq!(r.find_block("dirt"), Ok(dirt));
    assert_ne!(stone, dirt);
    assert_eq!(r.block(dirt).unwrap().name(), "dirt");
    assert_eq!(r.block(dirt).unwrap().model(), m);
    assert_eq!(r.block_texture(dirt), TextureId(8));
    assert_eq!(r.find_model("simple"), Ok(m));
}

#[test]
fn unknown_names_are_not_found() {
    let mut r = BlockRegistry::new();
    assert_eq!(r.find_block("stone"), Err(RegistryError::NotFound));
    assert_eq!(r.find_model("simple"), Err(RegistryError::NotFound));
    let m = r.register_model("simple", BlockModel::model_simple()).unwrap();
    r.register_block(Block::new("stone", m, TextureId(0))).unwrap();
    assert_eq!(r.find_block("ston"), Err(RegistryError::NotFound));
    assert_eq!(r.find_block("stone "), Err(RegistryError::NotFound));
    assert!(r.block(bloom::BlockId(5)).is_err());
}

#[test]
fn duplicate_names_are_refused_without_change() {
    let mut r = BlockRegistry::new();
    let m = r.register_model("simple", BlockModel::model_simple()).unwrap();
    assert_eq!(
        r.register_model("simple", BlockModel::model_side_vert()),
        Err(RegistryError::Duplicate)
    );
    let stone = r.register_block(Block::new("stone", m, TextureId(0))).unwrap();
    assert_eq!(
        r.register_block(Block::new("stone", m, TextureId(3))),
        Err(RegistryError::Duplicate)
    );
    assert_eq!(r.find_block("stone"), Ok(stone));
    assert_eq!(r.block_texture(stone), TextureId(0));
}

#[test]
fn block_with_unknown_model_is_refused() {
    let mut r = BlockRegistry::new();
    assert_eq!(
        r.register_block(Block::new("stone", ModelId(0), TextureId(0))),
        Err(RegistryError::NotFound)
    );
    assert_eq!(r.find_block("stone"), Err(RegistryError::NotFound));
}

#[test]
fn preset_models_have_the_expected_faces() {
    let simple = BlockModel::model_simple();
    let clear = BlockModel::model_simple_transparent();
    let side = BlockModel::model_side_vert();
    for l in BlockMeshLocation::all() {
        let transparent = matches!(
            l,
            BlockMeshLocation::TransparentNorth
                | BlockMeshLocation::TransparentSouth
                | BlockMeshLocation::TransparentEast
                | BlockMeshLocation::TransparentWest
                | BlockMeshLocation::TransparentTop
                | BlockMeshLocation::TransparentBottom
        );
        let inside = l == BlockMeshLocation::Inside;
        assert_eq!(simple.has_face_at(l), !transparent && !inside);
        assert_eq!(side.has_face_at(l), !transparent && !inside);
        assert_eq!(clear.has_face_at(l), transparent);
    }
    assert_eq!(simple.draw_category(), 0);
    assert_eq!(clear.draw_category(), 1);
    assert_eq!(side.draw_category(), 0);
}

#[test]
fn indices_are_shifted_and_widened() {
    let simple = BlockModel::model_simple();
    assert_eq!(simple.indices_of(BlockMeshLocation::North, 0), vec![16, 18, 19, 16, 19, 17]);
    assert_eq!(simple.indices_of(BlockMeshLocation::Top, 100_000), vec![100_009, 100_008, 100_010, 100_009, 100_010, 100_011]);
    assert!(simple.indices_of(BlockMeshLocation::Inside, 24).is_empty());
    let clear = BlockModel::model_simple_transparent();
    assert_eq!(clear.indices_of(BlockMeshLocation::TransparentEast, 24), vec![24, 25, 26, 24, 26, 27]);
}

#[test]
fn vertices_are_translated_to_the_block() {
    let side = BlockModel::model_side_vert();
    let vs = side.vertices_at(BlockPosition { x: -1, y: 2, z: 0 });
    assert_eq!(vs.len(), 24);
    assert_eq!(vs[0], Vertex::new(-16, 32, 16, 0, 16));
    assert_eq!(vs[1], Vertex::new(0, 32, 16, 8, 16));
    assert_eq!(vs[8], Vertex::new(0, 48, 16, 16, 16));
    let simple = BlockModel::model_simple();
    let at_origin = simple.vertices_at(BlockPosition { x: 0, y: 0, z: 0 });
    assert_eq!(at_origin[2], Vertex::new(16, 16, 16, 16, 0));
}
