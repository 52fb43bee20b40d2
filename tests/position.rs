use bloom::{BlockMeshLocation, BlockPosition};

fn pos(x: i32, y: i32, z: i32) -> BlockPosition {
    BlockPosition { x, y, z }
}

#[test]
fn steps_move_one_block_along_their_axis() {
    let p = pos(3, -4, 5);
    assert_eq!(p.north(), pos(4, -4, 5));
    assert_eq!(p.south(), pos(2, -4, 5));
    assert_eq!(p.east(), pos(3, -4, 6));
    assert_eq!(p.west(), pos(3, -4, 4));
    assert_eq!(p.top(), pos(3, -3, 5));
    assert_eq!(p.bottom(), pos(3, -5, 5));
}

#[test]
fn neighbour_follows_direction_and_inside_is_self() {
    let p = pos(10, 20, 30);
    assert_eq!(p.neighbour(BlockMeshLocation::North), pos(11, 20, 30));
    assert_eq!(p.neighbour(BlockMeshLocation::TransparentNorth), pos(11, 20, 30));
    assert_eq!(p.neighbour(BlockMeshLocation::TransparentBottom), pos(10, 19, 30));
    assert_eq!(p.neighbour(BlockMeshLocation::West), pos(10, 20, 29));
    assert_eq!(p.neighbour(BlockMeshLocation::Inside), p);
}

#[test]
fn relpos_validity_is_half_open_range() {
    assert!(pos(0, 0, 0).is_valid_chunk_relpos());
    assert!(pos(31, 31, 31).is_valid_chunk_relpos());
    assert!(!pos(32, 0, 0).is_valid_chunk_relpos());
    assert!(!pos(0, 32, 0).is_valid_chunk_relpos());
    assert!(!pos(0, 0, 32).is_valid_chunk_relpos());
    assert!(!pos(-1, 0, 0).is_valid_chunk_relpos());
    assert!(!pos(0, 0, -1).is_valid_chunk_relpos());
}

#[test]
fn opposite_pairs_directions() {
    assert_eq!(BlockMeshLocation::North.opposite(), BlockMeshLocation::South);
    assert_eq!(BlockMeshLocation::East.opposite(), BlockMeshLocation::West);
    assert_eq!(BlockMeshLocation::Bottom.opposite(), BlockMeshLocation::Top);
    assert_eq!(
        BlockMeshLocation::TransparentTop.opposite(),
        BlockMeshLocation::TransparentBottom
    );
    assert_eq!(
        BlockMeshLocation::TransparentWest.opposite(),
        BlockMeshLocation::TransparentEast
    );
    assert_eq!(BlockMeshLocation::Inside.opposite(), BlockMeshLocation::Inside);
    for l in BlockMeshLocation::all() {
        assert_eq!(l.opposite().opposite(), l);
    }
}

#[test]
fn all_lists_thirteen_directions_in_order() {
    let all = BlockMeshLocation::all();
    assert_eq!(all.len(), 13);
    assert_eq!(all[0], BlockMeshLocation::North);
    assert_eq!(all[6], BlockMeshLocation::TransparentNorth);
    assert_eq!(all[12], BlockMeshLocation::Inside);
}

#[test]
fn floor_division_rounds_towards_negative_infinity() {
    let p = pos(-1, 33, -32);
    assert_eq!(p.div_floor(32), pos(-1, 1, -1));
    assert_eq!(p.rem_floor(32), pos(31, 1, 0));
    assert_eq!(pos(7, -7, 0).div_floor(2), pos(3, -4, 0));
    assert_eq!(pos(7, -7, 0).rem_floor(2), pos(1, 1, 0));
}

#[test]
fn chunk_origin_rounds_down_to_multiples_of_chunk_size() {
    assert_eq!(pos(0, 31, 32).chunk_origin(), pos(0, 0, 32));
    assert_eq!(pos(-1, -32, -33).chunk_origin(), pos(-32, -32, -64));
    assert_eq!(pos(i32::MAX, i32::MIN, 100).chunk_origin(), pos(i32::MAX - 31, i32::MIN, 96));
}

#[test]
fn plus_and_minus_are_componentwise() {
    assert_eq!(pos(1, 2, 3).plus(pos(10, -20, 30)), pos(11, -18, 33));
    assert_eq!(pos(1, 2, 3).minus(pos(10, -20, 30)), pos(-9, 22, -27));
}

#[test]
fn tuple_converts_to_position() {
    let p: BlockPosition = (1, -2, 3).into();
    assert_eq!(p, pos(1, -2, 3));
}
