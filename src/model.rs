//! Block geometry: face directions, vertices and per-face index lists.

use vstd::prelude::*;

use crate::position::BlockPosition;

verus! {

/// Number of subdivisions of one block (and of one texture) per axis:
/// vertex coordinates are counted in these steps.
pub const SUBDIVISIONS: i64 = 16;

/// Largest number of vertices a block model may hold (the range of a `u16` index).
pub const MAX_MODEL_VERTICES: usize = 65536;

/// A face direction of a block, or its inside.
#[derive(Clone, Copy, PartialEq, Eq, Structural, Debug)]
pub enum BlockMeshLocation {
    North,
    South,
    East,
    West,
    Top,
    Bottom,
    TransparentNorth,
    TransparentSouth,
    TransparentEast,
    TransparentWest,
    TransparentTop,
    TransparentBottom,
    Inside,
}

/// Every face direction, in declaration order.
pub open spec fn all_locations() -> Seq<BlockMeshLocation> {
    seq![
        BlockMeshLocation::North,
        BlockMeshLocation::South,
        BlockMeshLocation::East,
        BlockMeshLocation::West,
        BlockMeshLocation::Top,
        BlockMeshLocation::Bottom,
        BlockMeshLocation::TransparentNorth,
        BlockMeshLocation::TransparentSouth,
        BlockMeshLocation::TransparentEast,
        BlockMeshLocation::TransparentWest,
        BlockMeshLocation::TransparentTop,
        BlockMeshLocation::TransparentBottom,
        BlockMeshLocation::Inside,
    ]
}

impl BlockMeshLocation {
    /// Step along x towards the neighbour on this side.
    pub open spec fn dx(self) -> int {
        match self {
            BlockMeshLocation::North | BlockMeshLocation::TransparentNorth => 1,
            BlockMeshLocation::South | BlockMeshLocation::TransparentSouth => -1,
            _ => 0,
        }
    }

    /// Step along y towards the neighbour on this side.
    pub open spec fn dy(self) -> int {
        match self {
            BlockMeshLocation::Top | BlockMeshLocation::TransparentTop => 1,
            BlockMeshLocation::Bottom | BlockMeshLocation::TransparentBottom => -1,
            _ => 0,
        }
    }

    /// Step along z towards the neighbour on this side.
    pub open spec fn dz(self) -> int {
        match self {
            BlockMeshLocation::East | BlockMeshLocation::TransparentEast => 1,
            BlockMeshLocation::West | BlockMeshLocation::TransparentWest => -1,
            _ => 0,
        }
    }

    /// The facing direction: north/south, east/west and top/bottom swap,
    /// transparent ones among themselves; `Inside` stays.
    pub open spec fn opposite_spec(self) -> BlockMeshLocation {
        match self {
            BlockMeshLocation::North => BlockMeshLocation::South,
            BlockMeshLocation::South => BlockMeshLocation::North,
            BlockMeshLocation::East => BlockMeshLocation::West,
            BlockMeshLocation::West => BlockMeshLocation::East,
            BlockMeshLocation::Top => BlockMeshLocation::Bottom,
            BlockMeshLocation::Bottom => BlockMeshLocation::Top,
            BlockMeshLocation::TransparentNorth => BlockMeshLocation::TransparentSouth,
            BlockMeshLocation::TransparentSouth => BlockMeshLocation::TransparentNorth,
            BlockMeshLocation::TransparentEast => BlockMeshLocation::TransparentWest,
            BlockMeshLocation::TransparentWest => BlockMeshLocation::TransparentEast,
            BlockMeshLocation::TransparentTop => BlockMeshLocation::TransparentBottom,
            BlockMeshLocation::TransparentBottom => BlockMeshLocation::TransparentTop,
            BlockMeshLocation::Inside => BlockMeshLocation::Inside,
        }
    }

    /// The direction that faces this one.
    pub fn opposite(&self) -> (r: BlockMeshLocation)
        ensures
            r == self.opposite_spec(),
            r.dx() == -self.dx() && r.dy() == -self.dy() && r.dz() == -self.dz(),
            r.opposite_spec() == *self,
    {
        match self {
            BlockMeshLocation::North => BlockMeshLocation::South,
            BlockMeshLocation::South => BlockMeshLocation::North,
            BlockMeshLocation::East => BlockMeshLocation::West,
            BlockMeshLocation::West => BlockMeshLocation::East,
            BlockMeshLocation::Top => BlockMeshLocation::Bottom,
            BlockMeshLocation::Bottom => BlockMeshLocation::Top,
            BlockMeshLocation::TransparentNorth => BlockMeshLocation::TransparentSouth,
            BlockMeshLocation::TransparentSouth => BlockMeshLocation::TransparentNorth,
            BlockMeshLocation::TransparentEast => BlockMeshLocation::TransparentWest,
            BlockMeshLocation::TransparentWest => BlockMeshLocation::TransparentEast,
            BlockMeshLocation::TransparentTop => BlockMeshLocation::TransparentBottom,
            BlockMeshLocation::TransparentBottom => BlockMeshLocation::TransparentTop,
            BlockMeshLocation::Inside => BlockMeshLocation::Inside,
        }
    }

    /// Every face direction, in declaration order.
    pub fn all() -> (r: Vec<BlockMeshLocation>)
        ensures
            r@ == all_locations(),
    {
        let r = vec![
            BlockMeshLocation::North,
            BlockMeshLocation::South,
            BlockMeshLocation::East,
            BlockMeshLocation::West,
            BlockMeshLocation::Top,
            BlockMeshLocation::Bottom,
            BlockMeshLocation::TransparentNorth,
            BlockMeshLocation::TransparentSouth,
            BlockMeshLocation::TransparentEast,
            BlockMeshLocation::TransparentWest,
            BlockMeshLocation::TransparentTop,
            BlockMeshLocation::TransparentBottom,
            BlockMeshLocation::Inside,
        ];
        assert(r@ =~= all_locations());
        r
    }
}

/// A corner of a block model. Positions and texture coordinates are counted in
/// steps of `1 / SUBDIVISIONS`: `x == 16` is one block along x, `u == 8` is half
/// the texture's width.
#[derive(Clone, Copy, PartialEq, Eq, Structural, Debug)]
pub struct Vertex {
    pub x: i64,
    pub y: i64,
    pub z: i64,
    pub u: i64,
    pub v: i64,
}

impl Vertex {
    pub fn new(x: i64, y: i64, z: i64, u: i64, v: i64) -> (r: Self)
        ensures
            r == (Vertex { x, y, z, u, v }),
    {
        Vertex { x, y, z, u, v }
    }

    /// Whether the vertex lies in the unit cube of its block.
    pub open spec fn in_unit_cube(self) -> bool {
        0 <= self.x <= SUBDIVISIONS && 0 <= self.y <= SUBDIVISIONS && 0 <= self.z <= SUBDIVISIONS
    }

    /// The vertex moved to the block at `origin`.
    pub open spec fn translated_spec(self, origin: BlockPosition) -> Vertex {
        Vertex {
            x: (self.x + SUBDIVISIONS * origin.x) as i64,
            y: (self.y + SUBDIVISIONS * origin.y) as i64,
            z: (self.z + SUBDIVISIONS * origin.z) as i64,
            u: self.u,
            v: self.v,
        }
    }

    /// The vertex moved to the block at `origin`.
    pub fn translated(&self, origin: BlockPosition) -> (r: Vertex)
        requires
            self.in_unit_cube(),
        ensures
            r == self.translated_spec(origin),
    {
        Vertex {
            x: self.x + SUBDIVISIONS * origin.x as i64,
            y: self.y + SUBDIVISIONS * origin.y as i64,
            z: self.z + SUBDIVISIONS * origin.z as i64,
            u: self.u,
            v: self.v,
        }
    }
}

/// Every vertex of `vs` moved to the block at `origin`.
pub open spec fn translate_all(vs: Seq<Vertex>, origin: BlockPosition) -> Seq<Vertex> {
    Seq::new(vs.len(), |i: int| vs[i].translated_spec(origin))
}

/// Face indices offset by `shift`, widened to `u32`.
pub open spec fn shift_indices(face: Seq<u16>, shift: u32) -> Seq<u32> {
    Seq::new(face.len(), |i: int| (face[i] + shift) as u32)
}

/// The geometry of a block: its vertices in unit-cube space and, for each face
/// direction, the triangle indices into those vertices. An empty index list
/// means the model has no geometry on that side.
pub struct BlockModel {
    vertices: Vec<Vertex>,
    north_indices: Vec<u16>,
    south_indices: Vec<u16>,
    east_indices: Vec<u16>,
    west_indices: Vec<u16>,
    top_indices: Vec<u16>,
    bottom_indices: Vec<u16>,
    transparent_north_indices: Vec<u16>,
    transparent_south_indices: Vec<u16>,
    transparent_east_indices: Vec<u16>,
    transparent_west_indices: Vec<u16>,
    transparent_top_indices: Vec<u16>,
    transparent_bottom_indices: Vec<u16>,
    inside_indices: Vec<u16>,
    draw_category: usize,
}

impl BlockModel {
    /// The model's vertices, in unit-cube space.
    pub closed spec fn vertices_spec(&self) -> Seq<Vertex> {
        self.vertices@
    }

    /// The index list of one face direction.
    pub closed spec fn face(&self, location: BlockMeshLocation) -> Seq<u16> {
        match location {
            BlockMeshLocation::North => self.north_indices@,
            BlockMeshLocation::South => self.south_indices@,
            BlockMeshLocation::East => self.east_indices@,
            BlockMeshLocation::West => self.west_indices@,
            BlockMeshLocation::Top => self.top_indices@,
            BlockMeshLocation::Bottom => self.bottom_indices@,
            BlockMeshLocation::TransparentNorth => self.transparent_north_indices@,
            BlockMeshLocation::TransparentSouth => self.transparent_south_indices@,
            BlockMeshLocation::TransparentEast => self.transparent_east_indices@,
            BlockMeshLocation::TransparentWest => self.transparent_west_indices@,
            BlockMeshLocation::TransparentTop => self.transparent_top_indices@,
            BlockMeshLocation::TransparentBottom => self.transparent_bottom_indices@,
            BlockMeshLocation::Inside => self.inside_indices@,
        }
    }

    /// The draw category the model was made with.
    pub closed spec fn draw_category_spec(&self) -> usize {
        self.draw_category
    }

    /// Whether the model has geometry on side `location`.
    pub open spec fn has_face(&self, location: BlockMeshLocation) -> bool {
        self.face(location).len() > 0
    }

    /// Well-formed: vertices in the unit cube, few enough for `u16` indices,
    /// and every index naming one of them.
    pub open spec fn wf(&self) -> bool {
        &&& self.vertices_spec().len() <= MAX_MODEL_VERTICES
        &&& forall|i: int|
            0 <= i < self.vertices_spec().len() ==> #[trigger] self.vertices_spec()[i].in_unit_cube()
        &&& forall|l: BlockMeshLocation, i: int|
            0 <= i < self.face(l).len() ==> #[trigger] self.face(l)[i] < self.vertices_spec().len()
    }

    /// The indices of face `location`, each offset by `shift`.
    pub fn indices_of(&self, location: BlockMeshLocation, shift: u32) -> (r: Vec<u32>)
        requires
            shift <= u32::MAX - u16::MAX,
        ensures
            r@ == shift_indices(self.face(location), shift),
    {
        let face = match location {
            BlockMeshLocation::North => &self.north_indices,
            BlockMeshLocation::South => &self.south_indices,
            BlockMeshLocation::East => &self.east_indices,
            BlockMeshLocation::West => &self.west_indices,
            BlockMeshLocation::Top => &self.top_indices,
            BlockMeshLocation::Bottom => &self.bottom_indices,
            BlockMeshLocation::TransparentNorth => &self.transparent_north_indices,
            BlockMeshLocation::TransparentSouth => &self.transparent_south_indices,
            BlockMeshLocation::TransparentEast => &self.transparent_east_indices,
            BlockMeshLocation::TransparentWest => &self.transparent_west_indices,
            BlockMeshLocation::TransparentTop => &self.transparent_top_indices,
            BlockMeshLocation::TransparentBottom => &self.transparent_bottom_indices,
            BlockMeshLocation::Inside => &self.inside_indices,
        };
        let mut r: Vec<u32> = Vec::new();
        let mut i: usize = 0;
        while i < face.len()
            invariant
                i <= face@.len(),
                face@ == self.face(location),
                shift <= u32::MAX - u16::MAX,
                r@ =~= shift_indices(face@.take(i as int), shift),
            decreases face@.len() - i,
        {
            r.push(face[i] as u32 + shift);
            i = i + 1;
            assert(r@ =~= shift_indices(face@.take(i as int), shift));
        }
        assert(face@.take(i as int) =~= face@);
        r
    }

    /// Whether the model has geometry on side `location`.
    pub fn has_face_at(&self, location: BlockMeshLocation) -> (r: bool)
        ensures
            r == self.has_face(location),
    {
        let face = match location {
            BlockMeshLocation::North => &self.north_indices,
            BlockMeshLocation::South => &self.south_indices,
            BlockMeshLocation::East => &self.east_indices,
            BlockMeshLocation::West => &self.west_indices,
            BlockMeshLocation::Top => &self.top_indices,
            BlockMeshLocation::Bottom => &self.bottom_indices,
            BlockMeshLocation::TransparentNorth => &self.transparent_north_indices,
            BlockMeshLocation::TransparentSouth => &self.transparent_south_indices,
            BlockMeshLocation::TransparentEast => &self.transparent_east_indices,
            BlockMeshLocation::TransparentWest => &self.transparent_west_indices,
            BlockMeshLocation::TransparentTop => &self.transparent_top_indices,
            BlockMeshLocation::TransparentBottom => &self.transparent_bottom_indices,
            BlockMeshLocation::Inside => &self.inside_indices,
        };
        !face.is_empty()
    }

    /// All vertices of the model, moved to the block at `origin`.
    pub fn vertices_at(&self, origin: BlockPosition) -> (r: Vec<Vertex>)
        requires
            self.wf(),
        ensures
            r@ == translate_all(self.vertices_spec(), origin),
    {
        let mut r: Vec<Vertex> = Vec::new();
        let mut i: usize = 0;
        while i < self.vertices.len()
            invariant
                i <= self.vertices@.len(),
                self.wf(),
                r@ =~= translate_all(self.vertices@.take(i as int), origin),
            decreases self.vertices@.len() - i,
        {
            assert(self.vertices_spec()[i as int].in_unit_cube());
            r.push(self.vertices[i].translated(origin));
            i = i + 1;
            assert(r@ =~= translate_all(self.vertices@.take(i as int), origin));
        }
        assert(self.vertices@.take(i as int) =~= self.vertices@);
        r
    }

    /// The draw category of the model.
    pub fn draw_category(&self) -> (r: usize)
        ensures
            r == self.draw_category_spec(),
    {
        self.draw_category
    }
}


/// Corner positions of the unit cube as the preset models list them: four
/// per side, in the order east, west, top, bottom, north, south.
pub open spec fn cube_positions() -> Seq<(i64, i64, i64)> {
    seq![
        (0, 0, 16),
        (16, 0, 16),
        (16, 16, 16),
        (0, 16, 16),
        (0, 0, 0),
        (16, 0, 0),
        (16, 16, 0),
        (0, 16, 0),
        (16, 16, 16),
        (0, 16, 16),
        (16, 16, 0),
        (0, 16, 0),
        (0, 0, 16),
        (16, 0, 16),
        (0, 0, 0),
        (16, 0, 0),
        (16, 0, 16),
        (16, 16, 16),
        (16, 0, 0),
        (16, 16, 0),
        (0, 0, 16),
        (0, 16, 16),
        (0, 0, 0),
        (0, 16, 0)
    ]
}

/// Texture coordinates of the plain cube presets: the whole texture on every side.
pub open spec fn simple_uvs() -> Seq<(i64, i64)> {
    seq![
        (0, 16),
        (16, 16),
        (16, 0),
        (0, 0),
        (16, 16),
        (0, 16),
        (0, 0),
        (16, 0),
        (16, 16),
        (0, 16),
        (16, 0),
        (0, 0),
        (0, 0),
        (16, 0),
        (0, 16),
        (16, 16),
        (0, 16),
        (0, 0),
        (16, 16),
        (16, 0),
        (16, 16),
        (16, 0),
        (0, 16),
        (0, 0)
    ]
}

/// Texture coordinates of the log-like preset: the left half of the texture
/// on the four sides, the right half on top and bottom.
pub open spec fn side_vert_uvs() -> Seq<(i64, i64)> {
    seq![
        (0, 16),
        (8, 16),
        (8, 0),
        (0, 0),
        (8, 16),
        (0, 16),
        (0, 0),
        (8, 0),
        (16, 16),
        (8, 16),
        (16, 0),
        (8, 0),
        (8, 0),
        (16, 0),
        (8, 16),
        (16, 16),
        (0, 16),
        (0, 0),
        (8, 16),
        (8, 0),
        (8, 16),
        (8, 0),
        (0, 16),
        (0, 0)
    ]
}

/// The cube's corners with the given texture coordinates.
pub open spec fn cube_vertices(uvs: Seq<(i64, i64)>) -> Seq<Vertex> {
    Seq::new(
        cube_positions().len(),
        |i: int|
            Vertex {
                x: cube_positions()[i].0,
                y: cube_positions()[i].1,
                z: cube_positions()[i].2,
                u: uvs[i].0,
                v: uvs[i].1,
            },
    )
}

/// Whether a direction is one of the transparent sides.
pub open spec fn is_transparent(location: BlockMeshLocation) -> bool {
    match location {
        BlockMeshLocation::TransparentNorth | BlockMeshLocation::TransparentSouth
        | BlockMeshLocation::TransparentEast | BlockMeshLocation::TransparentWest
        | BlockMeshLocation::TransparentTop | BlockMeshLocation::TransparentBottom => true,
        _ => false,
    }
}

/// The two triangles of each side of the preset cube; none for the inside.
pub open spec fn cube_face(location: BlockMeshLocation) -> Seq<u16> {
    match location {
        BlockMeshLocation::North | BlockMeshLocation::TransparentNorth => seq![16, 18, 19, 16, 19, 17],
        BlockMeshLocation::South | BlockMeshLocation::TransparentSouth => seq![22, 20, 21, 22, 21, 23],
        BlockMeshLocation::East | BlockMeshLocation::TransparentEast => seq![0, 1, 2, 0, 2, 3],
        BlockMeshLocation::West | BlockMeshLocation::TransparentWest => seq![5, 4, 7, 5, 7, 6],
        BlockMeshLocation::Top | BlockMeshLocation::TransparentTop => seq![9, 8, 10, 9, 10, 11],
        BlockMeshLocation::Bottom | BlockMeshLocation::TransparentBottom => seq![14, 15, 13, 14, 13, 12],
        BlockMeshLocation::Inside => seq![],
    }
}

/// The cube's corners with texture coordinates `uvs`.
fn cube_vertices_with(uvs: Vec<(i64, i64)>) -> (r: Vec<Vertex>)
    requires
        uvs@.len() == cube_positions().len(),
    ensures
        r@ == cube_vertices(uvs@),
{
    let positions: Vec<(i64, i64, i64)> = vec![
            (0, 0, 16),
            (16, 0, 16),
            (16, 16, 16),
            (0, 16, 16),
            (0, 0, 0),
            (16, 0, 0),
            (16, 16, 0),
            (0, 16, 0),
            (16, 16, 16),
            (0, 16, 16),
            (16, 16, 0),
            (0, 16, 0),
            (0, 0, 16),
            (16, 0, 16),
            (0, 0, 0),
            (16, 0, 0),
            (16, 0, 16),
            (16, 16, 16),
            (16, 0, 0),
            (16, 16, 0),
            (0, 0, 16),
            (0, 16, 16),
            (0, 0, 0),
            (0, 16, 0)
        ];
    assert(positions@ =~= cube_positions());
    let mut r: Vec<Vertex> = Vec::new();
    let mut i: usize = 0;
    while i < positions.len()
        invariant
            positions@ == cube_positions(),
            uvs@.len() == cube_positions().len(),
            i <= positions@.len(),
            r@ =~= cube_vertices(uvs@).take(i as int),
        decreases positions@.len() - i,
    {
        let p = positions[i];
        let t = uvs[i];
        r.push(Vertex::new(p.0, p.1, p.2, t.0, t.1));
        i = i + 1;
        assert(r@ =~= cube_vertices(uvs@).take(i as int));
    }
    assert(cube_vertices(uvs@).take(i as int) =~= cube_vertices(uvs@));
    r
}

impl BlockModel {
    /// An opaque cube with the whole texture on each side.
    pub fn model_simple() -> (r: Self)
        ensures
            r.wf(),
            r.vertices_spec() == cube_vertices(simple_uvs()),
            forall|l: BlockMeshLocation|
                #[trigger] r.face(l) == if is_transparent(l) {
                    Seq::<u16>::empty()
                } else {
                    cube_face(l)
                },
            r.draw_category_spec() == 0,
    {
        let uvs: Vec<(i64, i64)> = vec![
            (0, 16),
            (16, 16),
            (16, 0),
            (0, 0),
            (16, 16),
            (0, 16),
            (0, 0),
            (16, 0),
            (16, 16),
            (0, 16),
            (16, 0),
            (0, 0),
            (0, 0),
            (16, 0),
            (0, 16),
            (16, 16),
            (0, 16),
            (0, 0),
            (16, 16),
            (16, 0),
            (16, 16),
            (16, 0),
            (0, 16),
            (0, 0)
        ];
        assert(uvs@ =~= simple_uvs());
        let r = BlockModel::opaque_cube(cube_vertices_with(uvs), 0);
        r
    }

    /// A transparent cube with the whole texture on each side.
    pub fn model_simple_transparent() -> (r: Self)
        ensures
            r.wf(),
            r.vertices_spec() == cube_vertices(simple_uvs()),
            forall|l: BlockMeshLocation|
                #[trigger] r.face(l) == if is_transparent(l) {
                    cube_face(l)
                } else {
                    Seq::<u16>::empty()
                },
            r.draw_category_spec() == 1,
    {
        let uvs: Vec<(i64, i64)> = vec![
            (0, 16),
            (16, 16),
            (16, 0),
            (0, 0),
            (16, 16),
            (0, 16),
            (0, 0),
            (16, 0),
            (16, 16),
            (0, 16),
            (16, 0),
            (0, 0),
            (0, 0),
            (16, 0),
            (0, 16),
            (16, 16),
            (0, 16),
            (0, 0),
            (16, 16),
            (16, 0),
            (16, 16),
            (16, 0),
            (0, 16),
            (0, 0)
        ];
        assert(uvs@ =~= simple_uvs());
        let vertices = cube_vertices_with(uvs);
        let r = BlockModel {
            vertices,
            north_indices: Vec::new(),
            south_indices: Vec::new(),
            east_indices: Vec::new(),
            west_indices: Vec::new(),
            top_indices: Vec::new(),
            bottom_indices: Vec::new(),
            transparent_north_indices: vec![16, 18, 19, 16, 19, 17],
            transparent_south_indices: vec![22, 20, 21, 22, 21, 23],
            transparent_east_indices: vec![0, 1, 2, 0, 2, 3],
            transparent_west_indices: vec![5, 4, 7, 5, 7, 6],
            transparent_top_indices: vec![9, 8, 10, 9, 10, 11],
            transparent_bottom_indices: vec![14, 15, 13, 14, 13, 12],
            inside_indices: Vec::new(),
            draw_category: 1,
        };
        proof {
            BlockModel::lemma_cube_wf(&r);
        }
        r
    }

    /// An opaque cube with the left half of the texture on its four sides
    /// and the right half on top and bottom.
    pub fn model_side_vert() -> (r: Self)
        ensures
            r.wf(),
            r.vertices_spec() == cube_vertices(side_vert_uvs()),
            forall|l: BlockMeshLocation|
                #[trigger] r.face(l) == if is_transparent(l) {
                    Seq::<u16>::empty()
                } else {
                    cube_face(l)
                },
            r.draw_category_spec() == 0,
    {
        let uvs: Vec<(i64, i64)> = vec![
            (0, 16),
            (8, 16),
            (8, 0),
            (0, 0),
            (8, 16),
            (0, 16),
            (0, 0),
            (8, 0),
            (16, 16),
            (8, 16),
            (16, 0),
            (8, 0),
            (8, 0),
            (16, 0),
            (8, 16),
            (16, 16),
            (0, 16),
            (0, 0),
            (8, 16),
            (8, 0),
            (8, 16),
            (8, 0),
            (0, 16),
            (0, 0)
        ];
        assert(uvs@ =~= side_vert_uvs());
        BlockModel::opaque_cube(cube_vertices_with(uvs), 0)
    }

    /// The preset cube's opaque faces over `vertices`.
    fn opaque_cube(vertices: Vec<Vertex>, draw_category: usize) -> (r: Self)
        requires
            vertices@.len() == cube_positions().len(),
            forall|i: int| 0 <= i < vertices@.len() ==> (#[trigger] vertices@[i]).in_unit_cube(),
        ensures
            r.wf(),
            r.vertices_spec() == vertices@,
            forall|l: BlockMeshLocation|
                #[trigger] r.face(l) == if is_transparent(l) {
                    Seq::<u16>::empty()
                } else {
                    cube_face(l)
                },
            r.draw_category_spec() == draw_category,
    {
        let r = BlockModel {
            vertices,
            north_indices: vec![16, 18, 19, 16, 19, 17],
            south_indices: vec![22, 20, 21, 22, 21, 23],
            east_indices: vec![0, 1, 2, 0, 2, 3],
            west_indices: vec![5, 4, 7, 5, 7, 6],
            top_indices: vec![9, 8, 10, 9, 10, 11],
            bottom_indices: vec![14, 15, 13, 14, 13, 12],
            transparent_north_indices: Vec::new(),
            transparent_south_indices: Vec::new(),
            transparent_east_indices: Vec::new(),
            transparent_west_indices: Vec::new(),
            transparent_top_indices: Vec::new(),
            transparent_bottom_indices: Vec::new(),
            inside_indices: Vec::new(),
            draw_category,
        };
        proof {
            BlockModel::lemma_cube_wf(&r);
        }
        r
    }

    /// A model with 24 corners in the unit cube whose faces are preset cube
    /// faces or empty is well-formed.
    proof fn lemma_cube_wf(m: &BlockModel)
        requires
            m.vertices@.len() == cube_positions().len(),
            forall|i: int| 0 <= i < m.vertices@.len() ==> (#[trigger] m.vertices@[i]).in_unit_cube(),
            forall|l: BlockMeshLocation| #[trigger] m.face(l) == cube_face(l) || m.face(l).len() == 0,
        ensures
            m.wf(),
    {
        assert forall|l: BlockMeshLocation, i: int|
            0 <= i < m.face(l).len() implies #[trigger] m.face(l)[i] < m.vertices_spec().len() by {
            if m.face(l) == cube_face(l) {
                match l {
                    BlockMeshLocation::North | BlockMeshLocation::TransparentNorth => {},
                    _ => {},
                }
            }
        }
    }
}

} // verus!
