//! Integer block coordinates and the arithmetic that places them in chunks.

use vstd::prelude::*;

use crate::model::BlockMeshLocation;

verus! {

/// Side length of a chunk, in blocks.
pub const CHUNK_DIMEN: usize = 32;

/// Side length of a chunk, as a coordinate.
pub const CHUNK_DIMEN_I32: i32 = 32;

/// Floor division of integers, for a positive divisor.
pub open spec fn floor_div(a: int, d: int) -> int
    recommends
        d > 0,
{
    a / d
}

/// Remainder of floor division; in `[0, d)` for a positive divisor.
pub open spec fn floor_mod(a: int, d: int) -> int
    recommends
        d > 0,
{
    a % d
}

/// The smallest coordinate of the chunk that holds coordinate `a`.
pub open spec fn chunk_base(a: int) -> int {
    floor_div(a, CHUNK_DIMEN as int) * CHUNK_DIMEN as int
}

/// Whether a coordinate lies inside a chunk, relative to its origin.
pub open spec fn in_chunk_range(a: int) -> bool {
    0 <= a < CHUNK_DIMEN as int
}

/// A position in the block grid.
#[derive(Clone, Copy, PartialEq, Eq, Structural, Hash, Debug)]
pub struct BlockPosition {
    pub x: i32,
    pub y: i32,
    pub z: i32,
}

impl BlockPosition {
    /// Whether the position lies inside a chunk, read as relative to its origin.
    pub open spec fn is_relpos(self) -> bool {
        in_chunk_range(self.x as int) && in_chunk_range(self.y as int) && in_chunk_range(
            self.z as int,
        )
    }

    /// Whether `self + offset` is representable.
    pub open spec fn can_shift(self, dx: int, dy: int, dz: int) -> bool {
        i32::MIN <= self.x + dx <= i32::MAX && i32::MIN <= self.y + dy <= i32::MAX && i32::MIN
            <= self.z + dz <= i32::MAX
    }

    /// The position moved by an offset.
    pub open spec fn shifted(self, dx: int, dy: int, dz: int) -> BlockPosition {
        BlockPosition {
            x: (self.x + dx) as i32,
            y: (self.y + dy) as i32,
            z: (self.z + dz) as i32,
        }
    }

    /// Whether the neighbour in direction `loc` is representable.
    pub open spec fn has_neighbour(self, loc: BlockMeshLocation) -> bool {
        self.can_shift(loc.dx(), loc.dy(), loc.dz())
    }

    /// The adjacent position in direction `loc`; `Inside` is the position itself.
    pub open spec fn neighbour_spec(self, loc: BlockMeshLocation) -> BlockPosition {
        self.shifted(loc.dx(), loc.dy(), loc.dz())
    }

    /// One step along +x.
    pub fn north(&self) -> (r: Self)
        requires
            self.x < i32::MAX,
        ensures
            r == self.shifted(1, 0, 0),
    {
        BlockPosition { x: self.x + 1, y: self.y, z: self.z }
    }

    /// One step along -x.
    pub fn south(&self) -> (r: Self)
        requires
            self.x > i32::MIN,
        ensures
            r == self.shifted(-1, 0, 0),
    {
        BlockPosition { x: self.x - 1, y: self.y, z: self.z }
    }

    /// One step along +z.
    pub fn east(&self) -> (r: Self)
        requires
            self.z < i32::MAX,
        ensures
            r == self.shifted(0, 0, 1),
    {
        BlockPosition { x: self.x, y: self.y, z: self.z + 1 }
    }

    /// One step along -z.
    pub fn west(&self) -> (r: Self)
        requires
            self.z > i32::MIN,
        ensures
            r == self.shifted(0, 0, -1),
    {
        BlockPosition { x: self.x, y: self.y, z: self.z - 1 }
    }

    /// One step along +y.
    pub fn top(&self) -> (r: Self)
        requires
            self.y < i32::MAX,
        ensures
            r == self.shifted(0, 1, 0),
    {
        BlockPosition { x: self.x, y: self.y + 1, z: self.z }
    }

    /// One step along -y.
    pub fn bottom(&self) -> (r: Self)
        requires
            self.y > i32::MIN,
        ensures
            r == self.shifted(0, -1, 0),
    {
        BlockPosition { x: self.x, y: self.y - 1, z: self.z }
    }

    /// Whether every component lies in `[0, CHUNK_DIMEN)`.
    pub fn is_valid_chunk_relpos(&self) -> (r: bool)
        ensures
            r == self.is_relpos(),
    {
        0 <= self.x && self.x < CHUNK_DIMEN_I32 && 0 <= self.y && self.y < CHUNK_DIMEN_I32 && 0
            <= self.z && self.z < CHUNK_DIMEN_I32
    }

    /// The adjacent position in direction `location`; `Inside` gives `self`.
    pub fn neighbour(&self, location: BlockMeshLocation) -> (r: Self)
        requires
            self.has_neighbour(location),
        ensures
            r == self.neighbour_spec(location),
    {
        match location {
            BlockMeshLocation::North => self.north(),
            BlockMeshLocation::South => self.south(),
            BlockMeshLocation::East => self.east(),
            BlockMeshLocation::West => self.west(),
            BlockMeshLocation::Top => self.top(),
            BlockMeshLocation::Bottom => self.bottom(),
            BlockMeshLocation::TransparentNorth => self.north(),
            BlockMeshLocation::TransparentSouth => self.south(),
            BlockMeshLocation::TransparentEast => self.east(),
            BlockMeshLocation::TransparentWest => self.west(),
            BlockMeshLocation::TransparentTop => self.top(),
            BlockMeshLocation::TransparentBottom => self.bottom(),
            BlockMeshLocation::Inside => *self,
        }
    }

    /// Componentwise sum.
    pub fn plus(self, rhs: BlockPosition) -> (r: BlockPosition)
        requires
            self.can_shift(rhs.x as int, rhs.y as int, rhs.z as int),
        ensures
            r == self.shifted(rhs.x as int, rhs.y as int, rhs.z as int),
    {
        BlockPosition { x: self.x + rhs.x, y: self.y + rhs.y, z: self.z + rhs.z }
    }

    /// Componentwise difference.
    pub fn minus(self, rhs: BlockPosition) -> (r: BlockPosition)
        requires
            self.can_shift(-rhs.x, -rhs.y, -rhs.z),
        ensures
            r == self.shifted(-rhs.x, -rhs.y, -rhs.z),
    {
        BlockPosition { x: self.x - rhs.x, y: self.y - rhs.y, z: self.z - rhs.z }
    }

    /// Componentwise floor division by a positive scalar.
    pub fn div_floor(self, d: i32) -> (r: BlockPosition)
        requires
            d > 0,
        ensures
            r.x == floor_div(self.x as int, d as int),
            r.y == floor_div(self.y as int, d as int),
            r.z == floor_div(self.z as int, d as int),
    {
        proof {
            lemma_floor_div_bounds(self.x as int, d as int);
            lemma_floor_div_bounds(self.y as int, d as int);
            lemma_floor_div_bounds(self.z as int, d as int);
        }
        let x = self.x.checked_div_euclid(d).unwrap();
        let y = self.y.checked_div_euclid(d).unwrap();
        let z = self.z.checked_div_euclid(d).unwrap();
        BlockPosition { x, y, z }
    }

    /// Componentwise remainder of floor division by a positive scalar.
    pub fn rem_floor(self, d: i32) -> (r: BlockPosition)
        requires
            d > 0,
        ensures
            r.x == floor_mod(self.x as int, d as int),
            r.y == floor_mod(self.y as int, d as int),
            r.z == floor_mod(self.z as int, d as int),
    {
        let x = self.x.checked_rem_euclid(d).unwrap();
        let y = self.y.checked_rem_euclid(d).unwrap();
        let z = self.z.checked_rem_euclid(d).unwrap();
        BlockPosition { x, y, z }
    }

    /// The origin of the chunk that holds this position: each component
    /// rounded down to a multiple of `CHUNK_DIMEN`.
    pub fn chunk_origin(self) -> (r: BlockPosition)
        ensures
            r.x == chunk_base(self.x as int),
            r.y == chunk_base(self.y as int),
            r.z == chunk_base(self.z as int),
            r.is_chunk_origin(),
    {
        let q = self.div_floor(CHUNK_DIMEN_I32);
        proof {
            lemma_chunk_base_bounds(self.x as int);
            lemma_chunk_base_bounds(self.y as int);
            lemma_chunk_base_bounds(self.z as int);
        }
        BlockPosition {
            x: q.x * CHUNK_DIMEN_I32,
            y: q.y * CHUNK_DIMEN_I32,
            z: q.z * CHUNK_DIMEN_I32,
        }
    }

    /// Whether the whole chunk based at this origin is representable.
    pub open spec fn is_chunk_origin(self) -> bool {
        self.x + (CHUNK_DIMEN - 1) <= i32::MAX && self.y + (CHUNK_DIMEN - 1) <= i32::MAX && self.z
            + (CHUNK_DIMEN - 1) <= i32::MAX
    }
}

impl From<(i32, i32, i32)> for BlockPosition {
    fn from(value: (i32, i32, i32)) -> (r: Self) {
        BlockPosition { x: value.0, y: value.1, z: value.2 }
    }
}

impl vstd::std_specs::convert::FromSpecImpl<(i32, i32, i32)> for BlockPosition {
    open spec fn obeys_from_spec() -> bool {
        true
    }

    open spec fn from_spec(value: (i32, i32, i32)) -> BlockPosition {
        BlockPosition { x: value.0, y: value.1, z: value.2 }
    }
}

/// Floor division by a positive divisor keeps a value's magnitude.
pub proof fn lemma_floor_div_bounds(a: int, d: int)
    requires
        d > 0,
        i32::MIN <= a <= i32::MAX,
    ensures
        i32::MIN <= floor_div(a, d) <= i32::MAX,
        floor_div(a, d) * d <= a < floor_div(a, d) * d + d,
{
    assert(floor_div(a, d) * d + floor_mod(a, d) == a) by (nonlinear_arith)
        requires
            d > 0,
    {
    }
    assert(0 <= floor_mod(a, d) < d);
    if a >= 0 {
        assert(0 <= floor_div(a, d) <= a) by (nonlinear_arith)
            requires
                d > 0,
                a >= 0,
                floor_div(a, d) * d + floor_mod(a, d) == a,
                0 <= floor_mod(a, d) < d,
        {
        }
    } else {
        assert(a <= floor_div(a, d) < 0) by (nonlinear_arith)
            requires
                d > 0,
                a < 0,
                floor_div(a, d) * d + floor_mod(a, d) == a,
                0 <= floor_mod(a, d) < d,
        {
        }
    }
}

/// A chunk base is representable and within `CHUNK_DIMEN` of its coordinate.
pub proof fn lemma_chunk_base_bounds(a: int)
    requires
        i32::MIN <= a <= i32::MAX,
    ensures
        i32::MIN <= chunk_base(a) <= a,
        a - chunk_base(a) < CHUNK_DIMEN as int,
        chunk_base(a) + (CHUNK_DIMEN - 1) <= i32::MAX,
        a - chunk_base(a) == floor_mod(a, CHUNK_DIMEN as int),
{
    lemma_floor_div_bounds(a, 32);
    assert(floor_div(a, 32) * 32 + floor_mod(a, 32) == a) by (nonlinear_arith);
    assert(chunk_base(a) <= i32::MAX - 31) by (nonlinear_arith)
        requires
            chunk_base(a) <= a <= i32::MAX,
            chunk_base(a) == floor_div(a, 32) * 32,
    {
    }
}

} // verus!
