//! Core of a voxel-world engine: a chunk lifecycle store with a
//! viewer-driven retention policy, a deterministic density-function
//! evaluation engine with layered memoization, block-update broadcasting,
//! and the bit-packed section indexing that ties them together.
use vstd::prelude::*;

pub mod chunk;
pub mod density;
pub mod loading;
pub mod generator;
pub mod tickets;
pub mod world;
pub mod section;
pub mod store;

verus! {

/// A block position in world coordinates.
#[derive(Clone, Copy, PartialEq, Eq, Structural, Debug)]
pub struct BlockPosition {
    pub x: i64,
    pub y: i64,
    pub z: i64,
}

/// A chunk (region) coordinate: one fixed horizontal footprint of the world.
#[derive(Clone, Copy, PartialEq, Eq, Structural, Debug)]
pub struct ChunkPos {
    pub x: i32,
    pub z: i32,
}

impl ChunkPos {
    pub fn new(x: i32, z: i32) -> (r: ChunkPos)
        ensures
            r.x == x && r.z == z,
    {
        ChunkPos { x, z }
    }

    pub fn x(&self) -> (r: i32)
        ensures
            r == self.x,
    {
        self.x
    }

    pub fn z(&self) -> (r: i32)
        ensures
            r == self.z,
    {
        self.z
    }
}

impl BlockPosition {
    /// The chunk that contains this position; one consistent convention is
    /// used everywhere: floor division by 16 on both horizontal axes
    /// (an arithmetic shift), so x = -1 lies in chunk -1.
    pub fn chunk(&self) -> (r: ChunkPos)
        requires
            -0x8_0000_0000 <= self.x < 0x8_0000_0000,
            -0x8_0000_0000 <= self.z < 0x8_0000_0000,
        ensures
            r.x == self.x >> 4 && r.z == self.z >> 4,
    {
        proof {
            lemma_shift4_small(self.x);
            lemma_shift4_small(self.z);
        }
        ChunkPos { x: (self.x >> 4) as i32, z: (self.z >> 4) as i32 }
    }
}

/// A shift by 4 of a value well inside the i64 range fits in an i32 range.
proof fn lemma_shift4_small(v: i64)
    requires
        -0x8_0000_0000 <= v < 0x8_0000_0000,
    ensures
        -0x8000_0000 <= (v >> 4) <= 0x7FFF_FFFF,
{
    assert(-0x8000_0000 <= (v >> 4) <= 0x7FFF_FFFF) by (bit_vector)
        requires
            -0x8_0000_0000 <= v < 0x8_0000_0000,
    ;
}

/// A namespaced identifier, such as a biome or function name.
#[derive(Clone, Debug)]
pub struct OwnedNameSpaceKey {
    pub namespace: String,
    pub key: String,
}

impl OwnedNameSpaceKey {
    pub fn new(namespace: String, key: String) -> (r: OwnedNameSpaceKey)
        ensures
            r.namespace == namespace && r.key == key,
    {
        OwnedNameSpaceKey { namespace, key }
    }

    pub fn get_namespace(&self) -> (r: &str)
        ensures
            r@ == self.namespace@,
    {
        self.namespace.as_str()
    }

    pub fn get_key(&self) -> (r: &str)
        ensures
            r@ == self.key@,
    {
        self.key.as_str()
    }

    /// Whether two keys name the same thing.
    pub fn same_key(&self, other: &OwnedNameSpaceKey) -> (r: bool)
        ensures
            r == (self.namespace@ == other.namespace@ && self.key@ == other.key@),
    {
        self.namespace.eq(&other.namespace) && self.key.eq(&other.key)
    }
}

/// A block placed into the world: the resolved block-state id.
#[derive(Clone, Copy, PartialEq, Eq, Structural, Debug)]
pub struct PlacedBlock {
    pub id: usize,
}

impl PlacedBlock {
    pub fn new(id: usize) -> (r: PlacedBlock)
        ensures
            r.id == id,
    {
        PlacedBlock { id }
    }

    pub fn id(&self) -> (r: usize)
        ensures
            r == self.id,
    {
        self.id
    }
}

} // verus!
