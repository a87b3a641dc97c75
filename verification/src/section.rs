//! Bit-packed local coordinates inside one 16x16x16 section, and the
//! section data itself: a fixed volume of block-state ids plus biome data.
use vstd::prelude::*;

use crate::BlockPosition;
use crate::OwnedNameSpaceKey;

verus! {

pub const SECTION_X_SIZE: u64 = 16;
pub const SECTION_Y_SIZE: u64 = 16;
pub const SECTION_Z_SIZE: u64 = 16;

/// Number of blocks in one section.
pub const SECTION_VOLUME: usize = 4096;

/// The packed key: `(y << 8) | (z << 4) | x`, each component masked to
/// four bits.
pub open spec fn spec_pack(x: u64, y: u64, z: u64) -> u64 {
    ((y & 0xF) << 8) | ((z & 0xF) << 4) | (x & 0xF)
}

/// The x component of a packed key.
pub open spec fn spec_unpack_x(v: u64) -> u64 {
    v & 0xF
}

/// The y component of a packed key.
pub open spec fn spec_unpack_y(v: u64) -> u64 {
    (v >> 8) & 0xF
}

/// The z component of a packed key.
pub open spec fn spec_unpack_z(v: u64) -> u64 {
    (v >> 4) & 0xF
}

/// Packing then unpacking returns the same triple: the key is a bijection
/// on `[0,16)` cubed.
pub proof fn lemma_pack_unpack(x: u64, y: u64, z: u64)
    requires
        x < 16,
        y < 16,
        z < 16,
    ensures
        spec_unpack_x(spec_pack(x, y, z)) == x,
        spec_unpack_y(spec_pack(x, y, z)) == y,
        spec_unpack_z(spec_pack(x, y, z)) == z,
{
    assert((((y & 0xF) << 8) | ((z & 0xF) << 4) | (x & 0xF)) & 0xF == x) by (bit_vector)
        requires
            x < 16 && y < 16 && z < 16,
    ;
    assert(((((y & 0xF) << 8) | ((z & 0xF) << 4) | (x & 0xF)) >> 8) & 0xF == y) by (bit_vector)
        requires
            x < 16 && y < 16 && z < 16,
    ;
    assert(((((y & 0xF) << 8) | ((z & 0xF) << 4) | (x & 0xF)) >> 4) & 0xF == z) by (bit_vector)
        requires
            x < 16 && y < 16 && z < 16,
    ;
}

/// A packed key is always below the section volume.
pub proof fn lemma_pack_in_volume(x: u64, y: u64, z: u64)
    ensures
        spec_pack(x, y, z) < 4096,
{
    assert((((y & 0xF) << 8) | ((z & 0xF) << 4) | (x & 0xF)) < 4096) by (bit_vector);
}

/// Bit-packed local coordinate key inside one section.
#[derive(Clone, Copy, PartialEq, Eq, Structural, Debug)]
pub struct SectionPosIndex(pub u64);

impl SectionPosIndex {
    /// Packs a local coordinate triple; each component is masked to
    /// four bits.
    pub fn from_parts(x: u64, y: u64, z: u64) -> (r: SectionPosIndex)
        ensures
            r.0 == spec_pack(x, y, z),
            r.0 < 4096,
    {
        proof {
            lemma_pack_in_volume(x, y, z);
        }
        SectionPosIndex(((y & 0xF) << 8) | ((z & 0xF) << 4) | (x & 0xF))
    }

    /// Packs a block position already reduced to local coordinates.
    /// The caller must guarantee every component lies in `[0,16)`.
    pub fn from_block_pos_no_check(pos: BlockPosition) -> (r: SectionPosIndex)
        requires
            0 <= pos.x < 16,
            0 <= pos.y < 16,
            0 <= pos.z < 16,
        ensures
            r.0 == spec_pack(pos.x as u64, pos.y as u64, pos.z as u64),
            r.0 < 4096,
    {
        SectionPosIndex::from_parts(pos.x as u64, pos.y as u64, pos.z as u64)
    }

    /// Reduces a global position to local coordinates, then packs it.
    /// The reduction is magnitude modulo 16 per axis, so the global
    /// coordinate -1 maps to local 1, not to the floor-semantics value 15.
    /// That convention is kept deliberately; see `from_block_pos_no_check`
    /// for the variant that takes already-local coordinates.
    pub fn from_block_pos(pos: BlockPosition) -> (r: SectionPosIndex)
        ensures
            r.0 == spec_pack(
                (abs_i64(pos.x) % 16) as u64,
                (abs_i64(pos.y) % 16) as u64,
                (abs_i64(pos.z) % 16) as u64,
            ),
            r.0 < 4096,
    {
        let x = mag_mod16(pos.x);
        let y = mag_mod16(pos.y);
        let z = mag_mod16(pos.z);
        SectionPosIndex::from_parts(x, y, z)
    }

    /// The three components of the packed key, as `(x, y, z)`.
    pub fn into_parts(self) -> (r: (u64, u64, u64))
        ensures
            r.0 == spec_unpack_x(self.0),
            r.1 == spec_unpack_y(self.0),
            r.2 == spec_unpack_z(self.0),
            r.0 < 16 && r.1 < 16 && r.2 < 16,
    {
        proof {
            let v = self.0;
            assert((v & 0xF) < 16 && ((v >> 8) & 0xF) < 16 && ((v >> 4) & 0xF) < 16)
                by (bit_vector);
        }
        (self.0 & 0xF, (self.0 >> 8) & 0xF, (self.0 >> 4) & 0xF)
    }

    /// The raw key, usable as an array index.
    pub fn get(self) -> (r: usize)
        requires
            self.0 < 4096,
        ensures
            r == self.0,
    {
        self.0 as usize
    }

    /// The raw packed value.
    pub fn value(self) -> (r: u64)
        ensures
            r == self.0,
    {
        self.0
    }
}

/// Magnitude of an i64, as a mathematical integer.
pub open spec fn abs_i64(v: i64) -> int {
    if v < 0 {
        -(v as int)
    } else {
        v as int
    }
}

/// The magnitude of `v`, modulo 16.
fn mag_mod16(v: i64) -> (r: u64)
    ensures
        r == abs_i64(v) % 16,
        r < 16,
{
    let m: i64 = v % 16;
    if m < 0 {
        (-m) as u64
    } else {
        m as u64
    }
}

/// Why a section rejected an operation.
#[derive(Debug)]
pub enum InvalidChunkSection {
    /// The position lies outside the addressable volume.
    OutOfBounds,
    /// The block-state id cannot be resolved.
    InvalidData(i64),
    /// The namespaced key is not registered.
    InvalidNamespaceKey(OwnedNameSpaceKey),
}

/// Block-state ids above this ceiling are not resolvable.
pub const MAX_BLOCK_STATE: usize = 0xFFFF_FFFF;

/// The block-state ids of one section, one per local position, addressed
/// by `SectionPosIndex`.
#[derive(Debug)]
pub struct AxolotlBlockSection {
    blocks: Vec<usize>,
}

impl AxolotlBlockSection {
    /// Every slot of the fixed volume is present, and every id resolvable.
    pub closed spec fn wf(&self) -> bool {
        &&& self.blocks@.len() == 4096
        &&& forall|i: int| 0 <= i < 4096 ==> #[trigger] self.blocks@[i] <= MAX_BLOCK_STATE
    }

    /// The stored ids, one per packed local position.
    pub closed spec fn view(&self) -> Seq<usize> {
        self.blocks@
    }

    /// A section filled with the empty (air) state.
    pub fn new() -> (r: AxolotlBlockSection)
        ensures
            r.wf(),
            r@.len() == 4096,
            forall|i: int| 0 <= i < 4096 ==> #[trigger] r@[i] == 0,
    {
        let mut blocks: Vec<usize> = Vec::new();
        let mut i: usize = 0;
        while i < 4096
            invariant
                i <= 4096,
                blocks@.len() == i,
                forall|j: int| 0 <= j < i ==> #[trigger] blocks@[j] == 0,
            decreases 4096 - i,
        {
            blocks.push(0);
            i = i + 1;
        }
        AxolotlBlockSection { blocks }
    }

    /// Writes one block-state id at a packed position. Fails with
    /// `OutOfBounds` when the key lies outside the volume, and with
    /// `InvalidData` when the id is above the resolvable ceiling; the
    /// section is unchanged on failure.
    pub fn set_block(&mut self, idx: SectionPosIndex, id: usize) -> (r: Result<
        (),
        InvalidChunkSection,
    >)
        requires
            old(self).wf(),
        ensures
            final(self).wf(),
            r is Ok <==> (idx.0 < 4096 && id <= MAX_BLOCK_STATE),
            r is Ok ==> final(self)@ == old(self)@.update(idx.0 as int, id),
            r is Err ==> final(self)@ == old(self)@,
            r is Err ==> (idx.0 >= 4096 ==> r matches Err(
                InvalidChunkSection::OutOfBounds,
            )),
            r is Err ==> (idx.0 < 4096 ==> (r matches Err(
                InvalidChunkSection::InvalidData(e),
            ) && e == id as i64)),
    {
        if idx.value() >= 4096 {
            return Err(InvalidChunkSection::OutOfBounds);
        }
        if id > MAX_BLOCK_STATE {
            return Err(InvalidChunkSection::InvalidData(id as i64));
        }
        self.blocks.set(idx.get(), id);
        Ok(())
    }

    /// A well-formed section holds the full volume of resolvable ids.
    pub proof fn lemma_wf_len(&self)
        requires
            self.wf(),
        ensures
            self@.len() == 4096,
            forall|i: int| 0 <= i < 4096 ==> #[trigger] self@[i] <= MAX_BLOCK_STATE,
    {
    }

    /// A section holding exactly the given ids, one per packed position.
    pub fn from_ids(ids: Vec<usize>) -> (r: AxolotlBlockSection)
        requires
            ids@.len() == 4096,
            forall|i: int| 0 <= i < 4096 ==> #[trigger] ids@[i] <= MAX_BLOCK_STATE,
        ensures
            r.wf(),
            r@ == ids@,
    {
        AxolotlBlockSection { blocks: ids }
    }

    /// An exact copy of the stored ids.
    pub fn duplicate(&self) -> (r: AxolotlBlockSection)
        ensures
            r@ == self@,
            r.wf() == self.wf(),
    {
        let blocks = self.blocks.clone();
        proof {
            assert(blocks@ =~= self.blocks@);
        }
        AxolotlBlockSection { blocks }
    }

    /// Whether the section is well formed: full volume, resolvable ids.
    pub fn check_wf(&self) -> (r: bool)
        ensures
            r == self.wf(),
    {
        if self.blocks.len() != 4096 {
            return false;
        }
        let mut i: usize = 0;
        while i < 4096
            invariant
                self.blocks@.len() == 4096,
                i <= 4096,
                forall|j: int| 0 <= j < i ==> #[trigger] self.blocks@[j] <= MAX_BLOCK_STATE,
            decreases 4096 - i,
        {
            if self.blocks[i] > MAX_BLOCK_STATE {
                return false;
            }
            i = i + 1;
        }
        true
    }

    /// Reads the block-state id at a packed position.
    pub fn get_block(&self, idx: SectionPosIndex) -> (r: Option<usize>)
        requires
            self.wf(),
        ensures
            idx.0 < 4096 ==> r == Some(self@[idx.0 as int]),
            idx.0 >= 4096 ==> r is None,
    {
        if idx.value() < 4096 {
            Some(self.blocks[idx.get()])
        } else {
            None
        }
    }
}

impl Default for AxolotlBlockSection {
    /// The empty section: all air.
    fn default() -> (r: AxolotlBlockSection)
        ensures
            r.wf(),
            forall|i: int| 0 <= i < 4096 ==> #[trigger] r@[i] == 0,
    {
        AxolotlBlockSection::new()
    }
}

/// The biome data of one section.
#[derive(Debug)]
pub enum AxolotlBiomeSection {
    /// The whole section shares one biome.
    SingleBiome(OwnedNameSpaceKey),
}

/// One fixed 16x16x16 vertical slice of a region: block-state ids plus
/// biome data, identified by its vertical slot number.
#[derive(Debug)]
pub struct AxolotlChunkSection {
    pub blocks: AxolotlBlockSection,
    pub biomes: AxolotlBiomeSection,
    pub y: i8,
}

impl AxolotlChunkSection {
    pub open spec fn wf(&self) -> bool {
        self.blocks.wf()
    }

    /// An empty section at the given vertical slot: all air, under the
    /// single empty biome key.
    pub fn new(y: i8) -> (r: AxolotlChunkSection)
        ensures
            r.wf(),
            r.y == y,
            forall|i: int| 0 <= i < 4096 ==> #[trigger] r.blocks@[i] == 0,
            r.biomes matches AxolotlBiomeSection::SingleBiome(k) && k.namespace@ == Seq::<
                char,
            >::empty() && k.key@ == Seq::<char>::empty(),
    {
        AxolotlChunkSection {
            blocks: AxolotlBlockSection::new(),
            biomes: AxolotlBiomeSection::SingleBiome(
                OwnedNameSpaceKey::new(String::new(), String::new()),
            ),
            y,
        }
    }

    /// Assigns the section's biome. The key must be one of the registered
    /// biome keys; exactly an unknown key fails, with `InvalidNamespaceKey`
    /// carrying it, and leaves the section unchanged.
    pub fn set_biome(&mut self, key: OwnedNameSpaceKey, registry: &Vec<OwnedNameSpaceKey>) -> (r:
        Result<(), InvalidChunkSection>)
        requires
            old(self).wf(),
        ensures
            final(self).wf(),
            final(self).blocks@ == old(self).blocks@,
            final(self).y == old(self).y,
            r is Ok <==> exists|i: int|
                0 <= i < registry@.len() && (#[trigger] registry@[i]).namespace@ == key.namespace@
                    && registry@[i].key@ == key.key@,
            r is Ok ==> (final(self).biomes matches AxolotlBiomeSection::SingleBiome(k) && k
                == key),
            r is Err ==> (r matches Err(InvalidChunkSection::InvalidNamespaceKey(k)) && k == key
                && final(self).biomes == old(self).biomes),
    {
        let mut i: usize = 0;
        let mut found = false;
        while i < registry.len()
            invariant
                i <= registry@.len(),
                found <==> exists|j: int|
                    0 <= j < i && (#[trigger] registry@[j]).namespace@ == key.namespace@
                        && registry@[j].key@ == key.key@,
            decreases registry.len() - i,
        {
            if registry[i].same_key(&key) {
                found = true;
            }
            i = i + 1;
        }
        if found {
            self.biomes = AxolotlBiomeSection::SingleBiome(key);
            Ok(())
        } else {
            Err(InvalidChunkSection::InvalidNamespaceKey(key))
        }
    }
}

impl Default for AxolotlChunkSection {
    /// The empty section at slot zero.
    fn default() -> (r: AxolotlChunkSection)
        ensures
            r.wf(),
            r.y == 0,
            r.biomes matches AxolotlBiomeSection::SingleBiome(k) && k.namespace@ == Seq::<
                char,
            >::empty() && k.key@ == Seq::<char>::empty(),
    {
        AxolotlChunkSection::new(0)
    }
}

} // verus!
