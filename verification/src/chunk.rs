//! A region (chunk): a sparse ordered stack of sections plus its
//! coordinate and a residency flag, exclusively owned by the store.
use vstd::prelude::*;

use crate::section::AxolotlBiomeSection;
use crate::section::AxolotlChunkSection;
use crate::section::InvalidChunkSection;
use crate::section::SectionPosIndex;
use crate::section::MAX_BLOCK_STATE;
use crate::section::abs_i64;
use crate::section::spec_pack;
use crate::BlockPosition;
use crate::ChunkPos;
use crate::OwnedNameSpaceKey;
use crate::PlacedBlock;

verus! {

/// Number of vertical sections of one chunk. The vertical extent is
/// fixed here, a deliberate simplification of a region's otherwise
/// variable stack of sections: every chunk carries exactly this many
/// slots, numbered from zero.
pub const CHUNK_SECTIONS: usize = 4;

/// Number of addressable y levels of one chunk.
pub const CHUNK_HEIGHT: i64 = 64;

/// The vertical slot that holds a y level.
pub open spec fn slot_of(y: i64) -> int {
    y as int / 16
}

/// The packed in-section key of a global position: magnitude modulo 16
/// on the horizontal axes, plain modulo on y (y is validated first and is
/// never negative).
pub open spec fn local_key(pos: BlockPosition) -> u64 {
    spec_pack((abs_i64(pos.x) % 16) as u64, (abs_i64(pos.y) % 16) as u64, (abs_i64(pos.z) % 16) as u64)
}

/// What one block edit does to a chunk's block content: the addressed
/// slot is written when the edit is valid, nothing changes when not.
pub open spec fn edit_applied(m: Seq<Seq<usize>>, pos: BlockPosition, id: usize) -> Seq<
    Seq<usize>,
> {
    if 0 <= pos.y < CHUNK_HEIGHT && id <= MAX_BLOCK_STATE {
        m.update(slot_of(pos.y), m[slot_of(pos.y)].update(local_key(pos) as int, id))
    } else {
        m
    }
}

/// What a batch of edits does to a chunk's block content, applied in
/// order.
pub open spec fn edits_applied(m: Seq<Seq<usize>>, edits: Seq<(BlockPosition, PlacedBlock)>) -> Seq<
    Seq<usize>,
>
    decreases edits.len(),
{
    if edits.len() == 0 {
        m
    } else {
        edit_applied(edits_applied(m, edits.drop_last()), edits.last().0, edits.last().1.id)
    }
}

impl OwnedNameSpaceKey {
    /// An exact copy.
    pub fn duplicate(&self) -> (r: OwnedNameSpaceKey)
        ensures
            r == *self,
    {
        let r = OwnedNameSpaceKey::new(self.namespace.clone(), self.key.clone());
        assert(r.namespace == self.namespace && r.key == self.key);
        r
    }
}

/// One region of the world: its coordinate and its sections.
#[derive(Debug)]
pub struct AxolotlChunk {
    pub chunk_pos: ChunkPos,
    pub sections: Vec<AxolotlChunkSection>,
}

impl AxolotlChunk {
    /// Every section slot is present, well formed and numbered by its
    /// position in the stack.
    pub open spec fn wf(&self) -> bool {
        &&& self.sections@.len() == CHUNK_SECTIONS
        &&& forall|i: int|
            0 <= i < CHUNK_SECTIONS ==> (#[trigger] self.sections@[i]).wf()
                && self.sections@[i].y == i
    }

    /// The block ids of every section, bottom to top.
    pub open spec fn blocks_model(&self) -> Seq<Seq<usize>> {
        Seq::new(self.sections@.len(), |i: int| self.sections@[i].blocks@)
    }

    /// An empty chunk at the given coordinate: all air.
    pub fn new(pos: ChunkPos) -> (r: AxolotlChunk)
        ensures
            r.wf(),
            r.chunk_pos == pos,
            forall|s: int, i: int|
                0 <= s < CHUNK_SECTIONS && 0 <= i < 4096 ==> #[trigger] r.blocks_model()[s][i]
                    == 0,
    {
        let mut sections: Vec<AxolotlChunkSection> = Vec::new();
        let mut s: usize = 0;
        while s < CHUNK_SECTIONS
            invariant
                s <= CHUNK_SECTIONS,
                sections@.len() == s,
                forall|i: int|
                    0 <= i < s ==> (#[trigger] sections@[i]).wf() && sections@[i].y == i,
                forall|j: int, i: int|
                    0 <= j < s && 0 <= i < 4096 ==> #[trigger] sections@[j].blocks@[i] == 0,
            decreases CHUNK_SECTIONS - s,
        {
            sections.push(AxolotlChunkSection::new(s as i8));
            s = s + 1;
        }
        AxolotlChunk { chunk_pos: pos, sections }
    }

    /// Writes one block. The position's y must lie inside the chunk's
    /// vertical range and the id must be resolvable; otherwise the error
    /// says which check failed and the chunk is unchanged. The horizontal
    /// coordinates are reduced to local ones by magnitude modulo 16.
    pub fn set_block(&mut self, pos: BlockPosition, block: PlacedBlock) -> (r: Result<
        (),
        InvalidChunkSection,
    >)
        requires
            old(self).wf(),
        ensures
            final(self).wf(),
            final(self).chunk_pos == old(self).chunk_pos,
            r is Ok <==> (0 <= pos.y < CHUNK_HEIGHT && block.id <= MAX_BLOCK_STATE),
            r is Ok ==> final(self).blocks_model() =~= old(self).blocks_model().update(
                slot_of(pos.y),
                old(self).blocks_model()[slot_of(pos.y)].update(local_key(pos) as int, block.id),
            ),
            r is Err ==> final(self).blocks_model() =~= old(self).blocks_model(),
            !(0 <= pos.y < CHUNK_HEIGHT) ==> (r matches Err(InvalidChunkSection::OutOfBounds)),
            (0 <= pos.y < CHUNK_HEIGHT && block.id > MAX_BLOCK_STATE) ==> (r matches Err(
                InvalidChunkSection::InvalidData(e),
            ) && e == block.id as i64),
    {
        if pos.y < 0 || pos.y >= CHUNK_HEIGHT {
            return Err(InvalidChunkSection::OutOfBounds);
        }
        let slot = (pos.y / 16) as usize;
        let idx = SectionPosIndex::from_block_pos(pos);
        proof {
            assert(0 <= slot_of(pos.y) < CHUNK_SECTIONS as int);
        }
        self.sections[slot].blocks.set_block(idx, block.id)
    }

    /// Whether the chunk is well formed: every section slot present,
    /// well formed and numbered by its position.
    pub fn check_wf(&self) -> (r: bool)
        ensures
            r == self.wf(),
    {
        if self.sections.len() != CHUNK_SECTIONS {
            return false;
        }
        let mut s: usize = 0;
        while s < CHUNK_SECTIONS
            invariant
                self.sections@.len() == CHUNK_SECTIONS,
                s <= CHUNK_SECTIONS,
                forall|i: int|
                    0 <= i < s ==> (#[trigger] self.sections@[i]).wf() && self.sections@[i].y
                        == i,
            decreases CHUNK_SECTIONS - s,
        {
            let e = &self.sections[s];
            if e.y != s as i8 || !e.blocks.check_wf() {
                return false;
            }
            s = s + 1;
        }
        true
    }

    /// Reads the block at a position, `None` outside the vertical range.
    pub fn get_block(&self, pos: BlockPosition) -> (r: Option<usize>)
        requires
            self.wf(),
        ensures
            0 <= pos.y < CHUNK_HEIGHT ==> r == Some(
                self.blocks_model()[slot_of(pos.y)][local_key(pos) as int],
            ),
            !(0 <= pos.y < CHUNK_HEIGHT) ==> r is None,
    {
        if pos.y < 0 || pos.y >= CHUNK_HEIGHT {
            return None;
        }
        let slot = (pos.y / 16) as usize;
        let idx = SectionPosIndex::from_block_pos(pos);
        proof {
            assert(0 <= slot_of(pos.y) < CHUNK_SECTIONS as int);
        }
        self.sections[slot].blocks.get_block(idx)
    }

    /// An exact copy of the chunk's coordinate and blocks; biome data is
    /// copied section for section as well.
    pub fn duplicate(&self) -> (r: AxolotlChunk)
        ensures
            r.chunk_pos == self.chunk_pos,
            r.blocks_model() =~= self.blocks_model(),
            r.wf() == self.wf(),
    {
        let mut sections: Vec<AxolotlChunkSection> = Vec::new();
        let mut s: usize = 0;
        while s < self.sections.len()
            invariant
                s <= self.sections@.len(),
                sections@.len() == s,
                forall|i: int|
                    0 <= i < s ==> ((#[trigger] sections@[i]).wf() == self.sections@[i].wf())
                        && sections@[i].y == self.sections@[i].y && sections@[i].blocks@
                        == self.sections@[i].blocks@,
            decreases self.sections@.len() - s,
        {
            let src = &self.sections[s];
            let biomes = match &src.biomes {
                AxolotlBiomeSection::SingleBiome(key) => AxolotlBiomeSection::SingleBiome(
                    key.duplicate(),
                ),
            };
            sections.push(
                AxolotlChunkSection { blocks: src.blocks.duplicate(), biomes, y: src.y },
            );
            s = s + 1;
        }
        let out = AxolotlChunk { chunk_pos: self.chunk_pos, sections };
        proof {
            if self.wf() {
                assert forall|i: int|
                    0 <= i < CHUNK_SECTIONS implies (#[trigger] out.sections@[i]).wf()
                        && out.sections@[i].y == i by {
                    assert(self.sections@[i].wf() && self.sections@[i].y == i);
                }
            }
            if out.wf() {
                assert forall|i: int|
                    0 <= i < CHUNK_SECTIONS implies (#[trigger] self.sections@[i]).wf()
                        && self.sections@[i].y == i by {
                    assert(out.sections@[i].wf() && out.sections@[i].y == i);
                }
            }
        }
        out
    }
}

} // verus!
