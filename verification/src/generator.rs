//! The chunk generator: evaluates the density tree across a region's
//! sample grid. Identical (seed, settings, coordinate) always produce
//! identical output; see `lemma_generation_deterministic`.
use vstd::prelude::*;

use crate::chunk::AxolotlChunk;
use crate::chunk::CHUNK_SECTIONS;
use crate::density::eval;
use crate::density::lemma_eval_congruent;
use crate::density::lemma_same_shape_reflexive;
use crate::density::lemma_same_shape_trans;
use crate::density::node_wf;
use crate::density::same_shape;
use crate::density::Function;
use crate::density::GenPass;
use crate::loading::build_function;
use crate::loading::matches_free;
use crate::loading::spec_build;
use crate::loading::BuildDefResult;
use crate::loading::FunctionArgument;
use crate::section::spec_unpack_x;
use crate::section::spec_unpack_y;
use crate::section::spec_unpack_z;
use crate::section::AxolotlBiomeSection;
use crate::section::AxolotlBlockSection;
use crate::section::AxolotlChunkSection;
use crate::section::SectionPosIndex;
use crate::section::MAX_BLOCK_STATE;
use crate::loading::DensityLoader;
use crate::ChunkPos;
use crate::OwnedNameSpaceKey;

verus! {

/// The sample position handed to a density evaluation: the global sample
/// coordinates of one column and the y level being sampled.
pub struct ChunkContext {
    pub chunk_x: i32,
    pub chunk_z: i32,
    pub y: i16,
}

impl ChunkContext {
    pub fn get_x(&self) -> (r: i32)
        ensures
            r == self.chunk_x,
    {
        self.chunk_x
    }

    pub fn get_y(&self) -> (r: i16)
        ensures
            r == self.y,
    {
        self.y
    }

    pub fn get_z(&self) -> (r: i32)
        ensures
            r == self.chunk_z,
    {
        self.chunk_z
    }
}

/// The noise half of the generator settings: the density definition and
/// the block placed where density is positive.
#[derive(Debug)]
pub struct NoiseSetting {
    pub density: FunctionArgument,
    pub default_block: usize,
}

/// The biome half of the generator settings.
#[derive(Debug)]
pub struct BiomeSourceSettings {
    pub biome: OwnedNameSpaceKey,
}

/// Everything a generator is built from.
#[derive(Debug)]
pub struct Settings {
    pub noise: NoiseSetting,
    pub biome_source: BiomeSourceSettings,
}

/// The largest chunk coordinate the generator samples, so that global
/// block coordinates stay in range.
pub const MAX_GEN_COORD: i32 = 0x0400_0000;

/// The block generated at one position of a chunk: the settings' block
/// where the density tree is positive, air elsewhere. `idx` is the packed
/// in-section position, `sec` the vertical section slot.
pub open spec fn generated_block(
    seed: u64,
    f: Function,
    default_block: usize,
    cx: int,
    cz: int,
    sec: int,
    idx: int,
) -> usize {
    let lx = spec_unpack_x(idx as u64);
    let ly = spec_unpack_y(idx as u64);
    let lz = spec_unpack_z(idx as u64);
    if eval(
        f,
        seed,
        (cx * 16 + lx) as i64,
        (sec * 16 + ly) as i64,
        (cz * 16 + lz) as i64,
    ) > 0 {
        default_block
    } else {
        0
    }
}

/// Two generators with the same seed, the same built density function
/// and the same default block generate identical block content at every
/// coordinate: generation is deterministic.
pub proof fn lemma_generation_deterministic(
    g1: NoiseGenerator,
    g2: NoiseGenerator,
    cx: int,
    cz: int,
    sec: int,
    idx: int,
)
    requires
        g1.seed == g2.seed,
        g1.default_block == g2.default_block,
        same_shape(g1.function, g2.function),
    ensures
        generated_block(g1.seed, g1.function, g1.default_block, cx, cz, sec, idx)
            == generated_block(g2.seed, g2.function, g2.default_block, cx, cz, sec, idx),
{
    let lx = spec_unpack_x(idx as u64);
    let ly = spec_unpack_y(idx as u64);
    let lz = spec_unpack_z(idx as u64);
    lemma_eval_congruent(
        g1.function,
        g2.function,
        g1.seed,
        (cx * 16 + lx) as i64,
        (sec * 16 + ly) as i64,
        (cz * 16 + lz) as i64,
    );
}

/// The generator: the seed, the built density tree, and what to place.
#[derive(Debug)]
pub struct NoiseGenerator {
    pub seed: u64,
    pub function: Function,
    pub default_block: usize,
    pub biome: OwnedNameSpaceKey,
}

impl NoiseGenerator {
    /// A usable generator: well-formed tree, placeable block.
    pub open spec fn wf(&self) -> bool {
        node_wf(self.function) && self.default_block <= MAX_BLOCK_STATE
    }

    /// Builds a generator from settings and a seed, resolving the density
    /// definition against the loader's namespace. Fails exactly when the
    /// density definition does not build or the default block id is not
    /// resolvable; a build failure aborts setup rather than substituting
    /// a default.
    pub fn new(settings: Settings, seed: u64, loader: &DensityLoader) -> (r: Result<
        NoiseGenerator,
        BuildDefResult,
    >)
        requires
            loader.wf(),
        ensures
            r is Ok <==> (spec_build(settings.noise.density, loader@) is Ok
                && settings.noise.default_block <= MAX_BLOCK_STATE),
            r matches Ok(g) ==> (g.wf() && g.seed == seed && g.default_block
                == settings.noise.default_block && g.biome == settings.biome_source.biome && (
            spec_build(settings.noise.density, loader@) matches Ok(e) && matches_free(
                g.function,
                e,
            ))),
    {
        if settings.noise.default_block > MAX_BLOCK_STATE {
            return Err(BuildDefResult::DescriptiveError("default block id is not resolvable"));
        }
        match build_function(&settings.noise.density, loader) {
            Ok(function) => Ok(
                NoiseGenerator {
                    seed,
                    function,
                    default_block: settings.noise.default_block,
                    biome: settings.biome_source.biome,
                },
            ),
            Err(err) => Err(err),
        }
    }

    /// Fills a chunk from the density tree: every block of every section
    /// is exactly the generated block of its position, a pure function of
    /// (seed, density tree, chunk coordinate) alone. The tree's memo state
    /// advances, its shape never changes.
    pub fn generate_chunk_into(&mut self, chunk: &mut AxolotlChunk)
        requires
            old(self).wf(),
            old(chunk).wf(),
            -MAX_GEN_COORD <= old(chunk).chunk_pos.x <= MAX_GEN_COORD,
            -MAX_GEN_COORD <= old(chunk).chunk_pos.z <= MAX_GEN_COORD,
        ensures
            final(self).wf(),
            final(self).seed == old(self).seed,
            final(self).default_block == old(self).default_block,
            final(self).biome == old(self).biome,
            same_shape(final(self).function, old(self).function),
            final(chunk).wf(),
            final(chunk).chunk_pos == old(chunk).chunk_pos,
            forall|sec: int, idx: int|
                0 <= sec < CHUNK_SECTIONS && 0 <= idx < 4096
                    ==> #[trigger] final(chunk).blocks_model()[sec][idx] == generated_block(
                    old(self).seed,
                    old(self).function,
                    old(self).default_block,
                    old(chunk).chunk_pos.x as int,
                    old(chunk).chunk_pos.z as int,
                    sec,
                    idx,
                ),
            forall|sec: int|
                0 <= sec < CHUNK_SECTIONS ==> ((#[trigger] final(chunk).sections@[sec]).biomes
                    matches AxolotlBiomeSection::SingleBiome(k) && k == old(self).biome),
    {
        let cx = chunk.chunk_pos.x;
        let cz = chunk.chunk_pos.z;
        let pass = GenPass { seed: self.seed, chunk_x: cx, chunk_z: cz };
        proof {
            lemma_same_shape_reflexive(self.function);
        }
        let mut sec: usize = 0;
        while sec < CHUNK_SECTIONS
            invariant
                self.wf(),
                self.seed == old(self).seed,
                self.default_block == old(self).default_block,
                self.biome == old(self).biome,
                same_shape(self.function, old(self).function),
                pass.seed == old(self).seed,
                chunk.wf(),
                chunk.chunk_pos == old(chunk).chunk_pos,
                cx == old(chunk).chunk_pos.x && cz == old(chunk).chunk_pos.z,
                -MAX_GEN_COORD <= cx <= MAX_GEN_COORD,
                -MAX_GEN_COORD <= cz <= MAX_GEN_COORD,
                sec <= CHUNK_SECTIONS,
                forall|s: int, idx: int|
                    0 <= s < sec && 0 <= idx < 4096
                        ==> #[trigger] chunk.blocks_model()[s][idx] == generated_block(
                        old(self).seed,
                        old(self).function,
                        old(self).default_block,
                        cx as int,
                        cz as int,
                        s,
                        idx,
                    ),
                forall|s: int|
                    0 <= s < sec ==> ((#[trigger] chunk.sections@[s]).biomes matches
                        AxolotlBiomeSection::SingleBiome(k) && k == old(self).biome),
            decreases CHUNK_SECTIONS - sec,
        {
            let mut ids: Vec<usize> = Vec::new();
            let mut idx: usize = 0;
            while idx < 4096
                invariant
                    self.wf(),
                    self.seed == old(self).seed,
                    self.default_block == old(self).default_block,
                    self.biome == old(self).biome,
                    same_shape(self.function, old(self).function),
                    pass.seed == old(self).seed,
                    -MAX_GEN_COORD <= cx <= MAX_GEN_COORD,
                    -MAX_GEN_COORD <= cz <= MAX_GEN_COORD,
                    sec < CHUNK_SECTIONS,
                    idx <= 4096,
                    ids@.len() == idx,
                    forall|i: int| 0 <= i < idx ==> #[trigger] ids@[i] <= MAX_BLOCK_STATE,
                    forall|i: int|
                        0 <= i < idx ==> #[trigger] ids@[i] == generated_block(
                            old(self).seed,
                            old(self).function,
                            old(self).default_block,
                            cx as int,
                            cz as int,
                            sec as int,
                            i,
                        ),
                decreases 4096 - idx,
            {
                let key = SectionPosIndex(idx as u64);
                let (lx, ly, lz) = key.into_parts();
                let gx: i32 = cx * 16 + (lx as i32);
                let gy: i16 = ((sec as i16) * 16) + (ly as i16);
                let gz: i32 = cz * 16 + (lz as i32);
                let ctx = ChunkContext { chunk_x: gx, chunk_z: gz, y: gy };
                let ghost before = self.function;
                let v = self.function.compute(&pass, &ctx);
                proof {
                    lemma_same_shape_trans(self.function, before, old(self).function);
                    lemma_eval_congruent(
                        before,
                        old(self).function,
                        old(self).seed,
                        gx as i64,
                        gy as i64,
                        gz as i64,
                    );
                    assert(gx as i64 == (cx as int * 16 + spec_unpack_x(idx as u64)) as i64);
                    assert(gy as i64 == (sec as int * 16 + spec_unpack_y(idx as u64)) as i64);
                    assert(gz as i64 == (cz as int * 16 + spec_unpack_z(idx as u64)) as i64);
                }
                if v > 0 {
                    ids.push(self.default_block);
                } else {
                    ids.push(0);
                }
                idx = idx + 1;
            }
            let ghost gids = ids@;
            let blocks = AxolotlBlockSection::from_ids(ids);
            let biomes = AxolotlBiomeSection::SingleBiome(self.biome.duplicate());
            let section = AxolotlChunkSection { blocks, biomes, y: sec as i8 };
            let ghost gsection = section;
            let ghost oldsecs = chunk.sections@;
            let ghost oldmodel = chunk.blocks_model();
            chunk.sections.set(sec, section);
            proof {
                assert forall|s: int, idx: int|
                    0 <= s < sec + 1 && 0 <= idx < 4096
                        implies #[trigger] chunk.blocks_model()[s][idx] == generated_block(
                        old(self).seed,
                        old(self).function,
                        old(self).default_block,
                        cx as int,
                        cz as int,
                        s,
                        idx,
                    ) by {
                    if s < sec {
                        assert(chunk.sections@[s] == oldsecs[s]);
                        assert(chunk.blocks_model()[s] == oldsecs[s].blocks@);
                        assert(oldmodel[s] == oldsecs[s].blocks@);
                        assert(oldmodel[s][idx] == generated_block(
                            old(self).seed,
                            old(self).function,
                            old(self).default_block,
                            cx as int,
                            cz as int,
                            s,
                            idx,
                        ));
                    } else {
                        assert(chunk.sections@[s] == gsection);
                        assert(chunk.blocks_model()[s] == gsection.blocks@);
                        assert(gsection.blocks@ == gids);
                        assert(gids[idx] == generated_block(
                            old(self).seed,
                            old(self).function,
                            old(self).default_block,
                            cx as int,
                            cz as int,
                            s,
                            idx,
                        ));
                    }
                }
            }
            sec = sec + 1;
        }
    }

    /// Allocates a chunk at the coordinate and fills it; the result is a
    /// pure function of (seed, density tree, coordinate).
    pub fn generate_chunk(&mut self, chunk_x: i32, chunk_z: i32) -> (r: AxolotlChunk)
        requires
            old(self).wf(),
            -MAX_GEN_COORD <= chunk_x <= MAX_GEN_COORD,
            -MAX_GEN_COORD <= chunk_z <= MAX_GEN_COORD,
        ensures
            final(self).wf(),
            final(self).seed == old(self).seed,
            final(self).default_block == old(self).default_block,
            final(self).biome == old(self).biome,
            same_shape(final(self).function, old(self).function),
            r.wf(),
            r.chunk_pos.x == chunk_x && r.chunk_pos.z == chunk_z,
            forall|sec: int, idx: int|
                0 <= sec < CHUNK_SECTIONS && 0 <= idx < 4096
                    ==> #[trigger] r.blocks_model()[sec][idx] == generated_block(
                    old(self).seed,
                    old(self).function,
                    old(self).default_block,
                    chunk_x as int,
                    chunk_z as int,
                    sec,
                    idx,
                ),
            forall|sec: int|
                0 <= sec < CHUNK_SECTIONS ==> ((#[trigger] r.sections@[sec]).biomes matches
                    AxolotlBiomeSection::SingleBiome(k) && k == old(self).biome),
    {
        let mut chunk = AxolotlChunk::new(ChunkPos::new(chunk_x, chunk_z));
        self.generate_chunk_into(&mut chunk);
        chunk
    }
}

} // verus!
