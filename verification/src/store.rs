//! The chunk store: a map from region coordinate to resident region,
//! fronted by a producer-safe update queue. A single consuming path
//! drains the queue and performs every load, generate and unload, so at
//! most one materialization is in flight per coordinate.
use vstd::prelude::*;

use crate::chunk::AxolotlChunk;
use crate::chunk::CHUNK_HEIGHT;
use crate::chunk::CHUNK_SECTIONS;
use crate::chunk::local_key;
use crate::chunk::slot_of;
use crate::generator::NoiseGenerator;
use crate::generator::MAX_GEN_COORD;
use crate::section::MAX_BLOCK_STATE;
use crate::tickets::ChunkTickets;
use crate::BlockPosition;
use crate::ChunkPos;
use crate::PlacedBlock;

verus! {

/// One queued structural change: load (optionally carrying one pending
/// block edit) or unload of a region.
#[derive(Debug)]
pub enum ChunkUpdate {
    Unload { x: i32, z: i32 },
    Load { x: i32, z: i32, set_block: Option<(BlockPosition, PlacedBlock)> },
}

/// The region-file coordinate of an update: chunk coordinates shifted
/// right by five (32 by 32 chunks per region file).
pub open spec fn region_of(u: ChunkUpdate) -> (i32, i32) {
    match u {
        ChunkUpdate::Unload { x, z } => ((x >> 5) as i32, (z >> 5) as i32),
        ChunkUpdate::Load { x, z, .. } => ((x >> 5) as i32, (z >> 5) as i32),
    }
}

/// The chunk coordinate an update is about.
pub open spec fn coord_of(u: ChunkUpdate) -> (i32, i32) {
    match u {
        ChunkUpdate::Unload { x, z } => (x, z),
        ChunkUpdate::Load { x, z, .. } => (x, z),
    }
}

impl ChunkUpdate {
    /// The region-file coordinate this update falls into.
    pub fn get_region(&self) -> (r: (i32, i32))
        ensures
            r == region_of(*self),
    {
        match self {
            ChunkUpdate::Unload { x, z } => (*x >> 5, *z >> 5),
            ChunkUpdate::Load { x, z, .. } => (*x >> 5, *z >> 5),
        }
    }
}

/// The multi-producer update queue, an unbounded channel: enqueues are
/// wait-free and never fail while the queue lives, and the single
/// consuming path drains in FIFO order.
#[verifier::external_body]
pub struct UpdateQueue {
    sender: flume::Sender<ChunkUpdate>,
    receiver: flume::Receiver<ChunkUpdate>,
}

/// The updates a queue holds, front first.
pub uninterp spec fn queue_updates(q: UpdateQueue) -> Seq<ChunkUpdate>;

/// Relies on flume's unbounded: a new channel holds nothing.
#[verifier::external_body]
fn queue_new() -> (r: UpdateQueue)
    ensures
        queue_updates(r) == Seq::<ChunkUpdate>::empty(),
{
    let (sender, receiver) = flume::unbounded();
    UpdateQueue { sender, receiver }
}

/// Relies on flume's Sender::send: on an unbounded channel it appends at
/// the back without blocking, and cannot fail while the receiving half
/// is alive inside the same queue.
#[verifier::external_body]
fn queue_push(q: &mut UpdateQueue, u: ChunkUpdate)
    ensures
        queue_updates(*final(q)) == queue_updates(*old(q)).push(u),
{
    let _ = q.sender.send(u);
}

/// Relies on flume's Receiver::try_recv: takes the front element if one
/// is queued (the channel fully respects FIFO order).
#[verifier::external_body]
fn queue_pop(q: &mut UpdateQueue) -> (r: Option<ChunkUpdate>)
    ensures
        queue_updates(*old(q)).len() == 0 ==> (r is None && queue_updates(*final(q))
            == queue_updates(*old(q))),
        queue_updates(*old(q)).len() > 0 ==> (r == Some(queue_updates(*old(q))[0])
            && queue_updates(*final(q)) == queue_updates(*old(q)).subrange(
            1,
            queue_updates(*old(q)).len() as int,
        )),
{
    q.receiver.try_recv().ok()
}

/// The persistence accessor the store owns: loading existing regions,
/// saving them, releasing resources. Implementations decide where the
/// bytes live; a loaded region is always well formed and at the asked
/// coordinate.
pub trait WorldAccessor {
    /// Existing content for a coordinate, if there is any. The store does
    /// not trust the result: it validates shape and coordinate itself.
    fn load(&mut self, pos: ChunkPos) -> (r: Option<AxolotlChunk>);

    /// Persists one region; a failure carries its description. The store
    /// only ever hands well-formed regions over.
    fn save(&mut self, chunk: &AxolotlChunk) -> (r: Result<(), String>)
        requires
            chunk.wf(),
    ;

    /// Flushes and releases persistence resources.
    fn force_close_all(&mut self);
}

/// An in-memory persistence accessor: regions survive only as long as
/// the accessor does.
pub struct MemoryAccessor {
    saved: Vec<AxolotlChunk>,
}

impl MemoryAccessor {
    pub fn new() -> (r: MemoryAccessor) {
        MemoryAccessor { saved: Vec::new() }
    }
}

impl WorldAccessor for MemoryAccessor {
    /// A copy of the most recently saved region at the coordinate.
    fn load(&mut self, pos: ChunkPos) -> (r: Option<AxolotlChunk>) {
        let mut i: usize = self.saved.len();
        while i > 0
            invariant
                i <= self.saved@.len(),
            decreases i,
        {
            i = i - 1;
            let c = &self.saved[i];
            if c.chunk_pos.x == pos.x && c.chunk_pos.z == pos.z {
                assert(c.chunk_pos == pos);
                return Some(c.duplicate());
            }
        }
        None
    }

    /// Appends a copy, which shadows any earlier save at the coordinate.
    fn save(&mut self, chunk: &AxolotlChunk) -> (r: Result<(), String>) {
        self.saved.push(chunk.duplicate());
        Ok(())
    }

    fn force_close_all(&mut self) {
    }
}

/// Whether a chunk coordinate is inside the generator's sampled range.
pub open spec fn in_gen_range(c: (i32, i32)) -> bool {
    -MAX_GEN_COORD <= c.0 <= MAX_GEN_COORD && -MAX_GEN_COORD <= c.1 <= MAX_GEN_COORD
}

/// One resident region and whether it has unsaved changes.
pub struct ResidentChunk {
    pub chunk: AxolotlChunk,
    pub dirty: bool,
}

/// The store: resident regions, the update queue, the generator and the
/// persistence accessor it owns.
pub struct ChunkMap<A: WorldAccessor> {
    pub generator: NoiseGenerator,
    pub accessor: A,
    pub chunks: Vec<ResidentChunk>,
    pub queue: UpdateQueue,
}

impl<A: WorldAccessor> ChunkMap<A> {
    /// A usable store: a well-formed generator, one well-formed resident
    /// region per coordinate, and only generatable coordinates queued.
    pub closed spec fn wf(&self) -> bool {
        &&& self.generator.wf()
        &&& forall|i: int, j: int|
            0 <= i < j < self.chunks@.len() ==> (#[trigger] self.chunks@[i]).chunk.chunk_pos != (
            #[trigger] self.chunks@[j]).chunk.chunk_pos
        &&& forall|i: int|
            0 <= i < self.chunks@.len() ==> (#[trigger] self.chunks@[i]).chunk.wf() && in_gen_range(
                (self.chunks@[i].chunk.chunk_pos.x, self.chunks@[i].chunk.chunk_pos.z),
            )
        &&& forall|i: int|
            0 <= i < queue_updates(self.queue).len() ==> in_gen_range(
                coord_of(#[trigger] queue_updates(self.queue)[i]),
            )
    }

    /// The resident entries, in insertion order.
    pub closed spec fn chunks_model(&self) -> Seq<ResidentChunk> {
        self.chunks@
    }

    /// Whether a region is resident.
    pub closed spec fn resident(&self, x: int, z: int) -> bool {
        exists|i: int|
            0 <= i < self.chunks@.len() && (#[trigger] self.chunks@[i]).chunk.chunk_pos.x == x
                && self.chunks@[i].chunk.chunk_pos.z == z
    }

    /// The resident region at a coordinate.
    pub closed spec fn resident_chunk(&self, x: int, z: int) -> AxolotlChunk {
        self.chunks@[choose|i: int|
            0 <= i < self.chunks@.len() && (#[trigger] self.chunks@[i]).chunk.chunk_pos.x == x
                && self.chunks@[i].chunk.chunk_pos.z == z].chunk
    }

    /// Stores with the same resident entries agree on residency and on
    /// every resident region.
    proof fn lemma_same_chunks_frame(a: Self, b: Self)
        requires
            a.chunks@ == b.chunks@,
        ensures
            forall|x: int, z: int| a.resident(x, z) == b.resident(x, z),
            forall|x: int, z: int|
                #[trigger] a.resident(x, z) ==> a.resident_chunk(x, z) == b.resident_chunk(x, z),
    {
        assert forall|x: int, z: int| a.resident(x, z) == b.resident(x, z) by {
            if a.resident(x, z) {
                let i = choose|i: int|
                    0 <= i < a.chunks@.len() && (#[trigger] a.chunks@[i]).chunk.chunk_pos.x == x
                        && a.chunks@[i].chunk.chunk_pos.z == z;
                assert(b.chunks@[i].chunk.chunk_pos.x == x && b.chunks@[i].chunk.chunk_pos.z == z);
            }
            if b.resident(x, z) {
                let i = choose|i: int|
                    0 <= i < b.chunks@.len() && (#[trigger] b.chunks@[i]).chunk.chunk_pos.x == x
                        && b.chunks@[i].chunk.chunk_pos.z == z;
                assert(a.chunks@[i].chunk.chunk_pos.x == x && a.chunks@[i].chunk.chunk_pos.z == z);
            }
        }
        assert forall|x: int, z: int| #[trigger] a.resident(x, z) implies a.resident_chunk(x, z)
            == b.resident_chunk(x, z) by {
            let i = choose|i: int|
                0 <= i < a.chunks@.len() && (#[trigger] a.chunks@[i]).chunk.chunk_pos.x == x
                    && a.chunks@[i].chunk.chunk_pos.z == z;
            let j = choose|j: int|
                0 <= j < b.chunks@.len() && (#[trigger] b.chunks@[j]).chunk.chunk_pos.x == x
                    && b.chunks@[j].chunk.chunk_pos.z == z;
            assert(a.chunks@[j].chunk.chunk_pos.x == x && a.chunks@[j].chunk.chunk_pos.z == z);
        }
    }

    /// In a well-formed store any entry at a coordinate is the resident
    /// region of that coordinate.
    proof fn lemma_resident_at(&self, i: int)
        requires
            self.wf(),
            0 <= i < self.chunks@.len(),
        ensures
            self.resident(
                self.chunks@[i].chunk.chunk_pos.x as int,
                self.chunks@[i].chunk.chunk_pos.z as int,
            ),
            self.resident_chunk(
                self.chunks@[i].chunk.chunk_pos.x as int,
                self.chunks@[i].chunk.chunk_pos.z as int,
            ) == self.chunks@[i].chunk,
    {
        let x = self.chunks@[i].chunk.chunk_pos.x as int;
        let z = self.chunks@[i].chunk.chunk_pos.z as int;
        assert(self.resident(x, z));
        let j = choose|j: int|
            0 <= j < self.chunks@.len() && (#[trigger] self.chunks@[j]).chunk.chunk_pos.x == x
                && self.chunks@[j].chunk.chunk_pos.z == z;
        assert(j == i);
    }

    /// An empty store around a generator and an accessor.
    pub fn new(generator: NoiseGenerator, accessor: A) -> (r: ChunkMap<A>)
        requires
            generator.wf(),
        ensures
            r.wf(),
            r.generator == generator,
            forall|x: int, z: int| !r.resident(x, z),
            queue_updates(r.queue).len() == 0,
    {
        ChunkMap { generator, accessor, chunks: Vec::new(), queue: queue_new() }
    }

    /// The index of the resident region at a coordinate.
    fn find(&self, x: i32, z: i32) -> (r: Option<usize>)
        requires
            self.wf(),
        ensures
            r matches Some(i) ==> i < self.chunks@.len() && self.chunks@[i as int].chunk.chunk_pos.x
                == x && self.chunks@[i as int].chunk.chunk_pos.z == z,
            r is None ==> !self.resident(x as int, z as int),
    {
        let mut i: usize = 0;
        while i < self.chunks.len()
            invariant
                i <= self.chunks@.len(),
                forall|j: int|
                    0 <= j < i ==> !((#[trigger] self.chunks@[j]).chunk.chunk_pos.x == x
                        && self.chunks@[j].chunk.chunk_pos.z == z),
            decreases self.chunks@.len() - i,
        {
            let c = &self.chunks[i];
            if c.chunk.chunk_pos.x == x && c.chunk.chunk_pos.z == z {
                return Some(i);
            }
            i = i + 1;
        }
        None
    }

    /// Non-blocking residency lookup.
    pub fn get(&self, pos: ChunkPos) -> (r: Option<&AxolotlChunk>)
        requires
            self.wf(),
        ensures
            r matches Some(c) ==> (self.resident(pos.x as int, pos.z as int) && *c
                == self.resident_chunk(pos.x as int, pos.z as int) && c.wf()),
            r is None ==> !self.resident(pos.x as int, pos.z as int),
    {
        match self.find(pos.x, pos.z) {
            Some(i) => {
                proof {
                    self.lemma_resident_at(i as int);
                }
                Some(&self.chunks[i].chunk)
            },
            None => None,
        }
    }

    /// Enqueues a load, optionally carrying one pending block edit; the
    /// enqueue itself always succeeds immediately.
    pub fn enqueue_load(&mut self, x: i32, z: i32, set_block: Option<(BlockPosition, PlacedBlock)>)
        requires
            old(self).wf(),
            in_gen_range((x, z)),
        ensures
            final(self).wf(),
            queue_updates(final(self).queue) == queue_updates(old(self).queue).push(
                ChunkUpdate::Load { x, z, set_block },
            ),
            final(self).chunks_model() == old(self).chunks_model(),
            final(self).generator == old(self).generator,
            final(self).accessor == old(self).accessor,
            forall|a: int, c: int| final(self).resident(a, c) == old(self).resident(a, c),
            forall|a: int, c: int|
                #[trigger] old(self).resident(a, c) ==> final(self).resident_chunk(a, c) == old(self).resident_chunk(a, c),
    {
        queue_push(&mut self.queue, ChunkUpdate::Load { x, z, set_block });
        proof {
            Self::lemma_same_chunks_frame(*old(self), *self);
        }
    }

    /// Enqueues an unload; it always succeeds immediately.
    pub fn enqueue_unload(&mut self, x: i32, z: i32)
        requires
            old(self).wf(),
            in_gen_range((x, z)),
        ensures
            final(self).wf(),
            queue_updates(final(self).queue) == queue_updates(old(self).queue).push(
                ChunkUpdate::Unload { x, z },
            ),
            final(self).chunks_model() == old(self).chunks_model(),
            final(self).generator == old(self).generator,
            final(self).accessor == old(self).accessor,
            forall|a: int, c: int| final(self).resident(a, c) == old(self).resident(a, c),
            forall|a: int, c: int|
                #[trigger] old(self).resident(a, c) ==> final(self).resident_chunk(a, c) == old(self).resident_chunk(a, c),
    {
        queue_push(&mut self.queue, ChunkUpdate::Unload { x, z });
        proof {
            Self::lemma_same_chunks_frame(*old(self), *self);
        }
    }

    /// Whether a later update of the queue unloads the same coordinate.
    pub open spec fn unload_follows(q: Seq<ChunkUpdate>, i: int) -> bool {
        exists|j: int|
            i < j < q.len() && (#[trigger] q[j]) is Unload && coord_of(q[j]) == coord_of(q[i])
    }

    /// A load that no later queued unload of its coordinate revokes: after
    /// a full drain its region is resident.
    pub open spec fn load_survives(q: Seq<ChunkUpdate>, i: int) -> bool {
        0 <= i < q.len() && q[i] is Load && !Self::unload_follows(q, i)
    }

    /// Applies one update on the consuming path. A load materializes the
    /// region (existing content if the accessor has any valid one, else
    /// generated), applies the carried edit, and publishes it; a load of
    /// an already resident region changes nothing. An unload drops the
    /// region only if no viewer holds a ticket on it, persisting it first
    /// when dirty; a persistence failure propagates and keeps residency.
    #[verifier::rlimit(100)]
    #[verifier::spinoff_prover]
    fn apply_update(&mut self, u: ChunkUpdate, tickets: &ChunkTickets) -> (r: Result<(), String>)
        requires
            old(self).wf(),
            in_gen_range(coord_of(u)),
            tickets.wf(),
        ensures
            final(self).wf(),
            queue_updates(final(self).queue) == queue_updates(old(self).queue),
            forall|a: int, c: int|
                (a, c) != (coord_of(u).0 as int, coord_of(u).1 as int)
                    ==> #[trigger] final(self).resident(a, c) == old(self).resident(a, c),
            u matches ChunkUpdate::Load { x, z, set_block } ==> (final(self).resident(
                x as int,
                z as int,
            ) && (old(self).resident(x as int, z as int) ==> final(self).chunks@ == old(self).chunks@) && (set_block matches Some((p, b)) ==> (!old(self).resident(x as int, z as int)
                && 0 <= p.y < CHUNK_HEIGHT && b.id <= MAX_BLOCK_STATE ==> final(self).resident_chunk(x as int, z as int).blocks_model()[slot_of(p.y)][local_key(p) as int]
                == b.id))),
            u matches ChunkUpdate::Unload { x, z } ==> ((forall|v: u64|
                !tickets.has_ticket(ChunkPos { x, z }, v)) && r is Ok ==> !final(self).resident(
                x as int,
                z as int,
            )),
            u matches ChunkUpdate::Unload { x, z } ==> ((exists|v: u64|
                tickets.has_ticket(ChunkPos { x, z }, v)) ==> final(self).chunks@ == old(self).chunks@),
            r is Err ==> u matches ChunkUpdate::Unload { .. },
    {
        match u {
            ChunkUpdate::Load { x, z, set_block } => {
                match self.find(x, z) {
                    Some(i) => {
                        proof {
                            assert(self.chunks@[i as int].chunk.chunk_pos.x == x
                                && self.chunks@[i as int].chunk.chunk_pos.z == z);
                            assert(self.resident(x as int, z as int));
                        }
                        Ok(())
                    },
                    None => {
                        let loaded = self.accessor.load(ChunkPos::new(x, z));
                        let mut chunk: AxolotlChunk = match loaded {
                            Some(c) => {
                                if c.check_wf() && c.chunk_pos.x == x && c.chunk_pos.z == z {
                                    c
                                } else {
                                    self.generator.generate_chunk(x, z)
                                }
                            },
                            None => self.generator.generate_chunk(x, z),
                        };
                        let ghost gpre = chunk;
                        match set_block {
                            Some((p, b)) => {
                                let edit_result = chunk.set_block(p, b);
                                proof {
                                    if 0 <= p.y < CHUNK_HEIGHT && b.id <= MAX_BLOCK_STATE {
                                        assert(edit_result is Ok);
                                        let slot = slot_of(p.y);
                                        let key = local_key(p) as int;
                                        crate::section::lemma_pack_in_volume(
                                            (crate::section::abs_i64(p.x) % 16) as u64,
                                            (crate::section::abs_i64(p.y) % 16) as u64,
                                            (crate::section::abs_i64(p.z) % 16) as u64,
                                        );
                                        assert(0 <= slot < CHUNK_SECTIONS as int);
                                        assert(gpre.sections@[slot].wf());
                                        gpre.sections@[slot].blocks.lemma_wf_len();
                                        assert(gpre.blocks_model()[slot].len() == 4096);
                                        assert(chunk.blocks_model()[slot]
                                            == gpre.blocks_model()[slot].update(key, b.id));
                                        assert(chunk.blocks_model()[slot][key] == b.id);
                                    }
                                }
                            },
                            None => {},
                        }
                        let ghost oldchunks = self.chunks@;
                        let entry = ResidentChunk { chunk, dirty: true };
                        let ghost gentry = entry;
                        self.chunks.push(entry);
                        proof {
                            let n = oldchunks.len() as int;
                            assert(self.chunks@[n] == gentry);
                            assert(self.resident(x as int, z as int));
                            self.lemma_resident_at(n);
                            assert(self.resident_chunk(x as int, z as int) == gentry.chunk);
                            assert forall|a: int, c: int|
                                (a, c) != (x as int, z as int) implies #[trigger] self.resident(
                                a,
                                c,
                            ) == old(self).resident(a, c) by {
                                if self.resident(a, c) {
                                    let j = choose|j: int|
                                        0 <= j < self.chunks@.len() && (
                                        #[trigger] self.chunks@[j]).chunk.chunk_pos.x == a
                                            && self.chunks@[j].chunk.chunk_pos.z == c;
                                    assert(j < n);
                                    assert(old(self).chunks@[j].chunk.chunk_pos.x == a && old(self).chunks@[j].chunk.chunk_pos.z == c);
                                    assert(old(self).resident(a, c));
                                }
                                if old(self).resident(a, c) {
                                    let j = choose|j: int|
                                        0 <= j < old(self).chunks@.len() && (#[trigger] old(self).chunks@[j]).chunk.chunk_pos.x == a && old(self).chunks@[j].chunk.chunk_pos.z == c;
                                    assert(self.chunks@[j].chunk.chunk_pos.x == a
                                        && self.chunks@[j].chunk.chunk_pos.z == c);
                                    assert(self.resident(a, c));
                                }
                            }
                        }
                        Ok(())
                    },
                }
            },
            ChunkUpdate::Unload { x, z } => {
                if tickets.has_no_interest(ChunkPos::new(x, z)) {
                    match self.find(x, z) {
                        Some(i) => {
                            if self.chunks[i].dirty {
                                match self.accessor.save(&self.chunks[i].chunk) {
                                    Ok(()) => {},
                                    Err(e) => {
                                        proof {
                                            Self::lemma_same_chunks_frame(*old(self), *self);
                                        }
                                        return Err(e);
                                    },
                                }
                            }
                            let ghost oldchunks = self.chunks@;
                            let _removed = self.chunks.swap_remove(i);
                            proof {
                                let n = self.chunks@.len() as int;
                                assert forall|a: int, c: int|
                                    (a, c) != (x as int, z as int) implies #[trigger] self.resident(
                                    a,
                                    c,
                                ) == old(self).resident(a, c) by {
                                    if self.resident(a, c) {
                                        let j = choose|j: int|
                                            0 <= j < self.chunks@.len() && (
                                            #[trigger] self.chunks@[j]).chunk.chunk_pos.x == a
                                                && self.chunks@[j].chunk.chunk_pos.z == c;
                                        let src: int = if j == i as int {
                                            oldchunks.len() - 1
                                        } else {
                                            j
                                        };
                                        assert(self.chunks@[j] == oldchunks[src]);
                                        assert(old(self).chunks@[src].chunk.chunk_pos.x == a && old(self).chunks@[src].chunk.chunk_pos.z == c);
                                        assert(old(self).resident(a, c));
                                    }
                                    if old(self).resident(a, c) {
                                        let j = choose|j: int|
                                            0 <= j < oldchunks.len() && (
                                            #[trigger] oldchunks[j]).chunk.chunk_pos.x == a
                                                && oldchunks[j].chunk.chunk_pos.z == c;
                                        let dst: int = if j == oldchunks.len() - 1 {
                                            i as int
                                        } else {
                                            j
                                        };
                                        assert(j != i as int);
                                        if j != oldchunks.len() - 1 {
                                            assert(self.chunks@[dst] == oldchunks[j]);
                                        } else {
                                            assert(self.chunks@[dst] == oldchunks[j]);
                                        }
                                        assert(self.chunks@[dst].chunk.chunk_pos.x == a
                                            && self.chunks@[dst].chunk.chunk_pos.z == c);
                                        assert(self.resident(a, c));
                                    }
                                }
                                assert(!self.resident(x as int, z as int)) by {
                                    if self.resident(x as int, z as int) {
                                        let j = choose|j: int|
                                            0 <= j < self.chunks@.len() && (
                                            #[trigger] self.chunks@[j]).chunk.chunk_pos.x == x
                                                && self.chunks@[j].chunk.chunk_pos.z == z;
                                        let src: int = if j == i as int {
                                            oldchunks.len() - 1
                                        } else {
                                            j
                                        };
                                        assert(oldchunks[src].chunk.chunk_pos.x == x
                                            && oldchunks[src].chunk.chunk_pos.z == z);
                                        assert(src == i as int);
                                    }
                                }
                            }
                            Ok(())
                        },
                        None => Ok(()),
                    }
                } else {
                    Ok(())
                }
            },
        }
    }

    /// Drains the queue on the single consuming path, loading, generating
    /// and unloading synchronously. On success the queue is empty, and
    /// every queued load that no later queued unload of its coordinate
    /// revokes leaves its region resident. When the whole queue was one
    /// load of an absent region carrying an edit, the region is resident
    /// afterwards with the edit applied.
    #[verifier::rlimit(100)]
    #[verifier::spinoff_prover]
    pub fn handle_updates(&mut self, tickets: &ChunkTickets) -> (r: Result<(), String>)
        requires
            old(self).wf(),
            tickets.wf(),
        ensures
            final(self).wf(),
            r is Ok ==> queue_updates(final(self).queue).len() == 0,
            r is Ok ==> forall|i: int|
                #[trigger] Self::load_survives(queue_updates(old(self).queue), i) ==> final(self).resident(
                    coord_of(queue_updates(old(self).queue)[i]).0 as int,
                    coord_of(queue_updates(old(self).queue)[i]).1 as int,
                ),
            r is Err ==> exists|i: int|
                0 <= i < queue_updates(old(self).queue).len() && (#[trigger] queue_updates(
                    old(self).queue,
                )[i]) matches ChunkUpdate::Unload { .. },
            queue_updates(old(self).queue)[0] matches ChunkUpdate::Load { x, z, set_block } ==> (
            queue_updates(old(self).queue).len() == 1 && r is Ok ==> (final(self).resident(
                x as int,
                z as int,
            ) && (set_block matches Some((p, b)) ==> (!old(self).resident(x as int, z as int) && 0
                <= p.y < CHUNK_HEIGHT && b.id <= MAX_BLOCK_STATE ==> final(self).resident_chunk(
                x as int,
                z as int,
            ).blocks_model()[slot_of(p.y)][local_key(p) as int] == b.id)))),
    {
        let ghost q0 = queue_updates(old(self).queue);
        proof {
            assert(queue_updates(self.queue) =~= q0.subrange(0, q0.len() as int));
        }
        loop
            invariant
                q0 == queue_updates(old(self).queue),
                self.wf(),
                tickets.wf(),
                queue_updates(self.queue) == q0.subrange(
                    q0.len() - queue_updates(self.queue).len(),
                    q0.len() as int,
                ),
                queue_updates(self.queue).len() <= q0.len(),
                queue_updates(self.queue).len() == q0.len() ==> self.chunks@ == old(self).chunks@,
                forall|i: int|
                    0 <= i < q0.len() - queue_updates(self.queue).len() && #[trigger] Self::load_survives(
                        q0,
                        i,
                    ) ==> self.resident(
                        coord_of(q0[i]).0 as int,
                        coord_of(q0[i]).1 as int,
                    ),
                q0[0] matches ChunkUpdate::Load { x, z, set_block } ==> (q0.len() == 1
                    && queue_updates(self.queue).len() == 0 ==> (self.resident(
                    x as int,
                    z as int,
                ) && (set_block matches Some((p, b)) ==> (!old(self).resident(x as int, z as int)
                    && 0 <= p.y < CHUNK_HEIGHT && b.id <= MAX_BLOCK_STATE ==> self.resident_chunk(
                    x as int,
                    z as int,
                ).blocks_model()[slot_of(p.y)][local_key(p) as int] == b.id)))),
            decreases queue_updates(self.queue).len(),
        {
            let ghost qpre = queue_updates(self.queue);
            let ghost atstart = *self;
            let next = queue_pop(&mut self.queue);
            let ghost pre = *self;
            match next {
                None => {
                    proof {
                        assert(qpre.len() == 0);
                        assert(atstart.chunks@ == self.chunks@);
                        Self::lemma_same_chunks_frame(atstart, *self);
                        assert forall|i: int|
                            #[trigger] Self::load_survives(q0, i) implies self.resident(
                            coord_of(q0[i]).0 as int,
                            coord_of(q0[i]).1 as int,
                        ) by {
                            assert(0 <= i < q0.len() - qpre.len());
                            assert(atstart.resident(
                                coord_of(q0[i]).0 as int,
                                coord_of(q0[i]).1 as int,
                            ));
                        }
                    }
                    return Ok(());
                },
                Some(u) => {
                    proof {
                        assert(u == q0[q0.len() - qpre.len()]);
                        assert(in_gen_range(coord_of(u)));
                    }
                    match self.apply_update(u, tickets) {
                        Ok(()) => {
                            proof {
                                assert(queue_updates(self.queue) =~= q0.subrange(
                                    q0.len() - queue_updates(self.queue).len(),
                                    q0.len() as int,
                                ));
                                if q0.len() == 1 {
                                    assert(qpre.len() == 1);
                                    assert(pre.chunks@ == old(self).chunks@);
                                    Self::lemma_same_chunks_frame(pre, *old(self));
                                    assert(u == q0[0]);
                                }
                                let k = q0.len() - qpre.len();
                                assert(atstart.chunks@ == pre.chunks@);
                                Self::lemma_same_chunks_frame(atstart, pre);
                                assert forall|i: int|
                                    0 <= i < q0.len() - queue_updates(self.queue).len()
                                        && #[trigger] Self::load_survives(q0, i)
                                        implies self.resident(
                                        coord_of(q0[i]).0 as int,
                                        coord_of(q0[i]).1 as int,
                                    ) by {
                                    let ci = coord_of(q0[i]);
                                    if i < k {
                                        assert(atstart.resident(ci.0 as int, ci.1 as int));
                                        assert(pre.resident(ci.0 as int, ci.1 as int));
                                        if (ci.0 as int, ci.1 as int) != (
                                            coord_of(u).0 as int,
                                            coord_of(u).1 as int,
                                        ) {
                                            assert(self.resident(ci.0 as int, ci.1 as int));
                                        } else {
                                            assert(!(q0[k] is Unload && coord_of(q0[k])
                                                == coord_of(q0[i])));
                                            assert(u is Load);
                                            assert(self.resident(
                                                coord_of(u).0 as int,
                                                coord_of(u).1 as int,
                                            ));
                                        }
                                    } else {
                                        assert(i == k);
                                        assert(u is Load);
                                        assert(self.resident(ci.0 as int, ci.1 as int));
                                    }
                                }
                            }
                        },
                        Err(e) => {
                            proof {
                                let k = q0.len() - qpre.len();
                                assert(q0[k] matches ChunkUpdate::Unload { .. });
                            }
                            return Err(e);
                        },
                    }
                },
            }
        }
    }

    /// Writes one block into the resident region that contains the
    /// position, marking it dirty; returns whether such a region was
    /// resident. Nothing at all changes when it is not, and nothing but
    /// that region's blocks when it is.
    pub fn set_block_resident(&mut self, pos: BlockPosition, block: PlacedBlock) -> (r: bool)
        requires
            old(self).wf(),
            -0x8_0000_0000 <= pos.x < 0x8_0000_0000,
            -0x8_0000_0000 <= pos.z < 0x8_0000_0000,
        ensures
            final(self).wf(),
            r == old(self).resident((pos.x >> 4) as int, (pos.z >> 4) as int),
            !r ==> *final(self) == *old(self),
            queue_updates(final(self).queue) == queue_updates(old(self).queue),
            final(self).generator == old(self).generator,
            final(self).accessor == old(self).accessor,
            forall|x: int, z: int|
                final(self).resident(x, z) == old(self).resident(x, z),
            r ==> (forall|x: int, z: int|
                old(self).resident(x, z) && (x, z) != ((pos.x >> 4) as int, (pos.z >> 4) as int)
                    ==> final(self).resident_chunk(x, z) == old(self).resident_chunk(x, z)),
            (r && !(0 <= pos.y < CHUNK_HEIGHT && block.id <= MAX_BLOCK_STATE)) ==> final(self).resident_chunk((pos.x >> 4) as int, (pos.z >> 4) as int).blocks_model() =~= old(self).resident_chunk((pos.x >> 4) as int, (pos.z >> 4) as int).blocks_model(),
            (r && 0 <= pos.y < CHUNK_HEIGHT && block.id <= MAX_BLOCK_STATE) ==> final(self).resident_chunk((pos.x >> 4) as int, (pos.z >> 4) as int).blocks_model() =~= old(self).resident_chunk((pos.x >> 4) as int, (pos.z >> 4) as int).blocks_model().update(
                slot_of(pos.y),
                old(self).resident_chunk(
                    (pos.x >> 4) as int,
                    (pos.z >> 4) as int,
                ).blocks_model()[slot_of(pos.y)].update(local_key(pos) as int, block.id),
            ),
    {
        let position = pos.chunk();
        match self.find(position.x, position.z) {
            Some(i) => {
                proof {
                    old(self).lemma_resident_at(i as int);
                }
                let ghost oldchunks = self.chunks@;
                let entry = &mut self.chunks[i];
                let _edit_result = entry.chunk.set_block(pos, block);
                entry.dirty = true;
                proof {
                    assert(self.chunks@[i as int].chunk.chunk_pos == oldchunks[i as int].chunk.chunk_pos);
                    assert(forall|j: int|
                        0 <= j < oldchunks.len() && j != i as int ==> #[trigger] self.chunks@[j]
                            == oldchunks[j]);
                    self.lemma_resident_at(i as int);
                    assert forall|x: int, z: int|
                        final(self).resident(x, z) == old(self).resident(x, z) by {
                        if self.resident(x, z) {
                            let j = choose|j: int|
                                0 <= j < self.chunks@.len() && (
                                #[trigger] self.chunks@[j]).chunk.chunk_pos.x == x
                                    && self.chunks@[j].chunk.chunk_pos.z == z;
                            assert(oldchunks[j].chunk.chunk_pos.x == x
                                && oldchunks[j].chunk.chunk_pos.z == z);
                        }
                        if old(self).resident(x, z) {
                            let j = choose|j: int|
                                0 <= j < oldchunks.len() && (
                                #[trigger] oldchunks[j]).chunk.chunk_pos.x == x
                                    && oldchunks[j].chunk.chunk_pos.z == z;
                            assert(self.chunks@[j].chunk.chunk_pos.x == x
                                && self.chunks@[j].chunk.chunk_pos.z == z);
                        }
                    }
                    assert forall|x: int, z: int|
                        old(self).resident(x, z) && (x, z) != ((pos.x >> 4) as int, (
                        pos.z >> 4) as int) implies final(self).resident_chunk(x, z) == old(self).resident_chunk(x, z) by {
                        let j = choose|j: int|
                            0 <= j < oldchunks.len() && (
                            #[trigger] oldchunks[j]).chunk.chunk_pos.x == x
                                && oldchunks[j].chunk.chunk_pos.z == z;
                        assert(j != i as int);
                        old(self).lemma_resident_at(j);
                        self.lemma_resident_at(j);
                    }
                }
                true
            },
            None => false,
        }
    }

    /// Reads the block at a world position from the resident region that
    /// contains it.
    pub fn get_block(&self, pos: BlockPosition) -> (r: Option<usize>)
        requires
            self.wf(),
            -0x8_0000_0000 <= pos.x < 0x8_0000_0000,
            -0x8_0000_0000 <= pos.z < 0x8_0000_0000,
        ensures
            (self.resident((pos.x >> 4) as int, (pos.z >> 4) as int) && 0 <= pos.y < CHUNK_HEIGHT)
                ==> r == Some(
                self.resident_chunk(
                    (pos.x >> 4) as int,
                    (pos.z >> 4) as int,
                ).blocks_model()[slot_of(pos.y)][local_key(pos) as int],
            ),
            !self.resident((pos.x >> 4) as int, (pos.z >> 4) as int) ==> r is None,
    {
        let position = pos.chunk();
        match self.find(position.x, position.z) {
            Some(i) => {
                proof {
                    self.lemma_resident_at(i as int);
                }
                self.chunks[i].chunk.get_block(pos)
            },
            None => None,
        }
    }

    /// Writes a batch of blocks into the resident region at the given
    /// coordinate, in order, marking it dirty; returns whether the region
    /// was resident. The whole batch is dropped when it is not.
    pub fn set_blocks_resident(
        &mut self,
        chunk_pos: ChunkPos,
        edits: &Vec<(BlockPosition, PlacedBlock)>,
    ) -> (r: bool)
        requires
            old(self).wf(),
        ensures
            final(self).wf(),
            r == old(self).resident(chunk_pos.x as int, chunk_pos.z as int),
            !r ==> *final(self) == *old(self),
            queue_updates(final(self).queue) == queue_updates(old(self).queue),
            final(self).generator == old(self).generator,
            final(self).accessor == old(self).accessor,
            forall|x: int, z: int| final(self).resident(x, z) == old(self).resident(x, z),
            r ==> (forall|x: int, z: int|
                old(self).resident(x, z) && (x, z) != (chunk_pos.x as int, chunk_pos.z as int)
                    ==> final(self).resident_chunk(x, z) == old(self).resident_chunk(x, z)),
            r ==> final(self).resident_chunk(chunk_pos.x as int, chunk_pos.z as int).blocks_model()
                =~= crate::chunk::edits_applied(
                old(self).resident_chunk(chunk_pos.x as int, chunk_pos.z as int).blocks_model(),
                edits@,
            ),
    {
        match self.find(chunk_pos.x, chunk_pos.z) {
            Some(i) => {
                proof {
                    old(self).lemma_resident_at(i as int);
                }
                let ghost oldchunks = self.chunks@;
                let ghost m0 = self.chunks@[i as int].chunk.blocks_model();
                let mut k: usize = 0;
                while k < edits.len()
                    invariant
                        0 <= i < self.chunks@.len(),
                        k <= edits@.len(),
                        self.chunks@.len() == oldchunks.len(),
                        forall|j: int|
                            0 <= j < oldchunks.len() && j != i as int ==> #[trigger] self.chunks@[j]
                                == oldchunks[j],
                        self.chunks@[i as int].chunk.chunk_pos == oldchunks[i as int].chunk.chunk_pos,
                        self.chunks@[i as int].chunk.wf(),
                        self.generator == old(self).generator,
                        self.generator.wf(),
                        self.accessor == old(self).accessor,
                        self.queue == old(self).queue,
                        forall|a: int, b: int|
                            0 <= a < b < self.chunks@.len() ==> (
                            #[trigger] self.chunks@[a]).chunk.chunk_pos != (
                            #[trigger] self.chunks@[b]).chunk.chunk_pos,
                        forall|j: int|
                            0 <= j < self.chunks@.len() ==> (#[trigger] self.chunks@[j]).chunk.wf()
                                && in_gen_range(
                                (self.chunks@[j].chunk.chunk_pos.x,
                                self.chunks@[j].chunk.chunk_pos.z),
                            ),
                        forall|j: int|
                            0 <= j < queue_updates(self.queue).len() ==> in_gen_range(
                                coord_of(#[trigger] queue_updates(self.queue)[j]),
                            ),
                        self.chunks@[i as int].chunk.blocks_model() =~= crate::chunk::edits_applied(
                            m0,
                            edits@.take(k as int),
                        ),
                    decreases edits@.len() - k,
                {
                    let p = edits[k].0;
                    let b = edits[k].1;
                    let ghost mpre = self.chunks@[i as int].chunk.blocks_model();
                    let _res = self.chunks[i].chunk.set_block(p, b);
                    proof {
                        assert(edits@.take(k + 1).drop_last() =~= edits@.take(k as int));
                        assert(edits@.take(k + 1).last() == edits@[k as int]);
                        assert(self.chunks@[i as int].chunk.blocks_model()
                            =~= crate::chunk::edit_applied(mpre, p, b.id));
                    }
                    k = k + 1;
                }
                self.chunks[i].dirty = true;
                proof {
                    assert(edits@.take(edits@.len() as int) =~= edits@);
                    self.lemma_resident_at(i as int);
                    assert forall|x: int, z: int|
                        final(self).resident(x, z) == old(self).resident(x, z) by {
                        if self.resident(x, z) {
                            let j = choose|j: int|
                                0 <= j < self.chunks@.len() && (
                                #[trigger] self.chunks@[j]).chunk.chunk_pos.x == x
                                    && self.chunks@[j].chunk.chunk_pos.z == z;
                            assert(old(self).chunks@[j].chunk.chunk_pos.x == x && old(self).chunks@[j].chunk.chunk_pos.z == z);
                        }
                        if old(self).resident(x, z) {
                            let j = choose|j: int|
                                0 <= j < oldchunks.len() && (
                                #[trigger] oldchunks[j]).chunk.chunk_pos.x == x
                                    && oldchunks[j].chunk.chunk_pos.z == z;
                            assert(self.chunks@[j].chunk.chunk_pos.x == x
                                && self.chunks@[j].chunk.chunk_pos.z == z);
                        }
                    }
                    assert forall|x: int, z: int|
                        old(self).resident(x, z) && (x, z) != (chunk_pos.x as int,
                        chunk_pos.z as int) implies final(self).resident_chunk(x, z) == old(self).resident_chunk(x, z) by {
                        let j = choose|j: int|
                            0 <= j < oldchunks.len() && (
                            #[trigger] oldchunks[j]).chunk.chunk_pos.x == x
                                && oldchunks[j].chunk.chunk_pos.z == z;
                        assert(j != i as int);
                        assert(self.chunks@[j] == oldchunks[j]);
                        old(self).lemma_resident_at(j);
                        self.lemma_resident_at(j);
                    }
                }
                true
            },
            None => false,
        }
    }

    /// Persists every resident region through the accessor; the first
    /// failure propagates, and only the accessor can fail: a store with
    /// nothing resident always succeeds. Residency never changes.
    pub fn save_all(&mut self) -> (r: Result<(), String>)
        requires
            old(self).wf(),
        ensures
            final(self).wf(),
            final(self).chunks_model() == old(self).chunks_model(),
            queue_updates(final(self).queue) == queue_updates(old(self).queue),
            r is Err ==> old(self).chunks_model().len() > 0,
    {
        let mut i: usize = 0;
        while i < self.chunks.len()
            invariant
                self.wf(),
                self.chunks@ == old(self).chunks@,
                queue_updates(self.queue) == queue_updates(old(self).queue),
                i <= self.chunks@.len(),
            decreases self.chunks@.len() - i,
        {
            match self.accessor.save(&self.chunks[i].chunk) {
                Ok(()) => {},
                Err(e) => {
                    return Err(e);
                },
            }
            i = i + 1;
        }
        Ok(())
    }

    /// Flushes and releases the persistence accessor's resources.
    pub fn force_close_all(&mut self)
        requires
            old(self).wf(),
        ensures
            final(self).wf(),
            final(self).chunks_model() == old(self).chunks_model(),
            queue_updates(final(self).queue) == queue_updates(old(self).queue),
    {
        self.accessor.force_close_all();
    }
}

} // verus!
