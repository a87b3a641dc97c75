//! The world aggregate: the store, the ticket table and the connected
//! viewers, with block mutation entry points and best-effort update
//! broadcasting in the documented record and key layouts.
use vstd::prelude::*;

use crate::chunk::edits_applied;
use crate::chunk::local_key;
use crate::chunk::slot_of;
use crate::chunk::CHUNK_HEIGHT;
use crate::section::MAX_BLOCK_STATE;
use crate::store::queue_updates;
use crate::store::ChunkMap;
use crate::store::ChunkUpdate;
use crate::store::WorldAccessor;
use crate::tickets::ChunkTickets;
use crate::BlockPosition;
use crate::ChunkPos;
use crate::PlacedBlock;

verus! {

/// One update sent to a viewer: a single block change, or the batched
/// per-section records of one chunk.
#[derive(Debug)]
pub enum PlayerUpdate {
    /// A global position and the new state id.
    UpdateBlock(BlockPosition, usize),
    /// Per section key, the packed block records of that section.
    SectionUpdate(Vec<(i64, Vec<i64>)>),
}

/// A connected viewer's endpoint.
#[derive(Debug)]
pub struct WorldPlayer {
    pub sender: flume::Sender<PlayerUpdate>,
}

/// An update from the world to the server; no kinds exist yet, so no
/// value of this type carries any information.
#[derive(Debug)]
pub struct ServerUpdateOut {}

/// Relies on flume's Sender type: the transmitting half of a channel,
/// declared so viewer endpoints can be stored and passed around.
#[verifier::external_type_specification]
#[verifier::external_body]
#[verifier::reject_recursive_types(T)]
pub struct ExSender<T>(flume::Sender<T>);

/// Relies on flume's Receiver type: the receiving half of a channel.
#[verifier::external_type_specification]
#[verifier::external_body]
#[verifier::reject_recursive_types(T)]
pub struct ExReceiver<T>(flume::Receiver<T>);

/// Relies on flume's SendError type: a failed send hands the unsent
/// message back inside it.
#[verifier::external_type_specification]
#[verifier::external_body]
#[verifier::reject_recursive_types(T)]
pub struct ExSendError<T>(flume::SendError<T>);

/// Relies on flume's unbounded: an asynchronous channel pair whose sends
/// never block.
#[verifier::external_body]
pub fn new_update_channel() -> (r: (flume::Sender<PlayerUpdate>, flume::Receiver<PlayerUpdate>)) {
    flume::unbounded()
}

/// Relies on flume's Sender::send: on an unbounded channel it never
/// blocks, and fails only when every receiver is gone; the update comes
/// back inside the error then.
#[verifier::external_body]
fn send_update(sender: &flume::Sender<PlayerUpdate>, update: PlayerUpdate) -> (r: Result<
    (),
    flume::SendError<PlayerUpdate>,
>) {
    sender.send(update)
}

/// Relies on flume's Receiver::try_recv: the next queued update of the
/// channel, if one is waiting.
#[verifier::external_body]
pub fn try_recv_update(receiver: &flume::Receiver<PlayerUpdate>) -> (r: Option<PlayerUpdate>) {
    receiver.try_recv().ok()
}

/// The batched update record of one block inside a section:
/// `(state_id << 12) | (local_x << 8) | (local_z << 4) | local_y`, the
/// locals being the position's low four bits.
pub open spec fn record_spec(id: i64, x: i64, y: i64, z: i64) -> i64 {
    (id << 12) | ((x & 0xF) << 8) | ((z & 0xF) << 4) | (y & 0xF)
}

/// The key of one vertical section of a chunk:
/// `(chunk_x & mask22) << 42 | (global_y & mask20) | (chunk_z & mask22) << 20`.
pub open spec fn section_key_spec(cx: i64, y: i64, cz: i64) -> i64 {
    ((cx & 0x3FFFFF) << 42) | (y & 0xFFFFF) | ((cz & 0x3FFFFF) << 20)
}

/// The batched update record, computed exactly as documented.
pub fn record(id: i64, x: i64, y: i64, z: i64) -> (r: i64)
    ensures
        r == record_spec(id, x, y, z),
{
    (id << 12) | ((x & 0xF) << 8) | ((z & 0xF) << 4) | (y & 0xF)
}

/// The section key, computed exactly as documented.
pub fn section_key(cx: i64, y: i64, cz: i64) -> (r: i64)
    ensures
        r == section_key_spec(cx, y, cz),
{
    ((cx & 0x3FFFFF) << 42) | (y & 0xFFFFF) | ((cz & 0x3FFFFF) << 20)
}

/// Inserting one record into grouped per-key records: appended to the
/// first group with its key, or opening a new group at the end.
pub open spec fn add_record(groups: Seq<(i64, Seq<i64>)>, k: i64, r: i64) -> Seq<(i64, Seq<i64>)>
    decreases groups.len(),
{
    if groups.len() == 0 {
        seq![(k, seq![r])]
    } else if groups[0].0 == k {
        seq![(k, groups[0].1.push(r))] + groups.subrange(1, groups.len() as int)
    } else {
        seq![groups[0]] + add_record(groups.subrange(1, groups.len() as int), k, r)
    }
}

/// Grouping keyed records in order: keys appear in first-seen order, and
/// records keep their order within a key.
pub open spec fn group_records(entries: Seq<(i64, i64)>) -> Seq<(i64, Seq<i64>)>
    decreases entries.len(),
{
    if entries.len() == 0 {
        Seq::empty()
    } else {
        add_record(group_records(entries.drop_last()), entries.last().0, entries.last().1)
    }
}

/// The grouped view of the exec representation.
pub open spec fn groups_model(v: Seq<(i64, Vec<i64>)>) -> Seq<(i64, Seq<i64>)> {
    Seq::new(v.len(), |i: int| (v[i].0, v[i].1@))
}

/// Inserting under a key that first occurs at `i` appends to that group.
proof fn lemma_add_record_found(groups: Seq<(i64, Seq<i64>)>, k: i64, r: i64, i: int)
    requires
        0 <= i < groups.len(),
        groups[i].0 == k,
        forall|j: int| 0 <= j < i ==> (#[trigger] groups[j]).0 != k,
    ensures
        add_record(groups, k, r) =~= groups.update(i, (k, groups[i].1.push(r))),
    decreases groups.len(),
{
    if i == 0 {
        assert(add_record(groups, k, r) =~= groups.update(0, (k, groups[0].1.push(r))));
    } else {
        let tail = groups.subrange(1, groups.len() as int);
        assert(tail[i - 1].0 == k);
        assert(forall|j: int| 0 <= j < i - 1 ==> (#[trigger] tail[j]).0 == groups[j + 1].0);
        lemma_add_record_found(tail, k, r, i - 1);
        assert(add_record(groups, k, r) =~= groups.update(i, (k, groups[i].1.push(r))));
    }
}

/// Inserting an unseen key opens a new group at the end.
proof fn lemma_add_record_absent(groups: Seq<(i64, Seq<i64>)>, k: i64, r: i64)
    requires
        forall|j: int| 0 <= j < groups.len() ==> (#[trigger] groups[j]).0 != k,
    ensures
        add_record(groups, k, r) =~= groups.push((k, seq![r])),
    decreases groups.len(),
{
    if groups.len() > 0 {
        let tail = groups.subrange(1, groups.len() as int);
        assert(forall|j: int| 0 <= j < tail.len() ==> (#[trigger] tail[j]).0 == groups[j + 1].0);
        lemma_add_record_absent(tail, k, r);
        assert(add_record(groups, k, r) =~= groups.push((k, seq![r])));
    }
}

/// The records of one chunk's block changes, keyed by section:
/// each input in order contributes its packed record to its section key.
pub open spec fn section_pairs(cx: i64, cz: i64, blocks: Seq<(BlockPosition, usize)>) -> Seq<
    (i64, i64),
> {
    Seq::new(
        blocks.len(),
        |i: int|
            (
                section_key_spec(cx, blocks[i].0.y as i64, cz),
                record_spec(blocks[i].1 as i64, blocks[i].0.x, blocks[i].0.y, blocks[i].0.z),
            ),
    )
}

/// Packs and groups one chunk's block changes per vertical section, in
/// the documented layouts: the grouped records are exactly the grouping
/// of the per-block records by section key.
pub fn group_section_updates(chunk: ChunkPos, blocks: &Vec<(BlockPosition, usize)>) -> (r: Vec<
    (i64, Vec<i64>),
>)
    requires
        forall|i: int| 0 <= i < blocks@.len() ==> (#[trigger] blocks@[i]).1 <= MAX_BLOCK_STATE,
    ensures
        groups_model(r@) =~= group_records(
            section_pairs(chunk.x as i64, chunk.z as i64, blocks@),
        ),
{
    let cx = chunk.x as i64;
    let cz = chunk.z as i64;
    let mut groups: Vec<(i64, Vec<i64>)> = Vec::new();
    let mut i: usize = 0;
    while i < blocks.len()
        invariant
            i <= blocks@.len(),
            forall|j: int| 0 <= j < blocks@.len() ==> (#[trigger] blocks@[j]).1 <= MAX_BLOCK_STATE,
            cx == chunk.x as i64 && cz == chunk.z as i64,
            groups_model(groups@) =~= group_records(
                section_pairs(cx, cz, blocks@).take(i as int),
            ),
            forall|a: int, b: int|
                0 <= a < b < groups@.len() ==> (#[trigger] groups@[a]).0 != (
                #[trigger] groups@[b]).0,
        decreases blocks@.len() - i,
    {
        let pos = blocks[i].0;
        let id = blocks[i].1;
        let key = section_key(cx, pos.y, cz);
        let rec = record(id as i64, pos.x, pos.y, pos.z);
        let ghost pre = groups_model(groups@);
        let ghost pairs = section_pairs(cx, cz, blocks@);
        let mut j: usize = 0;
        let n = groups.len();
        let mut found = false;
        let mut jfound: usize = 0;
        while j < n
            invariant
                n == groups@.len(),
                j <= n,
                !found ==> forall|m: int| 0 <= m < j ==> (#[trigger] groups@[m]).0 != key,
                found ==> (jfound < j && groups@[jfound as int].0 == key && forall|m: int|
                    0 <= m < jfound ==> (#[trigger] groups@[m]).0 != key),
            decreases n - j,
        {
            if !found && groups[j].0 == key {
                found = true;
                jfound = j;
            }
            j = j + 1;
        }
        let ghost oldgroups = groups@;
        proof {
            assert(forall|m: int| 0 <= m < pre.len() ==> (#[trigger] pre[m]).0 == oldgroups[m].0);
        }
        if found {
            groups[jfound].1.push(rec);
            proof {
                assert(pre[jfound as int].0 == key);
                lemma_add_record_found(pre, key, rec, jfound as int);
                assert(groups_model(groups@) =~= pre.update(
                    jfound as int,
                    (key, pre[jfound as int].1.push(rec)),
                ));
            }
        } else {
            let mut fresh: Vec<i64> = Vec::new();
            fresh.push(rec);
            groups.push((key, fresh));
            proof {
                assert(forall|m: int| 0 <= m < pre.len() ==> (#[trigger] pre[m]).0 != key);
                lemma_add_record_absent(pre, key, rec);
                assert(groups_model(groups@) =~= pre.push((key, seq![rec])));
            }
        }
        proof {
            assert(pairs.take(i + 1).drop_last() =~= pairs.take(i as int));
            assert(pairs.take(i + 1).last() == pairs[i as int]);
            assert(pairs[i as int].0 == key && pairs[i as int].1 == rec);
            assert(groups_model(groups@) =~= add_record(
                group_records(pairs.take(i as int)),
                key,
                rec,
            ));
            assert forall|a: int, b: int|
                0 <= a < b < groups@.len() implies (#[trigger] groups@[a]).0 != (
            #[trigger] groups@[b]).0 by {
                if found {
                    assert(groups@.len() == oldgroups.len());
                    assert(groups@[a].0 == oldgroups[a].0);
                    assert(groups@[b].0 == oldgroups[b].0);
                } else {
                    if b == groups@.len() - 1 {
                        assert(groups@[a].0 == oldgroups[a].0);
                        assert(groups@[b].0 == key);
                    } else {
                        assert(groups@[a].0 == oldgroups[a].0);
                        assert(groups@[b].0 == oldgroups[b].0);
                    }
                }
            }
        }
        i = i + 1;
    }
    proof {
        assert(section_pairs(cx, cz, blocks@).take(blocks@.len() as int) =~= section_pairs(
            cx,
            cz,
            blocks@,
        ));
    }
    groups
}

/// How many of the clients, in order, hold a ticket on a region.
pub open spec fn count_interested(
    clients: Seq<(u64, WorldPlayer)>,
    tickets: ChunkTickets,
    pos: ChunkPos,
) -> int
    decreases clients.len(),
{
    if clients.len() == 0 {
        0
    } else {
        count_interested(clients.drop_last(), tickets, pos) + if tickets.has_ticket(
            pos,
            clients.last().0,
        ) {
            1int
        } else {
            0int
        }
    }
}

/// The world: one authoritative owner of the store, the tickets and the
/// connected viewers.
pub struct AxolotlWorld<A: WorldAccessor> {
    pub name: String,
    pub render_distance: u8,
    pub simulation_distance: u8,
    pub chunk_map: ChunkMap<A>,
    pub chunk_tickets: ChunkTickets,
    pub clients: Vec<(u64, WorldPlayer)>,
}

impl<A: WorldAccessor> AxolotlWorld<A> {
    pub open spec fn wf(&self) -> bool {
        self.chunk_map.wf() && self.chunk_tickets.wf()
    }

    /// A world around a store: no viewers, no tickets yet.
    pub fn new(
        name: String,
        render_distance: u8,
        simulation_distance: u8,
        chunk_map: ChunkMap<A>,
    ) -> (r: AxolotlWorld<A>)
        requires
            chunk_map.wf(),
        ensures
            r.wf(),
            r.chunk_map == chunk_map,
            r.name == name,
            r.render_distance == render_distance,
            r.simulation_distance == simulation_distance,
            forall|p: ChunkPos, v: u64| !r.chunk_tickets.has_ticket(p, v),
            forall|p: ChunkPos| !r.chunk_tickets.tracks(p),
            r.clients@.len() == 0,
    {
        AxolotlWorld {
            name,
            render_distance,
            simulation_distance,
            chunk_map,
            chunk_tickets: ChunkTickets::new(),
            clients: Vec::new(),
        }
    }

    /// Connects a viewer under an id.
    pub fn add_client(&mut self, id: u64, sender: flume::Sender<PlayerUpdate>)
        requires
            old(self).wf(),
        ensures
            final(self).wf(),
            final(self).clients@ == old(self).clients@.push((id, WorldPlayer { sender })),
            final(self).chunk_map == old(self).chunk_map,
            final(self).chunk_tickets == old(self).chunk_tickets,
    {
        self.clients.push((id, WorldPlayer { sender }));
    }

    /// Sends an update to every viewer holding a ticket on the region,
    /// without blocking; a failed send (a disconnected peer) is skipped.
    /// Returns how many sends were attempted and how many failed:
    /// delivery is best-effort, so exactly the ticketed viewers are
    /// attempted and nothing is promised of the failures.
    pub fn push_update_to_players_at(&self, chunk: ChunkPos, update: &PlayerUpdate) -> (r: (
        usize,
        usize,
    ))
        requires
            self.wf(),
        ensures
            r.0 as int == count_interested(self.clients@, self.chunk_tickets, chunk),
            r.1 <= r.0,
    {
        let mut attempted: usize = 0;
        let mut failed: usize = 0;
        let mut i: usize = 0;
        while i < self.clients.len()
            invariant
                self.wf(),
                i <= self.clients@.len(),
                attempted as int == count_interested(
                    self.clients@.take(i as int),
                    self.chunk_tickets,
                    chunk,
                ),
                failed <= attempted,
                attempted <= i,
            decreases self.clients@.len() - i,
        {
            let ghost pre = self.clients@.take(i as int);
            if self.chunk_tickets.holds_ticket(chunk, self.clients[i].0) {
                attempted = attempted + 1;
                let message = duplicate_update(update);
                match send_update(&self.clients[i].1.sender, message) {
                    Ok(()) => {},
                    Err(_) => {
                        failed = failed + 1;
                    },
                }
            }
            proof {
                assert(self.clients@.take(i + 1).drop_last() =~= pre);
                assert(self.clients@.take(i + 1).last() == self.clients@[i as int]);
            }
            i = i + 1;
        }
        proof {
            assert(self.clients@.take(self.clients@.len() as int) =~= self.clients@);
        }
        (attempted, failed)
    }

    /// Broadcasts one block change to the viewers of its chunk.
    pub fn send_block_update(&self, pos: BlockPosition, block: usize) -> (r: (usize, usize))
        requires
            self.wf(),
            -0x8_0000_0000 <= pos.x < 0x8_0000_0000,
            -0x8_0000_0000 <= pos.z < 0x8_0000_0000,
        ensures
            r.0 as int == count_interested(
                self.clients@,
                self.chunk_tickets,
                ChunkPos { x: (pos.x >> 4) as i32, z: (pos.z >> 4) as i32 },
            ),
    {
        let chunk = pos.chunk();
        let update = PlayerUpdate::UpdateBlock(pos, block);
        self.push_update_to_players_at(chunk, &update)
    }

    /// Broadcasts a chunk's batched block changes, grouped per section in
    /// the documented record and key layouts, to the chunk's viewers.
    pub fn send_block_updates(&self, chunk: ChunkPos, blocks: &Vec<(BlockPosition, usize)>) -> (r: (
        usize,
        usize,
    ))
        requires
            self.wf(),
            forall|i: int| 0 <= i < blocks@.len() ==> (#[trigger] blocks@[i]).1 <= MAX_BLOCK_STATE,
        ensures
            r.0 as int == count_interested(self.clients@, self.chunk_tickets, chunk),
    {
        let groups = group_section_updates(chunk, blocks);
        let update = PlayerUpdate::SectionUpdate(groups);
        self.push_update_to_players_at(chunk, &update)
    }

    /// Writes one block. A resident region is mutated in place and the
    /// change broadcast; an absent region either fails the call (when it
    /// must already be loaded) with nothing changed at all, or enqueues
    /// exactly one load carrying the edit and reports optimistic success.
    pub fn set_block(&mut self, location: BlockPosition, block: PlacedBlock, required_loaded: bool)
        -> (r: bool)
        requires
            old(self).wf(),
            -0x4000_0000 <= location.x <= 0x4000_0000,
            -0x4000_0000 <= location.z <= 0x4000_0000,
        ensures
            final(self).wf(),
            final(self).chunk_tickets == old(self).chunk_tickets,
            final(self).clients@ == old(self).clients@,
            final(self).chunk_map.generator == old(self).chunk_map.generator,
            final(self).chunk_map.accessor == old(self).chunk_map.accessor,
            forall|x: int, z: int|
                final(self).chunk_map.resident(x, z) == old(self).chunk_map.resident(x, z),
            old(self).chunk_map.resident((location.x >> 4) as int, (location.z >> 4) as int)
                ==> (forall|x: int, z: int|
                old(self).chunk_map.resident(x, z) && (x, z) != ((location.x >> 4) as int, (
                location.z >> 4) as int) ==> final(self).chunk_map.resident_chunk(x, z) == old(self).chunk_map.resident_chunk(x, z)),
            (old(self).chunk_map.resident((location.x >> 4) as int, (location.z >> 4) as int) && !(
            0 <= location.y < CHUNK_HEIGHT && block.id <= MAX_BLOCK_STATE)) ==> final(self).chunk_map.resident_chunk((location.x >> 4) as int, (location.z >> 4) as int)
                .blocks_model() =~= old(self).chunk_map.resident_chunk(
                (location.x >> 4) as int,
                (location.z >> 4) as int,
            ).blocks_model(),
            r == (old(self).chunk_map.resident(
                (location.x >> 4) as int,
                (location.z >> 4) as int,
            ) || !required_loaded),
            old(self).chunk_map.resident((location.x >> 4) as int, (location.z >> 4) as int)
                ==> (queue_updates(final(self).chunk_map.queue) == queue_updates(old(self).chunk_map.queue) && ((0 <= location.y < CHUNK_HEIGHT && block.id <= MAX_BLOCK_STATE) ==> final(self).chunk_map.resident_chunk(
                (location.x >> 4) as int,
                (location.z >> 4) as int,
            ).blocks_model() =~= old(self).chunk_map.resident_chunk(
                (location.x >> 4) as int,
                (location.z >> 4) as int,
            ).blocks_model().update(
                slot_of(location.y),
                old(self).chunk_map.resident_chunk(
                    (location.x >> 4) as int,
                    (location.z >> 4) as int,
                ).blocks_model()[slot_of(location.y)].update(
                    local_key(location) as int,
                    block.id,
                ),
            ))),
            (!old(self).chunk_map.resident((location.x >> 4) as int, (location.z >> 4) as int)
                && required_loaded) ==> *final(self) == *old(self),
            (!old(self).chunk_map.resident((location.x >> 4) as int, (location.z >> 4) as int)
                && !required_loaded) ==> (queue_updates(final(self).chunk_map.queue)
                == queue_updates(old(self).chunk_map.queue).push(
                ChunkUpdate::Load {
                    x: (location.x >> 4) as i32,
                    z: (location.z >> 4) as i32,
                    set_block: Some((location, block)),
                },
            ) && final(self).chunk_map.chunks_model() == old(self).chunk_map.chunks_model()),
    {
        let id = block.id();
        if self.chunk_map.set_block_resident(location, block) {
            self.send_block_update(location, id);
            true
        } else if !required_loaded {
            let position = location.chunk();
            proof {
                lemma_shift4_gen_range(location.x);
                lemma_shift4_gen_range(location.z);
            }
            self.chunk_map.enqueue_load(position.x, position.z, Some((location, block)));
            true
        } else {
            false
        }
    }

    /// Writes a batch of blocks into one resident region, in order, then
    /// broadcasts the batched records of the applied edits (those with a
    /// y level inside the chunk and a resolvable id; the rest change
    /// nothing and are not announced) to the region's viewers. When the
    /// region is absent the whole batch is dropped: batched edits require
    /// residency, and nothing at all changes.
    pub fn set_blocks(&mut self, chunk_pos: ChunkPos, blocks: Vec<(BlockPosition, PlacedBlock)>)
        requires
            old(self).wf(),
        ensures
            final(self).wf(),
            final(self).chunk_tickets == old(self).chunk_tickets,
            final(self).clients@ == old(self).clients@,
            final(self).chunk_map.generator == old(self).chunk_map.generator,
            final(self).chunk_map.accessor == old(self).chunk_map.accessor,
            queue_updates(final(self).chunk_map.queue) == queue_updates(old(self).chunk_map.queue),
            forall|x: int, z: int|
                final(self).chunk_map.resident(x, z) == old(self).chunk_map.resident(x, z),
            forall|x: int, z: int|
                old(self).chunk_map.resident(x, z) && (x, z) != (chunk_pos.x as int,
                chunk_pos.z as int) ==> final(self).chunk_map.resident_chunk(x, z) == old(self).chunk_map.resident_chunk(x, z),
            !old(self).chunk_map.resident(chunk_pos.x as int, chunk_pos.z as int) ==> *final(self)
                == *old(self),
            old(self).chunk_map.resident(chunk_pos.x as int, chunk_pos.z as int) ==> final(self).chunk_map.resident_chunk(chunk_pos.x as int, chunk_pos.z as int).blocks_model()
                =~= edits_applied(
                old(self).chunk_map.resident_chunk(
                    chunk_pos.x as int,
                    chunk_pos.z as int,
                ).blocks_model(),
                blocks@,
            ),
    {
        let mut ids: Vec<(BlockPosition, usize)> = Vec::new();
        let mut i: usize = 0;
        while i < blocks.len()
            invariant
                i <= blocks@.len(),
                forall|j: int| 0 <= j < ids@.len() ==> (#[trigger] ids@[j]).1 <= MAX_BLOCK_STATE,
            decreases blocks@.len() - i,
        {
            let p = blocks[i].0;
            let b = blocks[i].1;
            if 0 <= p.y && p.y < CHUNK_HEIGHT && b.id() <= MAX_BLOCK_STATE {
                ids.push((p, b.id()));
            }
            i = i + 1;
        }
        if self.chunk_map.set_blocks_resident(chunk_pos, &blocks) {
            self.send_block_updates(chunk_pos, &ids);
        }
    }
}

/// A shift by four of a coordinate inside the mutation range lands inside
/// the generator's range.
proof fn lemma_shift4_gen_range(v: i64)
    requires
        -0x4000_0000 <= v <= 0x4000_0000,
    ensures
        -0x0400_0000 <= (v >> 4) <= 0x0400_0000,
{
    assert(-0x0400_0000 <= (v >> 4) <= 0x0400_0000) by (bit_vector)
        requires
            -0x4000_0000 <= v <= 0x4000_0000,
    ;
}

/// The information an update carries: the single change, or the grouped
/// per-section records.
pub open spec fn update_model(u: PlayerUpdate) -> (
    Option<(BlockPosition, usize)>,
    Option<Seq<(i64, Seq<i64>)>>,
) {
    match u {
        PlayerUpdate::UpdateBlock(p, i) => (Some((p, i)), None),
        PlayerUpdate::SectionUpdate(v) => (None, Some(groups_model(v@))),
    }
}

/// A copy of an update carrying the same information, so each viewer
/// gets its own.
fn duplicate_update(u: &PlayerUpdate) -> (r: PlayerUpdate)
    ensures
        update_model(r) == update_model(*u),
{
    match u {
        PlayerUpdate::UpdateBlock(pos, id) => PlayerUpdate::UpdateBlock(*pos, *id),
        PlayerUpdate::SectionUpdate(groups) => {
            let mut out: Vec<(i64, Vec<i64>)> = Vec::new();
            let mut i: usize = 0;
            while i < groups.len()
                invariant
                    i <= groups@.len(),
                    out@.len() == i,
                    forall|j: int|
                        0 <= j < i ==> (#[trigger] out@[j]).0 == groups@[j].0 && out@[j].1@
                            == groups@[j].1@,
                decreases groups@.len() - i,
            {
                let key = groups[i].0;
                let recs = groups[i].1.clone();
                proof {
                    assert(recs@ =~= groups@[i as int].1@);
                }
                out.push((key, recs));
                i = i + 1;
            }
            proof {
                assert(groups_model(out@) =~= groups_model(groups@));
            }
            PlayerUpdate::SectionUpdate(out)
        },
    }
}

} // verus!

