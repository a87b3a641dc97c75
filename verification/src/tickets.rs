//! Viewer-interest bookkeeping: tickets are the sole retention signal.
//! A region whose interest set is empty may be unloaded; a ticketed
//! region is never evicted.
use vstd::prelude::*;

use crate::ChunkPos;

verus! {

/// The viewers interested in one tracked region.
#[derive(Debug)]
pub struct TicketEntry {
    pub pos: ChunkPos,
    pub viewers: Vec<u64>,
}

/// The (viewer, region) interest relation, keyed by region coordinate.
#[derive(Debug)]
pub struct ChunkTickets {
    entries: Vec<TicketEntry>,
}

impl ChunkTickets {
    /// Each tracked region has exactly one entry.
    pub closed spec fn wf(&self) -> bool {
        forall|i: int, j: int|
            0 <= i < j < self.entries@.len() ==> (#[trigger] self.entries@[i]).pos != (
            #[trigger] self.entries@[j]).pos
    }

    /// Whether the table has an entry for a region (its interest set may
    /// be empty).
    pub closed spec fn tracks(&self, p: ChunkPos) -> bool {
        exists|i: int| 0 <= i < self.entries@.len() && (#[trigger] self.entries@[i]).pos == p
    }

    /// Whether a viewer holds a ticket on a region.
    pub closed spec fn has_ticket(&self, p: ChunkPos, v: u64) -> bool {
        exists|i: int|
            0 <= i < self.entries@.len() && (#[trigger] self.entries@[i]).pos == p
                && self.entries@[i].viewers@.contains(v)
    }

    /// Whether a region is tracked with an empty interest set.
    pub closed spec fn unloadable(&self, p: ChunkPos) -> bool {
        exists|i: int|
            0 <= i < self.entries@.len() && (#[trigger] self.entries@[i]).pos == p
                && self.entries@[i].viewers@.len() == 0
    }

    /// A tracked region is unloadable exactly when no viewer holds a
    /// ticket on it.
    pub proof fn lemma_unloadable_means_no_tickets(&self, p: ChunkPos)
        requires
            self.wf(),
        ensures
            self.unloadable(p) <==> (self.tracks(p) && forall|v: u64| !self.has_ticket(p, v)),
    {
        if self.unloadable(p) {
            let i = choose|i: int|
                0 <= i < self.entries@.len() && (#[trigger] self.entries@[i]).pos == p
                    && self.entries@[i].viewers@.len() == 0;
            assert(self.tracks(p));
            assert forall|v: u64| !self.has_ticket(p, v) by {
                if self.has_ticket(p, v) {
                    let j = choose|j: int|
                        0 <= j < self.entries@.len() && (#[trigger] self.entries@[j]).pos == p
                            && self.entries@[j].viewers@.contains(v);
                    assert(i == j);
                }
            }
        }
        if self.tracks(p) && (forall|v: u64| !self.has_ticket(p, v)) {
            let i = choose|i: int|
                0 <= i < self.entries@.len() && (#[trigger] self.entries@[i]).pos == p;
            if self.entries@[i].viewers@.len() > 0 {
                let v = self.entries@[i].viewers@[0];
                assert(self.entries@[i].viewers@.contains(v));
                assert(self.has_ticket(p, v));
            }
        }
    }

    /// An empty table: nothing tracked, no tickets.
    pub fn new() -> (r: ChunkTickets)
        ensures
            r.wf(),
            forall|p: ChunkPos| !r.tracks(p),
            forall|p: ChunkPos, v: u64| !r.has_ticket(p, v),
    {
        ChunkTickets { entries: Vec::new() }
    }

    /// The entry index of a region, if the region is tracked.
    fn find_index(&self, pos: ChunkPos) -> (r: Option<usize>)
        requires
            self.wf(),
        ensures
            r matches Some(i) ==> i < self.entries@.len() && self.entries@[i as int].pos == pos,
            r is None ==> !self.tracks(pos),
    {
        let mut i: usize = 0;
        while i < self.entries.len()
            invariant
                i <= self.entries@.len(),
                forall|j: int| 0 <= j < i ==> (#[trigger] self.entries@[j]).pos != pos,
            decreases self.entries@.len() - i,
        {
            let e = &self.entries[i];
            if e.pos.x() == pos.x && e.pos.z() == pos.z {
                assert(e.pos == pos);
                return Some(i);
            }
            i = i + 1;
        }
        None
    }

    /// Starts tracking a region, with an empty interest set if it was not
    /// tracked before; tickets are untouched either way.
    pub fn track(&mut self, pos: ChunkPos)
        requires
            old(self).wf(),
        ensures
            final(self).wf(),
            final(self).tracks(pos),
            forall|p: ChunkPos| final(self).tracks(p) <==> (old(self).tracks(p) || p == pos),
            forall|p: ChunkPos, v: u64|
                final(self).has_ticket(p, v) == old(self).has_ticket(p, v),
            forall|p: ChunkPos|
                p != pos ==> (final(self).unloadable(p) == old(self).unloadable(p)),
    {
        match self.find_index(pos) {
            Some(i) => {
                proof {
                    assert(self.entries@[i as int].pos == pos);
                    assert(old(self).tracks(pos));
                }
            },
            None => {
                let ghost olde = self.entries@;
                self.entries.push(TicketEntry { pos, viewers: Vec::new() });
                proof {
                    let n = olde.len() as int;
                    assert(self.entries@[n].pos == pos);
                    assert(final(self).tracks(pos));
                    assert forall|p: ChunkPos|
                        final(self).tracks(p) <==> (old(self).tracks(p) || p == pos) by {
                        if self.tracks(p) {
                            let j = choose|j: int|
                                0 <= j < self.entries@.len() && (#[trigger] self.entries@[j]).pos
                                    == p;
                            if j < n {
                                assert(olde[j].pos == p);
                            }
                        }
                        if old(self).tracks(p) {
                            let j = choose|j: int|
                                0 <= j < olde.len() && (#[trigger] olde[j]).pos == p;
                            assert(self.entries@[j].pos == p);
                        }
                    }
                    assert forall|p: ChunkPos|
                        p != pos implies (final(self).unloadable(p) == old(self).unloadable(
                        p,
                    )) by {
                        if self.unloadable(p) {
                            let j = choose|j: int|
                                0 <= j < self.entries@.len() && (#[trigger] self.entries@[j]).pos
                                    == p && self.entries@[j].viewers@.len() == 0;
                            assert(j < n);
                            assert(olde[j].pos == p && olde[j].viewers@.len() == 0);
                        }
                        if old(self).unloadable(p) {
                            let j = choose|j: int|
                                0 <= j < olde.len() && (#[trigger] olde[j]).pos == p
                                    && olde[j].viewers@.len() == 0;
                            assert(self.entries@[j].pos == p
                                && self.entries@[j].viewers@.len() == 0);
                        }
                    }
                    assert forall|p: ChunkPos, v: u64|
                        final(self).has_ticket(p, v) == old(self).has_ticket(p, v) by {
                        let n = olde.len() as int;
                        if self.has_ticket(p, v) {
                            let i = choose|i: int|
                                0 <= i < self.entries@.len() && (#[trigger] self.entries@[i]).pos
                                    == p && self.entries@[i].viewers@.contains(v);
                            assert(i < n);
                        }
                        if old(self).has_ticket(p, v) {
                            let i = choose|i: int|
                                0 <= i < olde.len() && (#[trigger] olde[i]).pos == p
                                    && olde[i].viewers@.contains(v);
                            assert(self.entries@[i].pos == p
                                && self.entries@[i].viewers@.contains(v));
                        }
                    }
                }
            },
        }
    }

    /// Registers a viewer's interest in a region, tracking the region if
    /// needed. Afterwards the viewer holds a ticket on exactly that region
    /// in addition to what it held before.
    pub fn add_ticket(&mut self, viewer: u64, pos: ChunkPos)
        requires
            old(self).wf(),
        ensures
            final(self).wf(),
            final(self).tracks(pos),
            forall|p: ChunkPos| final(self).tracks(p) <==> (old(self).tracks(p) || p == pos),
            forall|p: ChunkPos, v: u64|
                final(self).has_ticket(p, v) <==> (old(self).has_ticket(p, v) || (p == pos && v
                    == viewer)),
            !final(self).unloadable(pos),
    {
        match self.find_index(pos) {
            Some(i) => {
                let ghost olde = self.entries@;
                self.entries[i].viewers.push(viewer);
                proof {
                    let n = olde.len() as int;
                    assert(self.entries@.len() == olde.len());
                    assert(forall|j: int|
                        0 <= j < n && j != i as int ==> #[trigger] self.entries@[j] == olde[j]);
                    assert(self.entries@[i as int].pos == olde[i as int].pos);
                    assert(self.entries@[i as int].viewers@ == olde[i as int].viewers@.push(
                        viewer,
                    ));
                    assert(self.entries@[i as int].viewers@.contains(viewer)) by {
                        assert(self.entries@[i as int].viewers@.last() == viewer);
                    }
                    assert(final(self).tracks(pos)) by {
                        assert(self.entries@[i as int].pos == pos);
                    }
                    assert forall|p: ChunkPos|
                        final(self).tracks(p) <==> (old(self).tracks(p) || p == pos) by {
                        if self.tracks(p) {
                            let j = choose|j: int|
                                0 <= j < self.entries@.len() && (#[trigger] self.entries@[j]).pos
                                    == p;
                            assert(olde[j].pos == p);
                        }
                        if old(self).tracks(p) {
                            let j = choose|j: int|
                                0 <= j < olde.len() && (#[trigger] olde[j]).pos == p;
                            assert(self.entries@[j].pos == p);
                        }
                    }
                    assert(!self.unloadable(pos)) by {
                        if self.unloadable(pos) {
                            let j = choose|j: int|
                                0 <= j < self.entries@.len() && (#[trigger] self.entries@[j]).pos
                                    == pos && self.entries@[j].viewers@.len() == 0;
                            assert(j == i as int);
                        }
                    }
                    assert forall|p: ChunkPos, v: u64|
                        final(self).has_ticket(p, v) <==> (old(self).has_ticket(p, v) || (p == pos
                            && v == viewer)) by {
                        if self.has_ticket(p, v) {
                            let j = choose|j: int|
                                0 <= j < self.entries@.len() && (#[trigger] self.entries@[j]).pos
                                    == p && self.entries@[j].viewers@.contains(v);
                            if j == i as int {
                                if v != viewer || p != pos {
                                    let ghost pushed = olde[j].viewers@.push(viewer);
                                    assert(pushed.contains(v));
                                    let k = choose|k: int| 0 <= k < pushed.len() && pushed[k] == v;
                                    assert(olde[j].viewers@[k] == v);
                                    assert(olde[j].viewers@.contains(v));
                                }
                            } else {
                                assert(olde[j].pos == p && olde[j].viewers@.contains(v));
                            }
                        }
                        if old(self).has_ticket(p, v) {
                            let j = choose|j: int|
                                0 <= j < olde.len() && (#[trigger] olde[j]).pos == p
                                    && olde[j].viewers@.contains(v);
                            if j == i as int {
                                let k = choose|k: int|
                                    0 <= k < olde[j].viewers@.len() && olde[j].viewers@[k] == v;
                                assert(self.entries@[j].viewers@[k] == v);
                                assert(self.entries@[j].viewers@.contains(v));
                            } else {
                                assert(self.entries@[j].pos == p
                                    && self.entries@[j].viewers@.contains(v));
                            }
                        }
                        if p == pos && v == viewer {
                            assert(self.entries@[i as int].pos == pos);
                            assert(self.has_ticket(pos, viewer));
                        }
                    }
                }
            },
            None => {
                let ghost olde = self.entries@;
                let mut viewers: Vec<u64> = Vec::new();
                viewers.push(viewer);
                self.entries.push(TicketEntry { pos, viewers });
                proof {
                    let n = olde.len() as int;
                    assert(self.entries@[n].pos == pos);
                    assert(self.entries@[n].viewers@.contains(viewer)) by {
                        assert(self.entries@[n].viewers@[0] == viewer);
                    }
                    assert(final(self).tracks(pos));
                    assert forall|p: ChunkPos|
                        final(self).tracks(p) <==> (old(self).tracks(p) || p == pos) by {
                        if self.tracks(p) {
                            let j = choose|j: int|
                                0 <= j < self.entries@.len() && (#[trigger] self.entries@[j]).pos
                                    == p;
                            if j < n {
                                assert(olde[j].pos == p);
                            }
                        }
                        if old(self).tracks(p) {
                            let j = choose|j: int|
                                0 <= j < olde.len() && (#[trigger] olde[j]).pos == p;
                            assert(self.entries@[j].pos == p);
                        }
                    }
                    assert forall|p: ChunkPos, v: u64|
                        final(self).has_ticket(p, v) <==> (old(self).has_ticket(p, v) || (p == pos
                            && v == viewer)) by {
                        if self.has_ticket(p, v) {
                            let j = choose|j: int|
                                0 <= j < self.entries@.len() && (#[trigger] self.entries@[j]).pos
                                    == p && self.entries@[j].viewers@.contains(v);
                            if j < n {
                                assert(olde[j].pos == p && olde[j].viewers@.contains(v));
                            } else {
                                assert(self.entries@[j].viewers@.len() == 1);
                                assert(self.entries@[j].viewers@[0] == viewer);
                                let k = choose|k: int|
                                    0 <= k < self.entries@[j].viewers@.len()
                                        && self.entries@[j].viewers@[k] == v;
                                assert(k == 0);
                            }
                        }
                        if old(self).has_ticket(p, v) {
                            let j = choose|j: int|
                                0 <= j < olde.len() && (#[trigger] olde[j]).pos == p
                                    && olde[j].viewers@.contains(v);
                            assert(self.entries@[j].pos == p
                                && self.entries@[j].viewers@.contains(v));
                        }
                    }
                    assert(!self.unloadable(pos)) by {
                        if self.unloadable(pos) {
                            let j = choose|j: int|
                                0 <= j < self.entries@.len() && (#[trigger] self.entries@[j]).pos
                                    == pos && self.entries@[j].viewers@.len() == 0;
                            if j < n {
                                assert(olde[j].pos == pos);
                                assert(old(self).tracks(pos));
                            }
                        }
                    }
                }
            },
        }
    }

    /// Withdraws one viewer's interest in one region. The region stays
    /// tracked, so it becomes unloadable when this was the last ticket.
    pub fn remove_ticket(&mut self, viewer: u64, pos: ChunkPos)
        requires
            old(self).wf(),
        ensures
            final(self).wf(),
            forall|p: ChunkPos| final(self).tracks(p) == old(self).tracks(p),
            forall|p: ChunkPos, v: u64|
                final(self).has_ticket(p, v) <==> (old(self).has_ticket(p, v) && !(p == pos && v
                    == viewer)),
    {
        match self.find_index(pos) {
            Some(i) => {
                let ghost olde = self.entries@;
                let kept = remove_all(&self.entries[i].viewers, viewer);
                self.entries[i].viewers = kept;
                proof {
                    assert forall|p: ChunkPos| final(self).tracks(p) == old(self).tracks(p) by {
                        assert(self.entries@[i as int].pos == olde[i as int].pos);
                        if self.tracks(p) {
                            let j = choose|j: int|
                                0 <= j < self.entries@.len() && (#[trigger] self.entries@[j]).pos
                                    == p;
                            assert(olde[j].pos == p);
                        }
                        if old(self).tracks(p) {
                            let j = choose|j: int|
                                0 <= j < olde.len() && (#[trigger] olde[j]).pos == p;
                            assert(self.entries@[j].pos == p);
                        }
                    }
                    assert forall|p: ChunkPos, v: u64|
                        final(self).has_ticket(p, v) <==> (old(self).has_ticket(p, v) && !(p == pos
                            && v == viewer)) by {
                        if self.has_ticket(p, v) {
                            let j = choose|j: int|
                                0 <= j < self.entries@.len() && (#[trigger] self.entries@[j]).pos
                                    == p && self.entries@[j].viewers@.contains(v);
                            if j == i as int {
                                assert(olde[j].viewers@.contains(v) && v != viewer);
                            } else {
                                assert(olde[j].pos == p && olde[j].viewers@.contains(v));
                                assert(p != pos || v != viewer || j == i as int);
                            }
                        }
                        if old(self).has_ticket(p, v) && !(p == pos && v == viewer) {
                            let j = choose|j: int|
                                0 <= j < olde.len() && (#[trigger] olde[j]).pos == p
                                    && olde[j].viewers@.contains(v);
                            if j == i as int {
                                assert(v != viewer);
                                assert(self.entries@[j].viewers@.contains(v));
                            } else {
                                assert(self.entries@[j].pos == p
                                    && self.entries@[j].viewers@.contains(v));
                            }
                        }
                    }
                }
            },
            None => {
                assert(!old(self).tracks(pos));
            },
        }
    }

    /// Withdraws a viewer's interest in every region it was watching.
    pub fn remove_viewer(&mut self, viewer: u64)
        requires
            old(self).wf(),
        ensures
            final(self).wf(),
            forall|p: ChunkPos| final(self).tracks(p) == old(self).tracks(p),
            forall|p: ChunkPos, v: u64|
                final(self).has_ticket(p, v) <==> (old(self).has_ticket(p, v) && v != viewer),
    {
        let mut i: usize = 0;
        let ghost olde = self.entries@;
        while i < self.entries.len()
            invariant
                i <= self.entries@.len(),
                self.entries@.len() == olde.len(),
                forall|j: int|
                    0 <= j < olde.len() ==> (#[trigger] self.entries@[j]).pos == olde[j].pos,
                forall|j: int, v: u64|
                    0 <= j < i ==> ((#[trigger] self.entries@[j].viewers@.contains(v)) <==> (
                    olde[j].viewers@.contains(v) && v != viewer)),
                forall|j: int|
                    i <= j < olde.len() ==> (#[trigger] self.entries@[j]).viewers@
                        == olde[j].viewers@,
            decreases self.entries@.len() - i,
        {
            let kept = remove_all(&self.entries[i].viewers, viewer);
            self.entries[i].viewers = kept;
            i = i + 1;
        }
        proof {
            assert(self.wf()) by {
                assert(forall|j: int|
                    0 <= j < olde.len() ==> (#[trigger] self.entries@[j]).pos == olde[j].pos);
            }
            assert forall|p: ChunkPos| final(self).tracks(p) == old(self).tracks(p) by {
                if self.tracks(p) {
                    let j = choose|j: int|
                        0 <= j < self.entries@.len() && (#[trigger] self.entries@[j]).pos == p;
                    assert(olde[j].pos == p);
                }
                if old(self).tracks(p) {
                    let j = choose|j: int| 0 <= j < olde.len() && (#[trigger] olde[j]).pos == p;
                    assert(self.entries@[j].pos == p);
                }
            }
            assert forall|p: ChunkPos, v: u64|
                final(self).has_ticket(p, v) <==> (old(self).has_ticket(p, v) && v != viewer) by {
                if self.has_ticket(p, v) {
                    let j = choose|j: int|
                        0 <= j < self.entries@.len() && (#[trigger] self.entries@[j]).pos == p
                            && self.entries@[j].viewers@.contains(v);
                    assert(olde[j].viewers@.contains(v) && v != viewer);
                    assert(olde[j].pos == p);
                }
                if old(self).has_ticket(p, v) && v != viewer {
                    let j = choose|j: int|
                        0 <= j < olde.len() && (#[trigger] olde[j]).pos == p
                            && olde[j].viewers@.contains(v);
                    assert(self.entries@[j].pos == p && self.entries@[j].viewers@.contains(v));
                }
            }
        }
    }

    /// Whether one viewer holds a ticket on a region.
    pub fn holds_ticket(&self, pos: ChunkPos, viewer: u64) -> (r: bool)
        requires
            self.wf(),
        ensures
            r == self.has_ticket(pos, viewer),
    {
        match self.find_index(pos) {
            Some(i) => {
                let vs = &self.entries[i].viewers;
                let mut k: usize = 0;
                let mut found = false;
                while k < vs.len()
                    invariant
                        k <= vs@.len(),
                        found == exists|j: int| 0 <= j < k && vs@[j] == viewer,
                    decreases vs@.len() - k,
                {
                    if vs[k] == viewer {
                        found = true;
                    }
                    k = k + 1;
                }
                proof {
                    if found {
                        assert(self.entries@[i as int].viewers@.contains(viewer));
                        assert(self.has_ticket(pos, viewer));
                    } else {
                        if self.has_ticket(pos, viewer) {
                            let j = choose|j: int|
                                0 <= j < self.entries@.len() && (#[trigger] self.entries@[j]).pos
                                    == pos && self.entries@[j].viewers@.contains(viewer);
                            assert(j == i as int);
                            let m = choose|m: int|
                                0 <= m < self.entries@[j].viewers@.len()
                                    && self.entries@[j].viewers@[m] == viewer;
                            assert(vs@[m] == viewer);
                        }
                    }
                }
                found
            },
            None => {
                proof {
                    if self.has_ticket(pos, viewer) {
                        assert(self.tracks(pos));
                    }
                }
                false
            },
        }
    }

    /// Whether no viewer at all holds a ticket on a region: the exact
    /// condition under which the store may drop it.
    pub fn has_no_interest(&self, pos: ChunkPos) -> (r: bool)
        requires
            self.wf(),
        ensures
            r == forall|v: u64| !self.has_ticket(pos, v),
    {
        match self.find_index(pos) {
            Some(i) => {
                let empty = self.entries[i].viewers.len() == 0;
                proof {
                    if empty {
                        assert forall|v: u64| !self.has_ticket(pos, v) by {
                            if self.has_ticket(pos, v) {
                                let j = choose|j: int|
                                    0 <= j < self.entries@.len() && (
                                    #[trigger] self.entries@[j]).pos == pos
                                        && self.entries@[j].viewers@.contains(v);
                                assert(j == i as int);
                            }
                        }
                    } else {
                        let v = self.entries@[i as int].viewers@[0];
                        assert(self.entries@[i as int].viewers@.contains(v));
                        assert(self.has_ticket(pos, v));
                    }
                }
                empty
            },
            None => {
                proof {
                    assert forall|v: u64| !self.has_ticket(pos, v) by {
                        if self.has_ticket(pos, v) {
                            assert(self.tracks(pos));
                        }
                    }
                }
                true
            },
        }
    }

    /// The regions that may be unloaded now: every tracked region whose
    /// interest set is empty, each exactly once.
    pub fn find_unloadable(&self) -> (r: Vec<ChunkPos>)
        requires
            self.wf(),
        ensures
            forall|p: ChunkPos| r@.contains(p) <==> self.unloadable(p),
            forall|i: int, j: int| 0 <= i < j < r@.len() ==> r@[i] != r@[j],
    {
        let mut out: Vec<ChunkPos> = Vec::new();
        let mut i: usize = 0;
        while i < self.entries.len()
            invariant
                self.wf(),
                i <= self.entries@.len(),
                forall|p: ChunkPos|
                    out@.contains(p) <==> exists|j: int|
                        0 <= j < i && (#[trigger] self.entries@[j]).pos == p
                            && self.entries@[j].viewers@.len() == 0,
                forall|a: int, b: int| 0 <= a < b < out@.len() ==> out@[a] != out@[b],
            decreases self.entries@.len() - i,
        {
            let e = &self.entries[i];
            if e.viewers.len() == 0 {
                let ghost oldout = out@;
                proof {
                    if oldout.contains(e.pos) {
                        let j = choose|j: int|
                            0 <= j < i && (#[trigger] self.entries@[j]).pos == e.pos
                                && self.entries@[j].viewers@.len() == 0;
                        assert(false);
                    }
                }
                out.push(e.pos);
                proof {
                    assert forall|p: ChunkPos|
                        out@.contains(p) <==> exists|j: int|
                            0 <= j < i + 1 && (#[trigger] self.entries@[j]).pos == p
                                && self.entries@[j].viewers@.len() == 0 by {
                        if out@.contains(p) {
                            let k = choose|k: int| 0 <= k < out@.len() && out@[k] == p;
                            if k < oldout.len() {
                                assert(oldout.contains(p));
                            } else {
                                assert(p == self.entries@[i as int].pos);
                            }
                        }
                        if exists|j: int|
                            0 <= j < i + 1 && (#[trigger] self.entries@[j]).pos == p
                                && self.entries@[j].viewers@.len() == 0 {
                            let j = choose|j: int|
                                0 <= j < i + 1 && (#[trigger] self.entries@[j]).pos == p
                                    && self.entries@[j].viewers@.len() == 0;
                            if j < i {
                                assert(oldout.contains(p));
                                let k = choose|k: int| 0 <= k < oldout.len() && oldout[k] == p;
                                assert(out@[k] == p);
                            } else {
                                assert(out@.last() == p);
                            }
                        }
                    }
                }
            } else {
                proof {
                    assert forall|p: ChunkPos|
                        out@.contains(p) <==> exists|j: int|
                            0 <= j < i + 1 && (#[trigger] self.entries@[j]).pos == p
                                && self.entries@[j].viewers@.len() == 0 by {
                        if exists|j: int|
                            0 <= j < i + 1 && (#[trigger] self.entries@[j]).pos == p
                                && self.entries@[j].viewers@.len() == 0 {
                            let j = choose|j: int|
                                0 <= j < i + 1 && (#[trigger] self.entries@[j]).pos == p
                                    && self.entries@[j].viewers@.len() == 0;
                            assert(j < i);
                        }
                    }
                }
            }
            i = i + 1;
        }
        out
    }
}

/// A region with an empty interest set is reported unloadable, and adding
/// any ticket withdraws it from that report: here, a table `after` that
/// extends `before` by one ticket on `pos` no longer reports `pos`, and
/// reports any other region exactly as `before` did.
pub proof fn lemma_add_ticket_retains(
    before: ChunkTickets,
    after: ChunkTickets,
    pos: ChunkPos,
    viewer: u64,
    p: ChunkPos,
)
    requires
        before.wf(),
        after.wf(),
        after.tracks(pos),
        forall|q: ChunkPos| after.tracks(q) <==> (before.tracks(q) || q == pos),
        forall|q: ChunkPos, v: u64|
            after.has_ticket(q, v) <==> (before.has_ticket(q, v) || (q == pos && v == viewer)),
    ensures
        !after.unloadable(pos),
        p != pos ==> (after.unloadable(p) <==> before.unloadable(p)),
{
    after.lemma_unloadable_means_no_tickets(pos);
    assert(after.has_ticket(pos, viewer));
    if p != pos {
        before.lemma_unloadable_means_no_tickets(p);
        after.lemma_unloadable_means_no_tickets(p);
        if before.unloadable(p) {
            assert forall|v: u64| !after.has_ticket(p, v) by {
                assert(!before.has_ticket(p, v));
            }
        }
        if after.unloadable(p) {
            assert forall|v: u64| !before.has_ticket(p, v) by {
                assert(!after.has_ticket(p, v));
            }
        }
    }
}

/// The viewers of one entry without every occurrence of one viewer.
fn remove_all(viewers: &Vec<u64>, viewer: u64) -> (r: Vec<u64>)
    ensures
        forall|v: u64| r@.contains(v) <==> (viewers@.contains(v) && v != viewer),
{
    let mut out: Vec<u64> = Vec::new();
    let mut i: usize = 0;
    while i < viewers.len()
        invariant
            i <= viewers@.len(),
            forall|v: u64|
                out@.contains(v) <==> (exists|j: int|
                    0 <= j < i && viewers@[j] == v && v != viewer),
        decreases viewers@.len() - i,
    {
        let v = viewers[i];
        if v != viewer {
            let ghost oldout = out@;
            out.push(v);
            proof {
                assert forall|w: u64|
                    out@.contains(w) <==> (exists|j: int|
                        0 <= j < i + 1 && viewers@[j] == w && w != viewer) by {
                    if out@.contains(w) {
                        let k = choose|k: int| 0 <= k < out@.len() && out@[k] == w;
                        if k < oldout.len() {
                            assert(oldout.contains(w));
                        } else {
                            assert(w == v);
                            assert(viewers@[i as int] == w);
                        }
                    }
                    if exists|j: int| 0 <= j < i + 1 && viewers@[j] == w && w != viewer {
                        let j = choose|j: int| 0 <= j < i + 1 && viewers@[j] == w && w != viewer;
                        if j < i {
                            assert(oldout.contains(w));
                            let k = choose|k: int| 0 <= k < oldout.len() && oldout[k] == w;
                            assert(out@[k] == w);
                        } else {
                            assert(out@.last() == w);
                        }
                    }
                }
            }
        } else {
            proof {
                assert forall|w: u64|
                    out@.contains(w) <==> (exists|j: int|
                        0 <= j < i + 1 && viewers@[j] == w && w != viewer) by {
                    if exists|j: int| 0 <= j < i + 1 && viewers@[j] == w && w != viewer {
                        let j = choose|j: int| 0 <= j < i + 1 && viewers@[j] == w && w != viewer;
                        assert(j < i);
                    }
                }
            }
        }
        i = i + 1;
    }
    proof {
        assert forall|v: u64| out@.contains(v) <==> (viewers@.contains(v) && v != viewer) by {
            if viewers@.contains(v) && v != viewer {
                let j = choose|j: int| 0 <= j < viewers@.len() && viewers@[j] == v;
                assert(0 <= j < viewers@.len() && viewers@[j] == v && v != viewer);
            }
        }
    }
    out
}

} // verus!
