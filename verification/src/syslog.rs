//! Per-player bounded event logs.
//!
//! Each player owns a ring of at most ten entries; pushing onto a full
//! ring overwrites the oldest entry, and draining returns the current
//! contents oldest first.

use vstd::prelude::*;

verus! {

use crate::cargo::ShipCargo;
use crate::player::PlayerId;
use crate::ship::ShipId;

/// How many entries a player's log can hold.
pub const SYSLOG_FIFO_MAX_SIZE: usize = 10;

/// What the simulation reports to a player.
#[derive(Clone, Debug)]
pub enum SyslogEvent {
    GameStarted,
    GameLost,
    ShipDestroyed(ShipId),
    ShipFlightFinished(ShipId),
    ExtractionStopped(ShipId),
    UnloadedNothing { station_cargo: ShipCargo, ship_cargo: ShipCargo },
    /// Runway left before the money runs out, in milliseconds.
    LowFunds(u64),
}

/// One push on a bounded queue: append, dropping the oldest entry
/// once ten are held.
pub open spec fn fifo_push_rule<T>(q: Seq<T>, e: T) -> Seq<T> {
    if q.len() < SYSLOG_FIFO_MAX_SIZE {
        q.push(e)
    } else {
        q.drop_first().push(e)
    }
}

/// A bounded ring buffer that overwrites its oldest entry when full.
#[derive(Debug)]
pub struct Fifo<T> {
    list: Vec<Option<T>>,
    push_ind: usize,
    pop_ind: usize,
    len: usize,
}

impl<T> Fifo<T> {
    pub closed spec fn wf(self) -> bool {
        &&& self.list@.len() == SYSLOG_FIFO_MAX_SIZE
        &&& self.len <= SYSLOG_FIFO_MAX_SIZE
        &&& self.push_ind < SYSLOG_FIFO_MAX_SIZE
        &&& self.pop_ind < SYSLOG_FIFO_MAX_SIZE
        &&& self.push_ind == (self.pop_ind + self.len) % (SYSLOG_FIFO_MAX_SIZE as int)
        &&& forall|i: int|
            0 <= i < self.len ==> #[trigger] self.list@[(self.pop_ind + i) % (
            SYSLOG_FIFO_MAX_SIZE as int)] is Some
    }

    /// The queued entries, oldest first.
    pub closed spec fn view_spec(self) -> Seq<T> {
        Seq::new(
            self.len as nat,
            |i: int| self.list@[(self.pop_ind + i) % (SYSLOG_FIFO_MAX_SIZE as int)]->Some_0,
        )
    }

    pub fn new() -> (f: Fifo<T>)
        ensures
            f.wf(),
            f.view_spec().len() == 0,
    {
        let mut list: Vec<Option<T>> = Vec::new();
        let mut i: usize = 0;
        while i < SYSLOG_FIFO_MAX_SIZE
            invariant
                list@.len() == i,
                i <= SYSLOG_FIFO_MAX_SIZE,
            decreases SYSLOG_FIFO_MAX_SIZE - i,
        {
            list.push(None);
            i = i + 1;
        }
        Fifo { list, push_ind: 0, pop_ind: 0, len: 0 }
    }

    pub fn queue_len(&self) -> (n: usize)
        ensures
            n == self.view_spec().len(),
    {
        self.len
    }

    /// Append an entry; when the ring is full the oldest entry leaves.
    #[verifier::rlimit(60)]
    pub fn push(&mut self, data: T)
        requires
            old(self).wf(),
        ensures
            final(self).wf(),
            final(self).view_spec().len() <= SYSLOG_FIFO_MAX_SIZE,
            final(self).view_spec() == fifo_push_rule(old(self).view_spec(), data),
            old(self).view_spec().len() < SYSLOG_FIFO_MAX_SIZE ==> final(self).view_spec()
                == old(self).view_spec().push(data),
            old(self).view_spec().len() == SYSLOG_FIFO_MAX_SIZE ==> final(self).view_spec()
                == old(self).view_spec().drop_first().push(data),
    {
        let ghost oldself = *self;
        if self.len > 0 && self.push_ind == self.pop_ind {
            self.pop_ind = (self.pop_ind + 1) % SYSLOG_FIFO_MAX_SIZE;
        }
        let slot = &mut self.list[self.push_ind];
        *slot = Some(data);
        self.push_ind = (self.push_ind + 1) % SYSLOG_FIFO_MAX_SIZE;
        self.len = if self.len + 1 < SYSLOG_FIFO_MAX_SIZE {
            self.len + 1
        } else {
            SYSLOG_FIFO_MAX_SIZE
        };
        proof {
            let m = SYSLOG_FIFO_MAX_SIZE as int;
            if oldself.len < SYSLOG_FIFO_MAX_SIZE {
                assert forall|i: int| 0 <= i < self.len implies #[trigger] self.list@[(
                    self.pop_ind + i) % m] is Some by {
                    if i < oldself.len {
                        assert(oldself.list@[(oldself.pop_ind + i) % m] is Some);
                        if (oldself.pop_ind + i) % m == oldself.push_ind as int {
                        }
                    } else {
                        assert((self.pop_ind + i) % m == oldself.push_ind as int);
                    }
                }
                assert((self.pop_ind + self.len) % m == self.push_ind as int);
                assert(self.view_spec() =~= oldself.view_spec().push(data));
            } else {
                assert forall|i: int| 0 <= i < self.len implies #[trigger] self.list@[(
                    self.pop_ind + i) % m] is Some by {
                    if i < self.len - 1 {
                        assert((self.pop_ind + i) % m == (oldself.pop_ind + (i + 1)) % m);
                        assert(oldself.list@[(oldself.pop_ind + (i + 1)) % m] is Some);
                    } else {
                        assert((self.pop_ind + i) % m == oldself.push_ind as int);
                    }
                }
                assert((self.pop_ind + self.len) % m == self.push_ind as int);
                assert(self.view_spec() =~= oldself.view_spec().drop_first().push(data));
            }
        }
    }

    /// Remove and return the oldest entry, if any.
    #[verifier::rlimit(60)]
    pub fn pop(&mut self) -> (r: Option<T>)
        requires
            old(self).wf(),
        ensures
            final(self).wf(),
            match r {
                Some(v) => old(self).view_spec().len() > 0 && v == old(self).view_spec()[0]
                    && final(self).view_spec() == old(self).view_spec().drop_first(),
                None => old(self).view_spec().len() == 0 && final(self).view_spec() == old(self).view_spec(),
            },
    {
        if self.len == 0 {
            return None;
        }
        let ghost oldself = *self;
        let slot = &mut self.list[self.pop_ind];
        let data = slot.take();
        self.pop_ind = (self.pop_ind + 1) % SYSLOG_FIFO_MAX_SIZE;
        self.len = self.len - 1;
        proof {
            let m = SYSLOG_FIFO_MAX_SIZE as int;
            assert((oldself.pop_ind + 0) % m == oldself.pop_ind as int);
            assert(oldself.list@[(oldself.pop_ind + 0) % m] is Some);
            assert forall|i: int| 0 <= i < self.len implies {
                &&& (self.pop_ind + i) % m == (oldself.pop_ind + (i + 1)) % m
                &&& (self.pop_ind + i) % m != oldself.pop_ind as int
                &&& #[trigger] self.list@[(self.pop_ind + i) % m] is Some
            } by {
                assert((self.pop_ind + i) % m == (oldself.pop_ind + (i + 1)) % m);
                assert((oldself.pop_ind + (i + 1)) % m != oldself.pop_ind as int);
                assert(oldself.list@[(oldself.pop_ind + (i + 1)) % m] is Some);
            }
            assert(self.view_spec() =~= oldself.view_spec().drop_first());
        }
        data
    }

    /// Drain the whole ring, oldest first.
    pub fn remove_all(&mut self) -> (r: Vec<T>)
        requires
            old(self).wf(),
        ensures
            final(self).wf(),
            r@ == old(self).view_spec(),
            r@.len() <= SYSLOG_FIFO_MAX_SIZE,
            final(self).view_spec().len() == 0,
    {
        let mut data: Vec<T> = Vec::new();
        while self.len > 0
            invariant
                self.wf(),
                data@ + self.view_spec() == old(self).view_spec(),
                self.len == self.view_spec().len(),
            decreases self.len,
        {
            let got = self.pop();
            match got {
                Some(v) => {
                    data.push(v);
                },
                None => {
                },
            }
        }
        proof {
            assert(data@ =~= old(self).view_spec());
        }
        data
    }
}

impl<T> Fifo<T> {
    /// The exported bound: a well-formed ring never holds more than
    /// ten entries.
    pub proof fn lemma_view_bounded(self)
        requires
            self.wf(),
        ensures
            self.view_spec().len() <= SYSLOG_FIFO_MAX_SIZE,
    {
    }
}

/// The logs of every player, keyed by player id.
#[derive(Debug)]
pub struct SyslogFifos {
    pub entries: Vec<(PlayerId, Fifo<(u64, SyslogEvent)>)>,
}

impl SyslogFifos {
    pub open spec fn wf(self) -> bool {
        &&& forall|i: int, j: int|
            0 <= i < j < self.entries@.len() ==> self.entries@[i].0 != self.entries@[j].0
        &&& forall|i: int| 0 <= i < self.entries@.len() ==> (#[trigger] self.entries@[i]).1.wf()
    }

    pub open spec fn has_player(self, id: PlayerId) -> bool {
        exists|i: int| 0 <= i < self.entries@.len() && self.entries@[i].0 == id
    }

    /// Slot of a player's ring; meaningful when `has_player`.
    pub open spec fn idx_of(self, id: PlayerId) -> int {
        choose|i: int| 0 <= i < self.entries@.len() && self.entries@[i].0 == id
    }

    /// The player's queued events, oldest first; empty for a player
    /// never written to.
    pub open spec fn queue_of(self, id: PlayerId) -> Seq<(u64, SyslogEvent)> {
        if self.has_player(id) {
            self.entries@[self.idx_of(id)].1.view_spec()
        } else {
            Seq::empty()
        }
    }

    /// The queue a slot holds is the queue of the id it is filed under.
    proof fn lemma_queue_at(self, i: int)
        requires
            self.wf(),
            0 <= i < self.entries@.len(),
        ensures
            self.has_player(self.entries@[i].0),
            self.idx_of(self.entries@[i].0) == i,
            self.queue_of(self.entries@[i].0) == self.entries@[i].1.view_spec(),
    {
        assert(self.has_player(self.entries@[i].0));
        let j = self.idx_of(self.entries@[i].0);
        assert(0 <= j < self.entries@.len() && self.entries@[j].0 == self.entries@[i].0);
        if j < i {
            assert(self.entries@[j].0 != self.entries@[i].0);
        } else if i < j {
            assert(self.entries@[i].0 != self.entries@[j].0);
        }
    }

    /// Queues never hold more than ten entries.
    pub proof fn lemma_queue_bounded(self, id: PlayerId)
        requires
            self.wf(),
        ensures
            self.queue_of(id).len() <= SYSLOG_FIFO_MAX_SIZE,
    {
        if self.has_player(id) {
            let i = self.idx_of(id);
            assert(self.entries@[i].1.wf());
            self.entries@[i].1.lemma_view_bounded();
        }
    }

    pub fn new() -> (s: SyslogFifos)
        ensures
            s.wf(),
            s.entries@.len() == 0,
    {
        SyslogFifos { entries: Vec::new() }
    }

    fn find(&self, id: PlayerId) -> (r: Option<usize>)
        ensures
            match r {
                Some(i) => i < self.entries@.len() && self.entries@[i as int].0 == id,
                None => !self.has_player(id),
            },
    {
        let mut i: usize = 0;
        while i < self.entries.len()
            invariant
                i <= self.entries@.len(),
                forall|j: int| 0 <= j < i ==> self.entries@[j].0 != id,
            decreases self.entries@.len() - i,
        {
            if self.entries[i].0 == id {
                return Some(i);
            }
            i = i + 1;
        }
        None
    }

    /// File an event under its player, timestamped in milliseconds;
    /// a player seen for the first time gets a fresh ring.
    pub fn add_to_fifo(&mut self, id: PlayerId, now_ms: u64, evt: SyslogEvent)
        requires
            old(self).wf(),
        ensures
            final(self).wf(),
            final(self).has_player(id),
            final(self).queue_of(id) == fifo_push_rule(
                old(self).queue_of(id),
                (now_ms, evt),
            ),
            forall|p: PlayerId| p != id ==> final(self).queue_of(p) == old(self).queue_of(p),
            forall|p: PlayerId| old(self).has_player(p) ==> final(self).has_player(p),
    {
        let ghost pre = *self;
        match self.find(id) {
            Some(i) => {
                proof {
                    pre.lemma_queue_at(i as int);
                }
                let entry = &mut self.entries[i];
                entry.1.push((now_ms, evt));
                proof {
                    assert(self.entries@[i as int].0 == id);
                    assert(forall|j: int|
                        0 <= j < self.entries@.len() && j != i ==> self.entries@[j] == pre.entries@[j]);
                    self.lemma_queue_at(i as int);
                    assert forall|p: PlayerId| pre.has_player(p) implies self.has_player(
                        p,
                    ) by {
                        let w = choose|w: int|
                            0 <= w < pre.entries@.len() && pre.entries@[w].0 == p;
                        assert(self.entries@[w].0 == p);
                    }
                    assert forall|p: PlayerId| p != id implies self.queue_of(p) == pre.queue_of(
                        p,
                    ) by {
                        if self.has_player(p) {
                            let w = self.idx_of(p);
                            assert(0 <= w < self.entries@.len() && self.entries@[w].0 == p);
                            assert(w != i);
                            assert(pre.entries@[w].0 == p);
                            pre.lemma_queue_at(w);
                            self.lemma_queue_at(w);
                        } else {
                            if pre.has_player(p) {
                                let w = pre.idx_of(p);
                                assert(self.entries@[w].0 == p);
                            }
                        }
                    }
                }
            },
            None => {
                let mut fifo = Fifo::new();
                fifo.push((now_ms, evt));
                self.entries.push((id, fifo));
                proof {
                    assert(self.entries@[self.entries@.len() - 1].0 == id);
                    self.lemma_queue_at(self.entries@.len() - 1);
                    assert(old(self).queue_of(id) =~= Seq::<(u64, SyslogEvent)>::empty());
                    assert forall|p: PlayerId| pre.has_player(p) implies self.has_player(
                        p,
                    ) by {
                        let w = choose|w: int|
                            0 <= w < pre.entries@.len() && pre.entries@[w].0 == p;
                        assert(self.entries@[w].0 == p);
                    }
                    assert forall|p: PlayerId| p != id implies self.queue_of(p) == pre.queue_of(
                        p,
                    ) by {
                        if self.has_player(p) {
                            let w = self.idx_of(p);
                            assert(0 <= w < self.entries@.len() && self.entries@[w].0 == p);
                            assert(w != self.entries@.len() - 1);
                            assert(pre.entries@[w].0 == p);
                            pre.lemma_queue_at(w);
                            self.lemma_queue_at(w);
                        } else {
                            if pre.has_player(p) {
                                let w = pre.idx_of(p);
                                assert(self.entries@[w].0 == p);
                            }
                        }
                    }
                }
            },
        }
    }

    /// Drain a player's ring, oldest first; unknown players have nothing.
    pub fn drain(&mut self, id: PlayerId) -> (r: Vec<(u64, SyslogEvent)>)
        requires
            old(self).wf(),
        ensures
            final(self).wf(),
            r@ == old(self).queue_of(id),
            r@.len() <= SYSLOG_FIFO_MAX_SIZE,
            final(self).queue_of(id) == Seq::<(u64, SyslogEvent)>::empty(),
            forall|p: PlayerId| p != id ==> final(self).queue_of(p) == old(self).queue_of(p),
    {
        let ghost pre = *self;
        match self.find(id) {
            Some(i) => {
                proof {
                    pre.lemma_queue_at(i as int);
                }
                let entry = &mut self.entries[i];
                let out = entry.1.remove_all();
                proof {
                    assert(self.entries@[i as int].0 == id);
                    assert(forall|j: int|
                        0 <= j < self.entries@.len() && j != i ==> self.entries@[j] == pre.entries@[j]);
                    self.lemma_queue_at(i as int);
                    assert(self.queue_of(id) =~= Seq::<(u64, SyslogEvent)>::empty());
                    assert forall|p: PlayerId| pre.has_player(p) implies self.has_player(
                        p,
                    ) by {
                        let w = choose|w: int|
                            0 <= w < pre.entries@.len() && pre.entries@[w].0 == p;
                        assert(self.entries@[w].0 == p);
                    }
                    assert forall|p: PlayerId| p != id implies self.queue_of(p) == pre.queue_of(
                        p,
                    ) by {
                        if self.has_player(p) {
                            let w = self.idx_of(p);
                            assert(0 <= w < self.entries@.len() && self.entries@[w].0 == p);
                            assert(w != i);
                            assert(pre.entries@[w].0 == p);
                            pre.lemma_queue_at(w);
                            self.lemma_queue_at(w);
                        } else {
                            if pre.has_player(p) {
                                let w = pre.idx_of(p);
                                assert(self.entries@[w].0 == p);
                            }
                        }
                    }
                }
                out
            },
            None => {
                proof {
                    assert(pre.queue_of(id) =~= Seq::<(u64, SyslogEvent)>::empty());
                }
                Vec::new()
            },
        }
    }
}

} // verus!
