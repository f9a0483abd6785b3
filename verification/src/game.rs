//! The running game: the world snapshot, the tick, and the command
//! surface the transport layer calls into.
//!
//! Every mutating command authenticates a player by key first; a lost
//! player is turned away with `PlayerLost` before anything changes.

use vstd::prelude::*;

verus! {

use crate::errors::Errcode;
use crate::galaxy::Galaxy;
use crate::market::Market;
use crate::player::Player;
use crate::player::PlayerId;
use crate::rng::rand_below;
use crate::ship::ShipState;
use crate::syslog::SyslogEvent;
use crate::syslog::SyslogFifos;

/// The driver's tick width, in milliseconds.
pub const ITER_PERIOD_MS: u64 = 50;

/// Mean time between market drift rolls, in milliseconds.
pub const MARKET_CHANGE_MS: u64 = 20000;

pub struct Game {
    pub players: Vec<Player>,
    pub galaxy: Galaxy,
    pub market: Market,
    pub fifos: SyslogFifos,
    /// Milliseconds since the market last drifted.
    pub market_elapsed_ms: u64,
    /// Simulation clock, in milliseconds.
    pub now_ms: u64,
}

impl Game {
    pub open spec fn wf(self) -> bool {
        &&& forall|i: int| 0 <= i < self.players@.len() ==> (#[trigger] self.players@[i]).wf()
        &&& forall|i: int, j: int|
            0 <= i < j < self.players@.len() ==> self.players@[i].id != self.players@[j].id
        &&& self.galaxy.wf()
        &&& self.market.wf()
        &&& self.fifos.wf()
    }

    /// Whether some player authenticates with this key.
    pub open spec fn has_key(self, key: Seq<u8>) -> bool {
        exists|i: int| 0 <= i < self.players@.len() && (#[trigger] self.players@[i]).key@ == key
    }

    /// Whether every player with this key has lost.
    pub open spec fn all_with_key_lost(self, key: Seq<u8>) -> bool {
        forall|i: int|
            0 <= i < self.players@.len() && (#[trigger] self.players@[i]).key@ == key
                ==> self.players@[i].lost
    }

    /// The index of the first player holding this key; meaningful only
    /// when `has_key` holds.
    #[verifier::opaque]
    pub open spec fn first_key_idx(self, key: Seq<u8>) -> int {
        choose|i: int|
            0 <= i < self.players@.len() && (#[trigger] self.players@[i]).key@ == key && (
            forall|j: int| 0 <= j < i ==> (#[trigger] self.players@[j]).key@ != key)
    }

    /// Whether the player who authenticates with this key has lost.
    pub open spec fn first_key_lost(self, key: Seq<u8>) -> bool {
        self.players@[self.first_key_idx(key)].lost
    }

    /// A fresh world: no players, an empty galaxy, base prices.
    pub fn init() -> (g: Game)
        ensures
            g.wf(),
            g.players@.len() == 0,
            g.now_ms == 0,
    {
        Game {
            players: Vec::new(),
            galaxy: Galaxy::init(),
            market: Market::init(),
            fifos: SyslogFifos::new(),
            market_elapsed_ms: 0,
            now_ms: 0,
        }
    }

    /// Index of the player with this id.
    pub fn find_player(&self, id: PlayerId) -> (r: Option<usize>)
        ensures
            match r {
                Some(i) => i < self.players@.len() && self.players@[i as int].id == id,
                None => forall|i: int|
                    0 <= i < self.players@.len() ==> (#[trigger] self.players@[i]).id != id,
            },
    {
        let mut i: usize = 0;
        while i < self.players.len()
            invariant
                i <= self.players@.len(),
                forall|j: int| 0 <= j < i ==> (#[trigger] self.players@[j]).id != id,
            decreases self.players@.len() - i,
        {
            if self.players[i].id == id {
                return Some(i);
            }
            i = i + 1;
        }
        None
    }

    /// Authenticate a mutation: the first player with this key, turned
    /// away with `PlayerLost` if that player has lost the game.
    fn find_live_player(&self, key: &Vec<u8>) -> (r: Result<usize, Errcode>)
        ensures
            match r {
                Ok(i) => {
                    &&& i < self.players@.len()
                    &&& self.players@[i as int].key@ == key@
                    &&& !self.players@[i as int].lost
                    &&& self.has_key(key@)
                    &&& !self.first_key_lost(key@)
                    &&& i as int == self.first_key_idx(key@)
                },
                Err(e) => {
                    &&& (e is NoPlayerWithKey <==> !self.has_key(key@))
                    &&& (e is PlayerLost <==> self.has_key(key@) && self.first_key_lost(
                        key@,
                    ))
                    &&& (e is NoPlayerWithKey || e is PlayerLost)
                },
            },
            self.has_key(key@) && self.all_with_key_lost(key@) ==> r == Result::<
                usize,
                Errcode,
            >::Err(Errcode::PlayerLost),
    {
        let mut i: usize = 0;
        while i < self.players.len()
            invariant
                i <= self.players@.len(),
                forall|j: int| 0 <= j < i ==> (#[trigger] self.players@[j]).key@ != key@,
            decreases self.players@.len() - i,
        {
            if keys_eq(&self.players[i].key, key) {
                proof {
                    lemma_first_key_idx_is(*self, key@, i as int);
                }
                if self.players[i].lost {
                    return Err(Errcode::PlayerLost);
                }
                return Ok(i);
            }
            i = i + 1;
        }
        Err(Errcode::NoPlayerWithKey)
    }

    /// Register a new player with a fresh home station and report the
    /// id and the base64 key.  A taken name, or an id collision, is
    /// refused.
    pub fn new_player(&mut self, name: String) -> (r: Result<(PlayerId, String), Errcode>)
        requires
            old(self).wf(),
        ensures
            final(self).wf(),
            match r {
                Ok((pid, key)) => {
                    &&& final(self).players@.len() == old(self).players@.len() + 1
                    &&& final(self).players@.last().id == pid
                    &&& final(self).players@.last().money == crate::player::INIT_MONEY
                    &&& final(self).players@.last().costs == 0
                    &&& !final(self).players@.last().lost
                    &&& final(self).players@.last().stations@.len() == 1
                    &&& final(self).galaxy.station_idx_at(
                        final(self).players@.last().stations@[0].1,
                    ) is Some
                    &&& key@.len() == 172
                },
                Err(e) => {
                    &&& final(self).players@ == old(self).players@
                    &&& (e is PlayerAlreadyExists || e is InvalidArgument)
                },
            },
            (exists|i: int|
                0 <= i < old(self).players@.len() && (#[trigger] old(self).players@[i]).name
                    == name) ==> r is Err && *final(self) == *old(self),
    {
        let mut i: usize = 0;
        while i < self.players.len()
            invariant
                self.wf(),
                i <= self.players@.len(),
                forall|j: int| 0 <= j < i ==> (#[trigger] self.players@[j]).name != name,
            decreases self.players@.len() - i,
        {
            if self.players[i].name == name {
                let pid = self.players[i].id;
                return Err(Errcode::PlayerAlreadyExists(pid, name));
            }
            i = i + 1;
        }
        let station = match self.galaxy.init_new_station() {
            Ok(s) => s,
            Err(e) => {
                return Err(e);
            },
        };
        let player = Player::new(station, name);
        let pid = player.id;
        if self.find_player(pid).is_some() {
            return Err(Errcode::PlayerAlreadyExists(pid, player.name.clone()));
        }
        let key = player.key_b64();
        self.players.push(player);
        self.fifos.add_to_fifo(pid, self.now_ms, SyslogEvent::GameStarted);
        proof {
            assert(self.players@.last().id == pid);
            assert forall|a: int, b: int|
                0 <= a < b < self.players@.len() implies self.players@[a].id
                != self.players@[b].id by {
                if b == self.players@.len() - 1 {
                    assert(self.players@[a] == old(self).players@[a]);
                }
            }
        }
        Ok((pid, key))
    }

    /// One simulation tick: roll the market drift, bill every player's
    /// wages, advance flights and extractions, and bury dead ships.
    /// Ids never change, every wallet pays exactly its wage bill for
    /// the tick, and a lost player stays lost.
    #[verifier::rlimit(100)]
    pub fn tick(&mut self, tdelta_ms: u64)
        requires
            old(self).wf(),
            1 <= tdelta_ms <= 50,
        ensures
            final(self).wf(),
            final(self).players@.len() == old(self).players@.len(),
            forall|i: int|
                0 <= i < old(self).players@.len() ==> (#[trigger] final(self).players@[i]).id
                    == old(self).players@[i].id && final(self).players@[i].key@ == old(self).players@[i].key@ && (old(self).players@[i].lost ==> final(self).players@[i].lost),
            forall|i: int|
                0 <= i < old(self).players@.len() ==> (#[trigger] final(self).players@[
                i]).money == crate::player::money_sub(
                    old(self).players@[i].money as int,
                    old(self).players@[i].costs * tdelta_ms / 1000,
                ) && final(self).players@[i].costs == old(self).players@[i].costs,
            forall|i: int|
                0 <= i < old(self).players@.len() ==> fleet_stepped(
                    old(self).players@[i].ships@,
                    (#[trigger] final(self).players@[i]).ships@,
                    tdelta_ms as int,
                ),
            forall|i: int|
                0 <= i < old(self).players@.len() ==> final(self).fifos.queue_of(
                    (#[trigger] old(self).players@[i]).id,
                ) == fleet_events(
                    crate::player::money_events_spec(
                        old(self).players@[i],
                        old(self).fifos.queue_of(old(self).players@[i].id),
                        final(self).now_ms,
                        tdelta_ms as int,
                    ),
                    old(self).players@[i].ships@,
                    tdelta_ms as int,
                    final(self).now_ms,
                ),
    {
        self.now_ms = if self.now_ms > u64::MAX - tdelta_ms {
            u64::MAX
        } else {
            self.now_ms + tdelta_ms
        };
        self.market_elapsed_ms = if self.market_elapsed_ms > u64::MAX - tdelta_ms {
            u64::MAX
        } else {
            self.market_elapsed_ms + tdelta_ms
        };
        let proba_milli: u64 = if self.market_elapsed_ms >= MARKET_CHANGE_MS {
            1000
        } else {
            self.market_elapsed_ms * 1000 / MARKET_CHANGE_MS
        };
        if proba_milli > 0 && rand_below(1000) < proba_milli {
            self.market.update_prices();
            self.market_elapsed_ms = 0;
        }
        let now = self.now_ms;
        let mut pi: usize = 0;
        while pi < self.players.len()
            invariant
                1 <= tdelta_ms <= 50,
                self.galaxy.wf(),
                self.market.wf(),
                forall|i: int|
                    0 <= i < self.players@.len() ==> (#[trigger] self.players@[i]).wf(),
                forall|i: int, j: int|
                    0 <= i < j < self.players@.len() ==> self.players@[i].id
                        != self.players@[j].id,
                self.fifos.wf(),
                pi <= self.players@.len(),
                self.players@.len() == old(self).players@.len(),
                forall|i: int|
                    0 <= i < old(self).players@.len() ==> (#[trigger] self.players@[i]).id
                        == old(self).players@[i].id && self.players@[i].key@ == old(self).players@[i].key@ && (old(self).players@[i].lost ==> self.players@[
                    i].lost),
                forall|i: int|
                    0 <= i < pi && i < old(self).players@.len() ==> (#[trigger] self.players@[
                    i]).money == crate::player::money_sub(
                        old(self).players@[i].money as int,
                        old(self).players@[i].costs * tdelta_ms / 1000,
                    ) && self.players@[i].costs == old(self).players@[i].costs,
                forall|i: int|
                    pi <= i < old(self).players@.len() ==> (#[trigger] self.players@[i]).money
                        == old(self).players@[i].money && self.players@[i].costs == old(self).players@[i].costs,
                forall|i: int|
                    pi <= i < old(self).players@.len() ==> #[trigger] self.players@[i]
                        == old(self).players@[i],
                now == self.now_ms,
                forall|i: int|
                    0 <= i < pi && i < old(self).players@.len() ==> fleet_stepped(
                        old(self).players@[i].ships@,
                        (#[trigger] self.players@[i]).ships@,
                        tdelta_ms as int,
                    ),
                forall|i: int|
                    pi <= i < old(self).players@.len() ==> (#[trigger] self.players@[i]).ships@
                        == old(self).players@[i].ships@,
                forall|i: int|
                    0 <= i < pi && i < old(self).players@.len() ==> self.fifos.queue_of(
                        (#[trigger] old(self).players@[i]).id,
                    ) == fleet_events(
                        crate::player::money_events_spec(
                            old(self).players@[i],
                            old(self).fifos.queue_of(old(self).players@[i].id),
                            now,
                            tdelta_ms as int,
                        ),
                        old(self).players@[i].ships@,
                        tdelta_ms as int,
                        now,
                    ),
                forall|i: int|
                    pi <= i < old(self).players@.len() ==> self.fifos.queue_of(
                        (#[trigger] old(self).players@[i]).id,
                    ) == old(self).fifos.queue_of(old(self).players@[i].id),
            decreases self.players@.len() - pi,
        {
            let ghost ps0 = self.players@;
            let mut scratch = Player {
                id: 0,
                key: Vec::new(),
                lost: false,
                name: String::new(),
                money: 0,
                costs: 0,
                stations: Vec::new(),
                ships: Vec::new(),
            };
            let slot = &mut self.players[pi];
            core::mem::swap(slot, &mut scratch);
            let ghost psmid = self.players@;
            proof {
                assert(scratch == ps0[pi as int]);
                assert(scratch.wf());
            }
            let pid = scratch.id;
            let ghost orig = scratch.ships@;
            let ghost qf0 = self.fifos;
            scratch.update_money(&mut self.fifos, now, tdelta_ms);
            let ghost qfm = self.fifos;
            let ghost mut consumed: int = 0;
            proof {
                assert(orig.take(0) =~= Seq::<crate::ship::Ship>::empty());
                assert(scratch.ships@.take(0) =~= Seq::<crate::ship::Ship>::empty());
                assert(scratch.ships@.skip(0) =~= orig.skip(0));
                assert(orig.skip(0) =~= orig);
            }
            let mut si: usize = 0;
            while si < scratch.ships.len()
                invariant
                    1 <= tdelta_ms <= 50,
                    scratch.wf(),
                    self.galaxy.wf(),
                    self.market.wf(),
                    self.fifos.wf(),
                    self.players@ == psmid,
                    si <= scratch.ships@.len(),
                    pi < ps0.len(),
                    pid == ps0[pi as int].id,
                    scratch.id == ps0[pi as int].id,
                    scratch.key@ == ps0[pi as int].key@,
                    ps0[pi as int].lost ==> scratch.lost,
                    scratch.money == crate::player::money_sub(
                        ps0[pi as int].money as int,
                        ps0[pi as int].costs * tdelta_ms / 1000,
                    ),
                    scratch.costs == ps0[pi as int].costs,
                    now == self.now_ms,
                    0 <= consumed <= orig.len(),
                    fleet_stepped(
                        orig.take(consumed),
                        scratch.ships@.take(si as int),
                        tdelta_ms as int,
                    ),
                    scratch.ships@.skip(si as int) == orig.skip(consumed),
                    self.fifos.queue_of(pid) == fleet_events(
                        qfm.queue_of(pid),
                        orig.take(consumed),
                        tdelta_ms as int,
                        now,
                    ),
                    forall|p: crate::player::PlayerId|
                        p != pid ==> self.fifos.queue_of(p) == qfm.queue_of(p),
                decreases scratch.ships@.len() - si,
            {
                proof {
                    assert(scratch.ships@.skip(si as int).len() == scratch.ships@.len()
                        - si);
                    assert(orig.skip(consumed).len() == orig.len() - consumed);
                    assert(consumed < orig.len());
                    assert(scratch.ships@.skip(si as int)[0] == scratch.ships@[si as int]);
                    assert(orig.skip(consumed)[0] == orig[consumed]);
                }
                let ghost x = orig[consumed];
                let ghost pre_fleet = scratch.ships@;
                proof {
                    assert(x == pre_fleet[si as int]);
                    assert(pre_fleet.skip(si as int) == orig.skip(consumed));
                    assert forall|k: int|
                        0 <= k < pre_fleet.len() - si implies #[trigger] pre_fleet[si + k]
                        == orig[consumed + k] by {
                        assert(pre_fleet.skip(si as int)[k] == orig.skip(consumed)[k]);
                    }
                }
                let sid = scratch.ships[si].id;
                let mut remove = false;
                let state_kind: u8 = match &scratch.ships[si].state {
                    ShipState::InFlight(_) => 1,
                    ShipState::Extracting(_) => 2,
                    ShipState::Idle => 0,
                };
                if state_kind == 1 {
                    let ship = &mut scratch.ships[si];
                    let finished = ship.update_flight(tdelta_ms);
                    if finished {
                        let dead = ship.fuel_tank == 0 || ship.hull_decay
                            >= ship.hull_decay_capacity;
                        ship.state = ShipState::Idle;
                        if dead {
                            remove = true;
                        } else {
                            self.fifos.add_to_fifo(
                                pid,
                                now,
                                SyslogEvent::ShipFlightFinished(sid),
                            );
                        }
                    }
                } else if state_kind == 2 {
                    let ship = &mut scratch.ships[si];
                    let full = ship.update_extract(tdelta_ms);
                    if full {
                        ship.state = ShipState::Idle;
                        self.fifos.add_to_fifo(pid, now, SyslogEvent::ExtractionStopped(sid));
                    }
                }
                if remove {
                    let ghost preships = scratch.ships@;
                    let _ = scratch.ships.remove(si);
                    self.fifos.add_to_fifo(pid, now, SyslogEvent::ShipDestroyed(sid));
                    proof {
                        assert forall|a: int, b: int|
                            0 <= a < b < scratch.ships@.len() implies scratch.ships@[a].id
                            != scratch.ships@[b].id by {
                            if a < si {
                                assert(scratch.ships@[a] == preships[a]);
                            } else {
                                assert(scratch.ships@[a] == preships[a + 1]);
                            }
                            if b < si {
                                assert(scratch.ships@[b] == preships[b]);
                            } else {
                                assert(scratch.ships@[b] == preships[b + 1]);
                            }
                        }
                        assert forall|a: int|
                            0 <= a < scratch.ships@.len() implies (#[trigger] scratch.ships@[
                        a]).wf() by {
                            if a < si {
                                assert(scratch.ships@[a] == preships[a]);
                            } else {
                                assert(scratch.ships@[a] == preships[a + 1]);
                            }
                        }
                        assert(ship_dies(x, tdelta_ms as int));
                        lemma_fleet_snoc_dead(
                            orig.take(consumed),
                            pre_fleet.take(si as int),
                            x,
                            tdelta_ms as int,
                        );
                        assert(orig.take(consumed + 1) =~= orig.take(consumed).push(x));
                        assert(scratch.ships@.take(si as int) =~= pre_fleet.take(si as int));
                        assert(scratch.ships@ == preships.subrange(0, si as int)
                            + preships.subrange(si as int + 1, preships.len() as int));
                        assert forall|j: int|
                            0 <= j < scratch.ships@.len() - si implies #[trigger] scratch.ships@.skip(
                            si as int)[j] == orig.skip(consumed + 1)[j] by {
                            assert(scratch.ships@.skip(si as int)[j] == scratch.ships@[si
                                + j]);
                            assert(scratch.ships@[si + j] == preships[si + 1 + j]);
                            assert(preships[si + 1 + j] == pre_fleet[si + 1 + j]);
                            assert(pre_fleet.skip(si as int)[j + 1] == orig.skip(consumed)[j
                                + 1]);
                            assert(pre_fleet.skip(si as int)[j + 1] == pre_fleet[si + j
                                + 1]);
                            assert(orig.skip(consumed)[j + 1] == orig[consumed + j + 1]);
                            assert(orig.skip(consumed + 1)[j] == orig[consumed + 1 + j]);
                        }
                        assert(scratch.ships@.skip(si as int) =~= orig.skip(consumed + 1));
                        lemma_fleet_events_snoc(
                            qfm.queue_of(pid),
                            orig.take(consumed),
                            x,
                            tdelta_ms as int,
                            now,
                        );
                        consumed = consumed + 1;
                    }
                } else {
                    proof {
                        if x.state is Idle {
                            assert(scratch.ships@[si as int] == x);
                        }
                        assert(ship_stepped(x, scratch.ships@[si as int], tdelta_ms as int));
                        assert(!ship_dies(x, tdelta_ms as int));
                        lemma_fleet_snoc_live(
                            orig.take(consumed),
                            pre_fleet.take(si as int),
                            x,
                            scratch.ships@[si as int],
                            tdelta_ms as int,
                        );
                        assert(orig.take(consumed + 1) =~= orig.take(consumed).push(x));
                        assert(scratch.ships@.take(si as int + 1) =~= pre_fleet.take(
                            si as int,
                        ).push(scratch.ships@[si as int]));
                        assert forall|j: int|
                            0 <= j < scratch.ships@.len() - si - 1 implies #[trigger] scratch.ships@.skip(
                            si as int + 1)[j] == orig.skip(consumed + 1)[j] by {
                            assert(scratch.ships@.skip(si as int + 1)[j] == scratch.ships@[
                            si + 1 + j]);
                            assert(scratch.ships@[si + 1 + j] == pre_fleet[si + 1 + j]);
                            assert(pre_fleet.skip(si as int)[j + 1] == orig.skip(consumed)[j
                                + 1]);
                            assert(pre_fleet.skip(si as int)[j + 1] == pre_fleet[si + j
                                + 1]);
                            assert(orig.skip(consumed)[j + 1] == orig[consumed + j + 1]);
                            assert(orig.skip(consumed + 1)[j] == orig[consumed + 1 + j]);
                        }
                        assert(scratch.ships@.skip(si as int + 1) =~= orig.skip(consumed + 1));
                        lemma_fleet_events_snoc(
                            qfm.queue_of(pid),
                            orig.take(consumed),
                            x,
                            tdelta_ms as int,
                            now,
                        );
                        consumed = consumed + 1;
                    }
                    si = si + 1;
                }
            }
            proof {
                assert(orig.take(consumed) =~= orig);
                assert(scratch.ships@.take(si as int) =~= scratch.ships@);
                assert(self.fifos.queue_of(pid) == fleet_events(
                    qfm.queue_of(pid),
                    orig,
                    tdelta_ms as int,
                    now,
                ));
                assert(qfm.queue_of(pid) == crate::player::money_events_spec(
                    ps0[pi as int],
                    qf0.queue_of(pid),
                    now,
                    tdelta_ms as int,
                ));
                assert(ps0[pi as int] == old(self).players@[pi as int]);
                assert(qf0.queue_of(pid) == old(self).fifos.queue_of(
                    old(self).players@[pi as int].id,
                ));
                assert(crate::player::money_events_spec(
                    ps0[pi as int],
                    qf0.queue_of(pid),
                    now,
                    tdelta_ms as int,
                ) == crate::player::money_events_spec(
                    old(self).players@[pi as int],
                    qf0.queue_of(pid),
                    now,
                    tdelta_ms as int,
                ));
            }
            let slot = &mut self.players[pi];
            core::mem::swap(slot, &mut scratch);
            proof {
                assert(self.players@.len() == ps0.len());
                assert(self.players@[pi as int].wf());
                assert forall|i: int|
                    0 <= i < self.players@.len() implies (#[trigger] self.players@[i]).wf()
                    by {
                    if i != pi {
                        assert(self.players@[i] == ps0[i]);
                    }
                }
                assert forall|a: int, b: int|
                    0 <= a < b < self.players@.len() implies self.players@[a].id
                    != self.players@[b].id by {
                    if a != pi {
                        assert(self.players@[a] == ps0[a]);
                    }
                    if b != pi {
                        assert(self.players@[b] == ps0[b]);
                    }
                    assert(self.players@[pi as int].id == ps0[pi as int].id);
                }
                assert forall|i: int|
                    0 <= i < old(self).players@.len() implies (#[trigger] self.players@[
                i]).id == old(self).players@[i].id && self.players@[i].key@ == old(self).players@[i].key@ && (old(self).players@[i].lost ==> self.players@[i].lost)
                    by {
                    if i != pi {
                        assert(self.players@[i] == ps0[i]);
                    }
                }
                assert forall|i: int|
                    0 <= i < pi + 1 && i < old(self).players@.len() implies fleet_stepped(
                        old(self).players@[i].ships@,
                        (#[trigger] self.players@[i]).ships@,
                        tdelta_ms as int,
                    ) by {
                    if i != pi {
                        assert(self.players@[i] == ps0[i]);
                    }
                }
                assert forall|i: int|
                    pi + 1 <= i < old(self).players@.len() implies (#[trigger] self.players@[
                i]).ships@ == old(self).players@[i].ships@ by {
                    assert(self.players@[i] == ps0[i]);
                }
                assert forall|i: int|
                    pi + 1 <= i < old(self).players@.len() implies #[trigger] self.players@[
                i] == old(self).players@[i] by {
                    assert(self.players@[i] == ps0[i]);
                }
                assert forall|i: int|
                    0 <= i < pi + 1 && i < old(self).players@.len() implies self.fifos.queue_of(
                        (#[trigger] old(self).players@[i]).id,
                    ) == fleet_events(
                        crate::player::money_events_spec(
                            old(self).players@[i],
                            old(self).fifos.queue_of(old(self).players@[i].id),
                            now,
                            tdelta_ms as int,
                        ),
                        old(self).players@[i].ships@,
                        tdelta_ms as int,
                        now,
                    ) by {
                    if i != pi {
                        assert(self.players@[i].id != self.players@[pi as int].id);
                        assert(self.players@[i].id == old(self).players@[i].id);
                        assert(self.players@[pi as int].id == old(self).players@[
                        pi as int].id);
                    }
                }
                assert forall|i: int|
                    pi + 1 <= i < old(self).players@.len() implies self.fifos.queue_of(
                        (#[trigger] old(self).players@[i]).id,
                    ) == old(self).fifos.queue_of(old(self).players@[i].id) by {
                    assert(self.players@[i].id != self.players@[pi as int].id);
                    assert(self.players@[i].id == old(self).players@[i].id);
                    assert(self.players@[pi as int].id == old(self).players@[pi as int].id);
                }
            }
            pi = pi + 1;
        }
    }

    /// Buy the hull with this id from a station's shipyard.
    pub fn buy_ship(&mut self, key: &Vec<u8>, station_id: crate::station::StationId,
        ship_id: crate::ship::ShipId) -> (r: Result<crate::ship::ShipId, Errcode>)
        requires
            old(self).wf(),
        ensures
            final(self).wf(),
            !old(self).has_key(key@) ==> *final(self) == *old(self) && r is Err
                && r->Err_0 is NoPlayerWithKey,
            old(self).has_key(key@) && old(self).first_key_lost(key@) ==> *final(self)
                == *old(self) && r is Err && r->Err_0 is PlayerLost,
            old(self).has_key(key@) && old(self).all_with_key_lost(key@) ==> *final(self)
                == *old(self) && r == Result::<crate::ship::ShipId, Errcode>::Err(
                Errcode::PlayerLost,
            ),
            r matches Ok(rid) ==> ({
                let i = old(self).first_key_idx(key@);
                &&& rid == ship_id
                &&& 0 <= i < old(self).players@.len()
                &&& final(self).players@.len() == old(self).players@.len()
                &&& final(self).galaxy.stations@.len() == old(self).galaxy.stations@.len()
                &&& (forall|j: int|
                    0 <= j < old(self).players@.len() && j != i ==> final(self).players@[j]
                        == old(self).players@[j])
                &&& final(self).players@[i].ships@.len() == old(self).players@[i].ships@.len()
                    + 1
                &&& final(self).players@[i].ships@.take(
                    old(self).players@[i].ships@.len() as int,
                ) == old(self).players@[i].ships@
                &&& final(self).players@[i].ships@.last().id == ship_id
                &&& exists|k: int, y: int|
                    #![trigger old(self).galaxy.stations@[k].shipyard@[y]]
                    {
                        &&& 0 <= k < old(self).galaxy.stations@.len()
                        &&& 0 <= y < old(self).galaxy.stations@[k].shipyard@.len()
                        &&& old(self).galaxy.stations@[k].shipyard@[y].id == ship_id
                        &&& old(self).galaxy.stations@[k].shipyard@[y].price_spec() <= old(self).players@[i].money
                        &&& final(self).players@[i].money == old(self).players@[i].money
                            - old(self).galaxy.stations@[k].shipyard@[y].price_spec()
                        &&& final(self).galaxy.stations@[k].shipyard@.len() == old(self).galaxy.stations@[k].shipyard@.len()
                        &&& (forall|j: int|
                            0 <= j < old(self).galaxy.stations@.len() && j != k
                                ==> final(self).galaxy.stations@[j] == old(self).galaxy.stations@[j])
                    }
            }),
    {
        let pi = match self.find_live_player(key) {
            Ok(i) => i,
            Err(e) => {
                return Err(e);
            },
        };
        let coord = match self.players[pi].find_station(station_id) {
            Some(c) => c,
            None => {
                return Err(Errcode::NoSuchStation(station_id));
            },
        };
        let k = match self.galaxy.get_station(&coord) {
            Some(k) => k,
            None => {
                return Err(Errcode::NoSuchStation(station_id));
            },
        };
        if self.players[pi].find_ship(ship_id).is_some() {
            return Err(Errcode::ShipNotFound(ship_id));
        }
        let ghost ps0 = self.players@;
        let ghost g0 = self.galaxy;
        let player = &mut self.players[pi];
        let station = &mut self.galaxy.stations[k];
        let res = player.buy_ship(station, ship_id);
        proof {
            lemma_players_preserved(ps0, self.players@, pi as int);
            lemma_stations_preserved(g0, self.galaxy, k as int);
            if res is Ok {
                let y = choose|y: int|
                    {
                        &&& 0 <= y < g0.stations@[k as int].shipyard@.len()
                        &&& (#[trigger] g0.stations@[k as int].shipyard@[y]).id == ship_id
                        &&& (forall|j: int|
                            y < j < g0.stations@[k as int].shipyard@.len() ==> (
                            #[trigger] g0.stations@[k as int].shipyard@[j]).id != ship_id)
                        &&& ps0[pi as int].money >= 0
                        &&& g0.stations@[k as int].shipyard@[y].price_spec() <= ps0[
                            pi as int
                        ].money
                        &&& self.players@[pi as int].money == ps0[pi as int].money
                            - g0.stations@[k as int].shipyard@[y].price_spec()
                    };
                assert(old(self).galaxy.stations@[k as int].shipyard@[y] == g0.stations@[
                k as int].shipyard@[y]);
            }
        }
        res
    }

    /// Buy and install a fixed upgrade for an owned ship.
    pub fn buy_ship_upgrade(&mut self, key: &Vec<u8>, station_id: crate::station::StationId,
        ship_id: crate::ship::ShipId, upgrade: &crate::upgrade::ShipUpgrade) -> (r: Result<
        u64,
        Errcode,
    >)
        requires
            old(self).wf(),
        ensures
            final(self).wf(),
            !old(self).has_key(key@) ==> *final(self) == *old(self) && r is Err
                && r->Err_0 is NoPlayerWithKey,
            old(self).has_key(key@) && old(self).first_key_lost(key@) ==> *final(self)
                == *old(self) && r is Err && r->Err_0 is PlayerLost,
            old(self).has_key(key@) && old(self).all_with_key_lost(key@) ==> *final(self)
                == *old(self) && r == Result::<u64, Errcode>::Err(Errcode::PlayerLost),
    {
        let pi = match self.find_live_player(key) {
            Ok(i) => i,
            Err(e) => {
                return Err(e);
            },
        };
        let coord = match self.players[pi].find_station(station_id) {
            Some(c) => c,
            None => {
                return Err(Errcode::NoSuchStation(station_id));
            },
        };
        let k = match self.galaxy.get_station(&coord) {
            Some(k) => k,
            None => {
                return Err(Errcode::NoSuchStation(station_id));
            },
        };
        let ghost ps0 = self.players@;
        let ghost g0 = self.galaxy;
        let player = &mut self.players[pi];
        let station = &mut self.galaxy.stations[k];
        let res = player.buy_ship_upgrade(station, ship_id, upgrade);
        proof {
            lemma_players_preserved(ps0, self.players@, pi as int);
            lemma_stations_preserved(g0, self.galaxy, k as int);
        }
        res
    }

    /// Buy a fresh module for a docked ship.
    pub fn buy_module(&mut self, key: &Vec<u8>, station_id: crate::station::StationId,
        ship_id: crate::ship::ShipId, modtype: crate::module::ShipModuleType) -> (r: Result<
        crate::module::ShipModuleId,
        Errcode,
    >)
        requires
            old(self).wf(),
        ensures
            final(self).wf(),
            !old(self).has_key(key@) ==> *final(self) == *old(self) && r is Err
                && r->Err_0 is NoPlayerWithKey,
            old(self).has_key(key@) && old(self).first_key_lost(key@) ==> *final(self)
                == *old(self) && r is Err && r->Err_0 is PlayerLost,
            old(self).has_key(key@) && old(self).all_with_key_lost(key@) ==> *final(self)
                == *old(self) && r == Result::<crate::module::ShipModuleId, Errcode>::Err(
                Errcode::PlayerLost,
            ),
    {
        let pi = match self.find_live_player(key) {
            Ok(i) => i,
            Err(e) => {
                return Err(e);
            },
        };
        let ghost ps0 = self.players@;
        let player = &mut self.players[pi];
        let res = player.buy_ship_module(station_id, ship_id, modtype);
        proof {
            lemma_players_preserved(ps0, self.players@, pi as int);
        }
        res
    }

    /// Raise the rank of a module of a docked ship.
    pub fn buy_module_upgrade(&mut self, key: &Vec<u8>, station_id: crate::station::StationId,
        ship_id: crate::ship::ShipId, mod_id: crate::module::ShipModuleId) -> (r: Result<
        (u64, u8),
        Errcode,
    >)
        requires
            old(self).wf(),
        ensures
            final(self).wf(),
            !old(self).has_key(key@) ==> *final(self) == *old(self) && r is Err
                && r->Err_0 is NoPlayerWithKey,
            old(self).has_key(key@) && old(self).first_key_lost(key@) ==> *final(self)
                == *old(self) && r is Err && r->Err_0 is PlayerLost,
            old(self).has_key(key@) && old(self).all_with_key_lost(key@) ==> *final(self)
                == *old(self) && r == Result::<(u64, u8), Errcode>::Err(Errcode::PlayerLost),
    {
        let pi = match self.find_live_player(key) {
            Ok(i) => i,
            Err(e) => {
                return Err(e);
            },
        };
        let coord = match self.players[pi].find_station(station_id) {
            Some(c) => c,
            None => {
                return Err(Errcode::NoSuchStation(station_id));
            },
        };
        let k = match self.galaxy.get_station(&coord) {
            Some(k) => k,
            None => {
                return Err(Errcode::NoSuchStation(station_id));
            },
        };
        let ghost ps0 = self.players@;
        let player = &mut self.players[pi];
        let station = &self.galaxy.stations[k];
        let res = player.buy_ship_module_upgrade(station, ship_id, mod_id);
        proof {
            lemma_players_preserved(ps0, self.players@, pi as int);
        }
        res
    }

    /// Buy cargo expansion for a station.
    pub fn buy_cargo(&mut self, key: &Vec<u8>, station_id: crate::station::StationId,
        amount: u64) -> (r: Result<u64, Errcode>)
        requires
            old(self).wf(),
        ensures
            final(self).wf(),
            !old(self).has_key(key@) ==> *final(self) == *old(self) && r is Err
                && r->Err_0 is NoPlayerWithKey,
            old(self).has_key(key@) && old(self).first_key_lost(key@) ==> *final(self)
                == *old(self) && r is Err && r->Err_0 is PlayerLost,
            old(self).has_key(key@) && old(self).all_with_key_lost(key@) ==> *final(self)
                == *old(self) && r == Result::<u64, Errcode>::Err(Errcode::PlayerLost),
            r matches Ok(cost) ==> ({
                let i = old(self).first_key_idx(key@);
                &&& 0 <= i < old(self).players@.len()
                &&& final(self).players@.len() == old(self).players@.len()
                &&& final(self).galaxy.stations@.len() == old(self).galaxy.stations@.len()
                &&& (forall|j: int|
                    0 <= j < old(self).players@.len() && j != i ==> final(self).players@[j]
                        == old(self).players@[j])
                &&& final(self).players@[i].money == old(self).players@[i].money - cost
                &&& cost <= old(self).players@[i].money
                &&& exists|k: int|
                    #![trigger old(self).galaxy.stations@[k]]
                    {
                        &&& 0 <= k < old(self).galaxy.stations@.len()
                        &&& cost == crate::fixed::cap64(
                            amount * crate::station::cargo_price_spec(
                                old(self).galaxy.stations@[k].cargo.capacity as int,
                            ),
                        )
                        &&& final(self).galaxy.stations@[k].cargo.capacity
                            == crate::fixed::cap64(
                            old(self).galaxy.stations@[k].cargo.capacity + crate::fixed::cap64(
                                amount * 1000000000,
                            ),
                        )
                        &&& (forall|j: int|
                            0 <= j < old(self).galaxy.stations@.len() && j != k
                                ==> final(self).galaxy.stations@[j] == old(self).galaxy.stations@[j])
                    }
            }),
    {
        let pi = match self.find_live_player(key) {
            Ok(i) => i,
            Err(e) => {
                return Err(e);
            },
        };
        let coord = match self.players[pi].find_station(station_id) {
            Some(c) => c,
            None => {
                return Err(Errcode::NoSuchStation(station_id));
            },
        };
        let k = match self.galaxy.get_station(&coord) {
            Some(k) => k,
            None => {
                return Err(Errcode::NoSuchStation(station_id));
            },
        };
        let ghost ps0 = self.players@;
        let ghost g0 = self.galaxy;
        let player = &mut self.players[pi];
        let station = &mut self.galaxy.stations[k];
        let res = station.buy_cargo(player, amount);
        proof {
            lemma_players_preserved(ps0, self.players@, pi as int);
            lemma_stations_preserved(g0, self.galaxy, k as int);
            if res is Ok {
                assert(old(self).galaxy.stations@[k as int] == g0.stations@[k as int]);
            }
        }
        res
    }

    /// Hire a rank-1 crew member into a station's idle pool.
    pub fn hire(&mut self, key: &Vec<u8>, station_id: crate::station::StationId,
        crewtype: crate::crew::CrewMemberType) -> (r: Result<crate::crew::CrewId, Errcode>)
        requires
            old(self).wf(),
        ensures
            final(self).wf(),
            !old(self).has_key(key@) ==> *final(self) == *old(self) && r is Err
                && r->Err_0 is NoPlayerWithKey,
            old(self).has_key(key@) && old(self).first_key_lost(key@) ==> *final(self)
                == *old(self) && r is Err && r->Err_0 is PlayerLost,
            old(self).has_key(key@) && old(self).all_with_key_lost(key@) ==> *final(self)
                == *old(self) && r == Result::<crate::crew::CrewId, Errcode>::Err(
                Errcode::PlayerLost,
            ),
            match r {
                Ok(cid) => exists|i: int|
                    {
                        &&& 0 <= i < old(self).players@.len()
                        &&& (#[trigger] old(self).players@[i]).key@ == key@
                        &&& !old(self).players@[i].lost
                        &&& old(self).players@[i].owns_station(station_id)
                        &&& {
                            let coord = old(self).players@[i].station_coord_spec(station_id);
                            let k = old(self).galaxy.station_idx_at(coord)->Some_0;
                            &&& old(self).galaxy.station_idx_at(coord) is Some
                            &&& final(self).galaxy.stations@[k].idle_crew.0@ == old(self).galaxy.stations@[k].idle_crew.0@.push(
                                (
                                    cid,
                                    crate::crew::CrewMember {
                                        member_type: crewtype,
                                        rank: 1,
                                    },
                                ),
                            )
                            &&& final(self).players@[i].costs == final(self).players@[
                                i].costs_spec(final(self).galaxy)
                        }
                    },
                Err(_) => true,
            },
    {
        let pi = match self.find_live_player(key) {
            Ok(i) => i,
            Err(e) => {
                return Err(e);
            },
        };
        let coord = match self.players[pi].find_station(station_id) {
            Some(c) => c,
            None => {
                return Err(Errcode::NoSuchStation(station_id));
            },
        };
        let k = match self.galaxy.get_station(&coord) {
            Some(k) => k,
            None => {
                return Err(Errcode::NoSuchStation(station_id));
            },
        };
        let mut newid: crate::crew::CrewId = 0;
        let mut got_id = false;
        let mut t: usize = 0;
        while t < 16 && !got_id
            invariant
                self.wf(),
                k < self.galaxy.stations@.len(),
                got_id ==> !self.galaxy.stations@[k as int].idle_crew.contains_id(newid)
                    && !self.galaxy.stations@[k as int].crew.contains_id(newid),
            decreases 16 - t,
        {
            let cand = rand_below(4294967296) as crate::crew::CrewId;
            let fresh1 = self.galaxy.stations[k].idle_crew.get(cand).is_none();
            let fresh2 = self.galaxy.stations[k].crew.get(cand).is_none();
            if fresh1 && fresh2 {
                newid = cand;
                got_id = true;
            }
            t = t + 1;
        }
        if !got_id {
            return Err(Errcode::InvalidArgument("crew id"));
        }
        let ghost ps0 = self.players@;
        let ghost g0 = self.galaxy;
        let station = &mut self.galaxy.stations[k];
        station.idle_crew.insert(newid, crate::crew::CrewMember::recruit(crewtype));
        proof {
            assert(station.wf());
            lemma_stations_preserved(g0, self.galaxy, k as int);
        }
        let player = &mut self.players[pi];
        player.update_wages(&self.galaxy);
        proof {
            lemma_players_preserved(ps0, self.players@, pi as int);
        }
        Ok(newid)
    }

    /// Make an idle crew member the station's trader.
    pub fn assign_trader(&mut self, key: &Vec<u8>, station_id: crate::station::StationId,
        crew_id: crate::crew::CrewId) -> (r: Result<(), Errcode>)
        requires
            old(self).wf(),
        ensures
            final(self).wf(),
            !old(self).has_key(key@) ==> *final(self) == *old(self) && r is Err
                && r->Err_0 is NoPlayerWithKey,
            old(self).has_key(key@) && old(self).first_key_lost(key@) ==> *final(self)
                == *old(self) && r is Err && r->Err_0 is PlayerLost,
            old(self).has_key(key@) && old(self).all_with_key_lost(key@) ==> *final(self)
                == *old(self) && r == Result::<(), Errcode>::Err(Errcode::PlayerLost),
    {
        let pi = match self.find_live_player(key) {
            Ok(i) => i,
            Err(e) => {
                return Err(e);
            },
        };
        let coord = match self.players[pi].find_station(station_id) {
            Some(c) => c,
            None => {
                return Err(Errcode::NoSuchStation(station_id));
            },
        };
        let k = match self.galaxy.get_station(&coord) {
            Some(k) => k,
            None => {
                return Err(Errcode::NoSuchStation(station_id));
            },
        };
        let ghost g0 = self.galaxy;
        let station = &mut self.galaxy.stations[k];
        let res = station.assign_trader(crew_id);
        proof {
            lemma_stations_preserved(g0, self.galaxy, k as int);
        }
        res
    }

    /// Put an idle pilot at the helm of an owned, docked ship.
    pub fn assign_pilot(&mut self, key: &Vec<u8>, station_id: crate::station::StationId,
        crew_id: crate::crew::CrewId, ship_id: crate::ship::ShipId) -> (r: Result<(), Errcode>)
        requires
            old(self).wf(),
        ensures
            final(self).wf(),
            !old(self).has_key(key@) ==> *final(self) == *old(self) && r is Err
                && r->Err_0 is NoPlayerWithKey,
            old(self).has_key(key@) && old(self).first_key_lost(key@) ==> *final(self)
                == *old(self) && r is Err && r->Err_0 is PlayerLost,
            old(self).has_key(key@) && old(self).all_with_key_lost(key@) ==> *final(self)
                == *old(self) && r == Result::<(), Errcode>::Err(Errcode::PlayerLost),
    {
        let pi = match self.find_live_player(key) {
            Ok(i) => i,
            Err(e) => {
                return Err(e);
            },
        };
        let coord = match self.players[pi].find_station(station_id) {
            Some(c) => c,
            None => {
                return Err(Errcode::NoSuchStation(station_id));
            },
        };
        let k = match self.galaxy.get_station(&coord) {
            Some(k) => k,
            None => {
                return Err(Errcode::NoSuchStation(station_id));
            },
        };
        let si = match self.players[pi].find_ship(ship_id) {
            Some(i) => i,
            None => {
                return Err(Errcode::ShipNotFound(ship_id));
            },
        };
        let ghost ps0 = self.players@;
        let ghost g0 = self.galaxy;
        let ghost ss0 = self.players@[pi as int].ships@;
        let station = &mut self.galaxy.stations[k];
        let player = &mut self.players[pi];
        let ship = &mut player.ships[si];
        let res = station.onboard_pilot(crew_id, ship);
        proof {
            lemma_ships_preserved(ss0, self.players@[pi as int].ships@, si as int);
            assert(self.players@[pi as int].wf());
            lemma_players_preserved(ps0, self.players@, pi as int);
            lemma_stations_preserved(g0, self.galaxy, k as int);
        }
        res
    }

    /// Put an idle operator in charge of a module of an owned ship.
    pub fn assign_operator(&mut self, key: &Vec<u8>, station_id: crate::station::StationId,
        crew_id: crate::crew::CrewId, ship_id: crate::ship::ShipId,
        mod_id: crate::module::ShipModuleId) -> (r: Result<(), Errcode>)
        requires
            old(self).wf(),
        ensures
            final(self).wf(),
            !old(self).has_key(key@) ==> *final(self) == *old(self) && r is Err
                && r->Err_0 is NoPlayerWithKey,
            old(self).has_key(key@) && old(self).first_key_lost(key@) ==> *final(self)
                == *old(self) && r is Err && r->Err_0 is PlayerLost,
            old(self).has_key(key@) && old(self).all_with_key_lost(key@) ==> *final(self)
                == *old(self) && r == Result::<(), Errcode>::Err(Errcode::PlayerLost),
    {
        let pi = match self.find_live_player(key) {
            Ok(i) => i,
            Err(e) => {
                return Err(e);
            },
        };
        let coord = match self.players[pi].find_station(station_id) {
            Some(c) => c,
            None => {
                return Err(Errcode::NoSuchStation(station_id));
            },
        };
        let k = match self.galaxy.get_station(&coord) {
            Some(k) => k,
            None => {
                return Err(Errcode::NoSuchStation(station_id));
            },
        };
        let si = match self.players[pi].find_ship(ship_id) {
            Some(i) => i,
            None => {
                return Err(Errcode::ShipNotFound(ship_id));
            },
        };
        let ghost ps0 = self.players@;
        let ghost g0 = self.galaxy;
        let ghost ss0 = self.players@[pi as int].ships@;
        let station = &mut self.galaxy.stations[k];
        let player = &mut self.players[pi];
        let ship = &mut player.ships[si];
        let res = station.onboard_operator(crew_id, ship, mod_id);
        proof {
            lemma_ships_preserved(ss0, self.players@[pi as int].ships@, si as int);
            assert(self.players@[pi as int].wf());
            lemma_players_preserved(ps0, self.players@, pi as int);
            lemma_stations_preserved(g0, self.galaxy, k as int);
        }
        res
    }

    /// Raise the rank of a crew member of an owned, docked ship, and
    /// refresh the wage bill.
    pub fn upgrade_crew(&mut self, key: &Vec<u8>, station_id: crate::station::StationId,
        ship_id: crate::ship::ShipId, crew_id: crate::crew::CrewId) -> (r: Result<
        (u64, u8),
        Errcode,
    >)
        requires
            old(self).wf(),
        ensures
            final(self).wf(),
            !old(self).has_key(key@) ==> *final(self) == *old(self) && r is Err
                && r->Err_0 is NoPlayerWithKey,
            old(self).has_key(key@) && old(self).first_key_lost(key@) ==> *final(self)
                == *old(self) && r is Err && r->Err_0 is PlayerLost,
            old(self).has_key(key@) && old(self).all_with_key_lost(key@) ==> *final(self)
                == *old(self) && r == Result::<(u64, u8), Errcode>::Err(Errcode::PlayerLost),
            r matches Ok(pr) ==> ({
                let i = old(self).first_key_idx(key@);
                &&& 0 <= i < old(self).players@.len()
                &&& final(self).players@.len() == old(self).players@.len()
                &&& (forall|j: int|
                    0 <= j < old(self).players@.len() && j != i ==> final(self).players@[j]
                        == old(self).players@[j])
                &&& final(self).galaxy == old(self).galaxy
                &&& ({
                    let si = old(self).players@[i].ship_idx(ship_id);
                    let member = old(self).players@[i].ships@[si].crew.member_spec(crew_id);
                    &&& old(self).players@[i].has_ship(ship_id)
                    &&& old(self).players@[i].ships@[si].crew.contains_id(crew_id)
                    &&& member.rank < 255
                    &&& pr.0 == crate::crew::RANK_PRICE_WAGE_MULT * member.wage_spec()
                    &&& pr.1 == member.rank + 1
                    &&& final(self).players@[i].money == old(self).players@[i].money - pr.0
                    &&& 0 <= si < final(self).players@[i].ships@.len()
                    &&& final(self).players@[i].ships@[si].crew.member_spec(crew_id)
                        == (crate::crew::CrewMember {
                        member_type: member.member_type,
                        rank: pr.1,
                    })
                    &&& final(self).players@[i].costs == final(self).players@[i].costs_spec(
                        final(self).galaxy,
                    )
                })
            }),
    {
        let pi = match self.find_live_player(key) {
            Ok(i) => i,
            Err(e) => {
                return Err(e);
            },
        };
        let coord = match self.players[pi].find_station(station_id) {
            Some(c) => c,
            None => {
                return Err(Errcode::NoSuchStation(station_id));
            },
        };
        let k = match self.galaxy.get_station(&coord) {
            Some(k) => k,
            None => {
                return Err(Errcode::NoSuchStation(station_id));
            },
        };
        let ghost ps0 = self.players@;
        let station = &self.galaxy.stations[k];
        let player = &mut self.players[pi];
        let res = player.upgrade_crew_rank(station, ship_id, crew_id);
        if res.is_ok() {
            player.update_wages(&self.galaxy);
        }
        proof {
            lemma_players_preserved(ps0, self.players@, pi as int);
        }
        res
    }

    /// Raise the rank of a station's trader and refresh the wage bill.
    pub fn upgrade_trader(&mut self, key: &Vec<u8>, station_id: crate::station::StationId) -> (
        r: Result<(u64, u8), Errcode>)
        requires
            old(self).wf(),
        ensures
            final(self).wf(),
            !old(self).has_key(key@) ==> *final(self) == *old(self) && r is Err
                && r->Err_0 is NoPlayerWithKey,
            old(self).has_key(key@) && old(self).first_key_lost(key@) ==> *final(self)
                == *old(self) && r is Err && r->Err_0 is PlayerLost,
            old(self).has_key(key@) && old(self).all_with_key_lost(key@) ==> *final(self)
                == *old(self) && r == Result::<(u64, u8), Errcode>::Err(Errcode::PlayerLost),
            r matches Ok(pr) ==> ({
                let i = old(self).first_key_idx(key@);
                &&& 0 <= i < old(self).players@.len()
                &&& final(self).players@.len() == old(self).players@.len()
                &&& final(self).galaxy.stations@.len() == old(self).galaxy.stations@.len()
                &&& (forall|j: int|
                    0 <= j < old(self).players@.len() && j != i ==> final(self).players@[j]
                        == old(self).players@[j])
                &&& final(self).players@[i].money == old(self).players@[i].money - pr.0
                &&& final(self).players@[i].costs == final(self).players@[i].costs_spec(
                    final(self).galaxy,
                )
                &&& exists|k: int|
                    #![trigger old(self).galaxy.stations@[k]]
                    {
                        &&& 0 <= k < old(self).galaxy.stations@.len()
                        &&& old(self).galaxy.stations@[k].trader is Some
                        &&& ({
                            let member = old(self).galaxy.stations@[k].crew.member_spec(
                                old(self).galaxy.stations@[k].trader->Some_0,
                            );
                            &&& member.rank < 255
                            &&& pr.0 == crate::crew::RANK_PRICE_WAGE_MULT
                                * member.wage_spec()
                            &&& pr.1 == member.rank + 1
                            &&& final(self).galaxy.stations@[k].crew.member_spec(
                                old(self).galaxy.stations@[k].trader->Some_0,
                            ) == (crate::crew::CrewMember {
                                member_type: member.member_type,
                                rank: pr.1,
                            })
                        })
                        &&& (forall|j: int|
                            0 <= j < old(self).galaxy.stations@.len() && j != k
                                ==> final(self).galaxy.stations@[j] == old(self).galaxy.stations@[j])
                    }
            }),
    {
        let pi = match self.find_live_player(key) {
            Ok(i) => i,
            Err(e) => {
                return Err(e);
            },
        };
        let coord = match self.players[pi].find_station(station_id) {
            Some(c) => c,
            None => {
                return Err(Errcode::NoSuchStation(station_id));
            },
        };
        let k = match self.galaxy.get_station(&coord) {
            Some(k) => k,
            None => {
                return Err(Errcode::NoSuchStation(station_id));
            },
        };
        let ghost ps0 = self.players@;
        let ghost g0 = self.galaxy;
        let station = &mut self.galaxy.stations[k];
        let player = &mut self.players[pi];
        let res = player.upgrade_station_trader(station);
        proof {
            lemma_players_preserved(ps0, self.players@, pi as int);
            lemma_stations_preserved(g0, self.galaxy, k as int);
        }
        if res.is_ok() {
            let ghost ps1 = self.players@;
            let player2 = &mut self.players[pi];
            player2.update_wages(&self.galaxy);
            proof {
                lemma_players_preserved(ps1, self.players@, pi as int);
                assert(old(self).galaxy.stations@[k as int] == g0.stations@[k as int]);
            }
        }
        res
    }

    /// Send an owned ship toward a destination.
    pub fn navigate(&mut self, key: &Vec<u8>, ship_id: crate::ship::ShipId,
        dest: crate::galaxy::SpaceCoord) -> (r: Result<crate::navigation::TravelCost, Errcode>)
        requires
            old(self).wf(),
        ensures
            final(self).wf(),
            !old(self).has_key(key@) ==> *final(self) == *old(self) && r is Err
                && r->Err_0 is NoPlayerWithKey,
            old(self).has_key(key@) && old(self).first_key_lost(key@) ==> *final(self)
                == *old(self) && r is Err && r->Err_0 is PlayerLost,
            old(self).has_key(key@) && old(self).all_with_key_lost(key@) ==> *final(self)
                == *old(self) && r == Result::<crate::navigation::TravelCost, Errcode>::Err(
                Errcode::PlayerLost,
            ),
            r matches Ok(cost) ==> ({
                let i = old(self).first_key_idx(key@);
                &&& 0 <= i < old(self).players@.len()
                &&& final(self).players@.len() == old(self).players@.len()
                &&& (forall|j: int|
                    0 <= j < old(self).players@.len() && j != i ==> final(self).players@[j]
                        == old(self).players@[j])
                &&& exists|si: int|
                    #![trigger old(self).players@[i].ships@[si]]
                    {
                        &&& 0 <= si < old(self).players@[i].ships@.len()
                        &&& old(self).players@[i].ships@[si].id == ship_id
                        &&& old(self).players@[i].ships@[si].state is Idle
                        &&& old(self).players@[i].ships@[si].pilot is Some
                        &&& old(self).players@[i].ships@[si].position != dest
                        &&& cost.distance == crate::galaxy::distance_milli_spec(
                            old(self).players@[i].ships@[si].position,
                            dest,
                        )
                        &&& cost.duration_ms == cost.distance as int * 1000 / old(self).players@[i].ships@[si].stats.speed as int
                        &&& cost.fuel_consumption == crate::fixed::cap64(
                            old(self).players@[i].ships@[si].stats.fuel_consumption
                                * cost.duration_ms,
                        )
                        &&& cost.hull_usage == crate::fixed::cap64(
                            old(self).players@[i].ships@[si].stats.hull_usage_rate
                                * cost.distance,
                        )
                        &&& (final(self).players@[i].ships@[si].state matches ShipState::InFlight(
                            fd,
                        ) && fd.start == old(self).players@[i].ships@[si].position
                            && fd.destination == dest && fd.dist_done == 0 && fd.dist_tot
                            == cost.distance)
                        &&& final(self).players@[i].ships@[si] == (crate::ship::Ship {
                            state: final(self).players@[i].ships@[si].state,
                            ..old(self).players@[i].ships@[si]
                        })
                        &&& (forall|j: int|
                            0 <= j < old(self).players@[i].ships@.len() && j != si
                                ==> final(self).players@[i].ships@[j] == old(self).players@[
                            i].ships@[j])
                    }
            }),
    {
        let pi = match self.find_live_player(key) {
            Ok(i) => i,
            Err(e) => {
                return Err(e);
            },
        };
        let si = match self.players[pi].find_ship(ship_id) {
            Some(i) => i,
            None => {
                return Err(Errcode::ShipNotFound(ship_id));
            },
        };
        let ghost ps0 = self.players@;
        let ghost ss0 = self.players@[pi as int].ships@;
        let player = &mut self.players[pi];
        let ship = &mut player.ships[si];
        let res = ship.set_travel(dest);
        proof {
            lemma_ships_preserved(ss0, self.players@[pi as int].ships@, si as int);
            assert(self.players@[pi as int].wf());
            lemma_players_preserved(ps0, self.players@, pi as int);
            if res is Ok {
                assert(old(self).players@[pi as int].ships@[si as int] == ss0[si as int]);
            }
        }
        res
    }

    /// Begin extracting with an owned ship parked on a planet.
    pub fn start_extraction(&mut self, key: &Vec<u8>, ship_id: crate::ship::ShipId) -> (r:
        Result<crate::resources::ExtractionInfo, Errcode>)
        requires
            old(self).wf(),
        ensures
            final(self).wf(),
            !old(self).has_key(key@) ==> *final(self) == *old(self) && r is Err
                && r->Err_0 is NoPlayerWithKey,
            old(self).has_key(key@) && old(self).first_key_lost(key@) ==> *final(self)
                == *old(self) && r is Err && r->Err_0 is PlayerLost,
            old(self).has_key(key@) && old(self).all_with_key_lost(key@) ==> *final(self)
                == *old(self) && r == Result::<crate::resources::ExtractionInfo, Errcode>::Err(
                Errcode::PlayerLost,
            ),
    {
        let pi = match self.find_live_player(key) {
            Ok(i) => i,
            Err(e) => {
                return Err(e);
            },
        };
        let si = match self.players[pi].find_ship(ship_id) {
            Some(i) => i,
            None => {
                return Err(Errcode::ShipNotFound(ship_id));
            },
        };
        let ghost ps0 = self.players@;
        let ghost ss0 = self.players@[pi as int].ships@;
        let player = &mut self.players[pi];
        let ship = &mut player.ships[si];
        let res = ship.start_extraction(&self.galaxy);
        proof {
            lemma_ships_preserved(ss0, self.players@[pi as int].ships@, si as int);
            assert(self.players@[pi as int].wf());
            lemma_players_preserved(ps0, self.players@, pi as int);
        }
        res
    }

    /// Stop an owned ship's extraction.
    pub fn stop_extraction(&mut self, key: &Vec<u8>, ship_id: crate::ship::ShipId) -> (r:
        Result<(), Errcode>)
        requires
            old(self).wf(),
        ensures
            final(self).wf(),
            !old(self).has_key(key@) ==> *final(self) == *old(self) && r is Err
                && r->Err_0 is NoPlayerWithKey,
            old(self).has_key(key@) && old(self).first_key_lost(key@) ==> *final(self)
                == *old(self) && r is Err && r->Err_0 is PlayerLost,
            old(self).has_key(key@) && old(self).all_with_key_lost(key@) ==> *final(self)
                == *old(self) && r == Result::<(), Errcode>::Err(Errcode::PlayerLost),
            r is Ok ==> ({
                let i = old(self).first_key_idx(key@);
                &&& 0 <= i < old(self).players@.len()
                &&& final(self).players@.len() == old(self).players@.len()
                &&& final(self).galaxy == old(self).galaxy
                &&& (forall|j: int|
                    0 <= j < old(self).players@.len() && j != i ==> final(self).players@[j]
                        == old(self).players@[j])
                &&& exists|si: int|
                    #![trigger old(self).players@[i].ships@[si]]
                    {
                        &&& 0 <= si < old(self).players@[i].ships@.len()
                        &&& old(self).players@[i].ships@[si].id == ship_id
                        &&& old(self).players@[i].ships@[si].state is Extracting
                        &&& final(self).players@[i].ships@[si] == (crate::ship::Ship {
                            state: ShipState::Idle,
                            ..old(self).players@[i].ships@[si]
                        })
                        &&& (forall|j: int|
                            0 <= j < old(self).players@[i].ships@.len() && j != si
                                ==> final(self).players@[i].ships@[j] == old(self).players@[
                            i].ships@[j])
                    }
            }),
    {
        let pi = match self.find_live_player(key) {
            Ok(i) => i,
            Err(e) => {
                return Err(e);
            },
        };
        let si = match self.players[pi].find_ship(ship_id) {
            Some(i) => i,
            None => {
                return Err(Errcode::ShipNotFound(ship_id));
            },
        };
        let ghost ps0 = self.players@;
        let ghost ss0 = self.players@[pi as int].ships@;
        let player = &mut self.players[pi];
        let ship = &mut player.ships[si];
        let res = ship.stop_extraction();
        proof {
            lemma_ships_preserved(ss0, self.players@[pi as int].ships@, si as int);
            assert(self.players@[pi as int].wf());
            lemma_players_preserved(ps0, self.players@, pi as int);
            if res is Ok {
                assert(old(self).players@[pi as int].ships@[si as int] == ss0[si as int]);
            }
        }
        res
    }

    /// Move cargo from an owned, docked ship into its station; moving
    /// nothing files a warning event.
    pub fn unload(&mut self, key: &Vec<u8>, ship_id: crate::ship::ShipId,
        resource: crate::resources::Resource, amount: u64) -> (r: Result<u64, Errcode>)
        requires
            old(self).wf(),
        ensures
            final(self).wf(),
            !old(self).has_key(key@) ==> *final(self) == *old(self) && r is Err
                && r->Err_0 is NoPlayerWithKey,
            old(self).has_key(key@) && old(self).first_key_lost(key@) ==> *final(self)
                == *old(self) && r is Err && r->Err_0 is PlayerLost,
            old(self).has_key(key@) && old(self).all_with_key_lost(key@) ==> *final(self)
                == *old(self) && r == Result::<u64, Errcode>::Err(Errcode::PlayerLost),
    {
        let pi = match self.find_live_player(key) {
            Ok(i) => i,
            Err(e) => {
                return Err(e);
            },
        };
        let si = match self.players[pi].find_ship(ship_id) {
            Some(i) => i,
            None => {
                return Err(Errcode::ShipNotFound(ship_id));
            },
        };
        let pid = self.players[pi].id;
        let shippos = self.players[pi].ships[si].position;
        let k = match self.galaxy.get_station(&shippos) {
            Some(k) => k,
            None => {
                return Err(Errcode::ShipNotInStation);
            },
        };
        let ghost ps0 = self.players@;
        let ghost g0 = self.galaxy;
        let ghost ss0 = self.players@[pi as int].ships@;
        let station = &mut self.galaxy.stations[k];
        let player = &mut self.players[pi];
        let ship = &mut player.ships[si];
        let res = ship.unload_cargo(&resource, amount, station);
        let moved = match res {
            Ok(m) => m,
            Err(e) => {
                proof {
                    assert(false);
                }
                return Err(e);
            },
        };
        if moved == 0 {
            let station_cargo = station.cargo.duplicate();
            let ship_cargo = ship.cargo.duplicate();
            self.fifos.add_to_fifo(
                pid,
                self.now_ms,
                SyslogEvent::UnloadedNothing { station_cargo, ship_cargo },
            );
        }
        proof {
            lemma_ships_preserved(ss0, self.players@[pi as int].ships@, si as int);
            assert(self.players@[pi as int].wf());
            lemma_players_preserved(ps0, self.players@, pi as int);
            lemma_stations_preserved(g0, self.galaxy, k as int);
        }
        Ok(moved)
    }

    /// Top an owned ship up with the station's fuel.
    pub fn refuel(&mut self, key: &Vec<u8>, station_id: crate::station::StationId,
        ship_id: crate::ship::ShipId) -> (r: Result<u64, Errcode>)
        requires
            old(self).wf(),
        ensures
            final(self).wf(),
            !old(self).has_key(key@) ==> *final(self) == *old(self) && r is Err
                && r->Err_0 is NoPlayerWithKey,
            old(self).has_key(key@) && old(self).first_key_lost(key@) ==> *final(self)
                == *old(self) && r is Err && r->Err_0 is PlayerLost,
            old(self).has_key(key@) && old(self).all_with_key_lost(key@) ==> *final(self)
                == *old(self) && r == Result::<u64, Errcode>::Err(Errcode::PlayerLost),
            r matches Ok(moved) ==> ({
                let i = old(self).first_key_idx(key@);
                &&& 0 <= i < old(self).players@.len()
                &&& final(self).players@.len() == old(self).players@.len()
                &&& final(self).galaxy.stations@.len() == old(self).galaxy.stations@.len()
                &&& (forall|j: int|
                    0 <= j < old(self).players@.len() && j != i ==> final(self).players@[j]
                        == old(self).players@[j])
                &&& exists|k: int, si: int|
                    #![trigger old(self).galaxy.stations@[k], old(self).players@[i].ships@[si]]
                    {
                        &&& 0 <= k < old(self).galaxy.stations@.len()
                        &&& 0 <= si < old(self).players@[i].ships@.len()
                        &&& old(self).players@[i].ships@[si].id == ship_id
                        &&& moved == (if old(self).players@[i].ships@[si].fuel_tank_capacity
                            - old(self).players@[i].ships@[si].fuel_tank <= old(self).galaxy.stations@[k].cargo.amount_spec(
                            crate::resources::Resource::Fuel,
                        ) {
                            old(self).players@[i].ships@[si].fuel_tank_capacity - old(self).players@[i].ships@[si].fuel_tank
                        } else {
                            old(self).galaxy.stations@[k].cargo.amount_spec(
                                crate::resources::Resource::Fuel,
                            )
                        })
                        &&& final(self).players@[i].ships@[si] == (crate::ship::Ship {
                            fuel_tank: (old(self).players@[i].ships@[si].fuel_tank
                                + moved) as u64,
                            ..old(self).players@[i].ships@[si]
                        })
                        &&& final(self).galaxy.stations@[k].cargo.amount_spec(
                            crate::resources::Resource::Fuel,
                        ) == old(self).galaxy.stations@[k].cargo.amount_spec(
                            crate::resources::Resource::Fuel,
                        ) - moved
                        &&& (forall|j: int|
                            0 <= j < old(self).galaxy.stations@.len() && j != k ==> final(self).galaxy.stations@[j] == old(self).galaxy.stations@[j])
                        &&& (forall|j: int|
                            0 <= j < old(self).players@[i].ships@.len() && j != si
                                ==> final(self).players@[i].ships@[j] == old(self).players@[
                            i].ships@[j])
                    }
            }),
    {
        let pi = match self.find_live_player(key) {
            Ok(i) => i,
            Err(e) => {
                return Err(e);
            },
        };
        let coord = match self.players[pi].find_station(station_id) {
            Some(c) => c,
            None => {
                return Err(Errcode::NoSuchStation(station_id));
            },
        };
        let k = match self.galaxy.get_station(&coord) {
            Some(k) => k,
            None => {
                return Err(Errcode::NoSuchStation(station_id));
            },
        };
        let si = match self.players[pi].find_ship(ship_id) {
            Some(i) => i,
            None => {
                return Err(Errcode::ShipNotFound(ship_id));
            },
        };
        let ghost ps0 = self.players@;
        let ghost g0 = self.galaxy;
        let ghost ss0 = self.players@[pi as int].ships@;
        let station = &mut self.galaxy.stations[k];
        let player = &mut self.players[pi];
        let ship = &mut player.ships[si];
        let res = station.refuel_ship(ship);
        proof {
            lemma_ships_preserved(ss0, self.players@[pi as int].ships@, si as int);
            assert(self.players@[pi as int].wf());
            lemma_players_preserved(ps0, self.players@, pi as int);
            lemma_stations_preserved(g0, self.galaxy, k as int);
            if res is Ok {
                assert(old(self).galaxy.stations@[k as int] == g0.stations@[k as int]);
                assert(old(self).players@[pi as int].ships@[si as int] == ss0[si as int]);
            }
        }
        res
    }

    /// Mend an owned ship's hull with the station's plates.
    pub fn repair(&mut self, key: &Vec<u8>, station_id: crate::station::StationId,
        ship_id: crate::ship::ShipId) -> (r: Result<u64, Errcode>)
        requires
            old(self).wf(),
        ensures
            final(self).wf(),
            !old(self).has_key(key@) ==> *final(self) == *old(self) && r is Err
                && r->Err_0 is NoPlayerWithKey,
            old(self).has_key(key@) && old(self).first_key_lost(key@) ==> *final(self)
                == *old(self) && r is Err && r->Err_0 is PlayerLost,
            old(self).has_key(key@) && old(self).all_with_key_lost(key@) ==> *final(self)
                == *old(self) && r == Result::<u64, Errcode>::Err(Errcode::PlayerLost),
            r matches Ok(moved) ==> ({
                let i = old(self).first_key_idx(key@);
                &&& 0 <= i < old(self).players@.len()
                &&& final(self).players@.len() == old(self).players@.len()
                &&& final(self).galaxy.stations@.len() == old(self).galaxy.stations@.len()
                &&& (forall|j: int|
                    0 <= j < old(self).players@.len() && j != i ==> final(self).players@[j]
                        == old(self).players@[j])
                &&& exists|k: int, si: int|
                    #![trigger old(self).galaxy.stations@[k], old(self).players@[i].ships@[si]]
                    {
                        &&& 0 <= k < old(self).galaxy.stations@.len()
                        &&& 0 <= si < old(self).players@[i].ships@.len()
                        &&& old(self).players@[i].ships@[si].id == ship_id
                        &&& moved == (if old(self).players@[i].ships@[si].hull_decay <= old(self).galaxy.stations@[k].cargo.amount_spec(
                            crate::resources::Resource::HullPlate,
                        ) {
                            old(self).players@[i].ships@[si].hull_decay as int
                        } else {
                            old(self).galaxy.stations@[k].cargo.amount_spec(
                                crate::resources::Resource::HullPlate,
                            )
                        })
                        &&& final(self).players@[i].ships@[si] == (crate::ship::Ship {
                            hull_decay: (old(self).players@[i].ships@[si].hull_decay
                                - moved) as u64,
                            ..old(self).players@[i].ships@[si]
                        })
                        &&& final(self).galaxy.stations@[k].cargo.amount_spec(
                            crate::resources::Resource::HullPlate,
                        ) == old(self).galaxy.stations@[k].cargo.amount_spec(
                            crate::resources::Resource::HullPlate,
                        ) - moved
                        &&& (forall|j: int|
                            0 <= j < old(self).galaxy.stations@.len() && j != k
                                ==> final(self).galaxy.stations@[j] == old(self).galaxy.stations@[j])
                        &&& (forall|j: int|
                            0 <= j < old(self).players@[i].ships@.len() && j != si
                                ==> final(self).players@[i].ships@[j] == old(self).players@[
                            i].ships@[j])
                    }
            }),
    {
        let pi = match self.find_live_player(key) {
            Ok(i) => i,
            Err(e) => {
                return Err(e);
            },
        };
        let coord = match self.players[pi].find_station(station_id) {
            Some(c) => c,
            None => {
                return Err(Errcode::NoSuchStation(station_id));
            },
        };
        let k = match self.galaxy.get_station(&coord) {
            Some(k) => k,
            None => {
                return Err(Errcode::NoSuchStation(station_id));
            },
        };
        let si = match self.players[pi].find_ship(ship_id) {
            Some(i) => i,
            None => {
                return Err(Errcode::ShipNotFound(ship_id));
            },
        };
        let ghost ps0 = self.players@;
        let ghost g0 = self.galaxy;
        let ghost ss0 = self.players@[pi as int].ships@;
        let station = &mut self.galaxy.stations[k];
        let player = &mut self.players[pi];
        let ship = &mut player.ships[si];
        let res = station.repair_ship(ship);
        proof {
            lemma_ships_preserved(ss0, self.players@[pi as int].ships@, si as int);
            assert(self.players@[pi as int].wf());
            lemma_players_preserved(ps0, self.players@, pi as int);
            lemma_stations_preserved(g0, self.galaxy, k as int);
            if res is Ok {
                assert(old(self).galaxy.stations@[k as int] == g0.stations@[k as int]);
                assert(old(self).players@[pi as int].ships@[si as int] == ss0[si as int]);
            }
        }
        res
    }

    /// Buy a resource on the market through a station's trader.
    pub fn market_buy(&mut self, key: &Vec<u8>, station_id: crate::station::StationId,
        resource: crate::resources::Resource, amount: u64) -> (r: Result<
        crate::market::MarketTx,
        Errcode,
    >)
        requires
            old(self).wf(),
        ensures
            final(self).wf(),
            !old(self).has_key(key@) ==> *final(self) == *old(self) && r is Err
                && r->Err_0 is NoPlayerWithKey,
            old(self).has_key(key@) && old(self).first_key_lost(key@) ==> *final(self)
                == *old(self) && r is Err && r->Err_0 is PlayerLost,
            old(self).has_key(key@) && old(self).all_with_key_lost(key@) ==> *final(self)
                == *old(self) && r == Result::<crate::market::MarketTx, Errcode>::Err(
                Errcode::PlayerLost,
            ),
            r matches Ok(tx) ==> ({
                let i = old(self).first_key_idx(key@);
                &&& 0 <= i < old(self).players@.len()
                &&& final(self).players@.len() == old(self).players@.len()
                &&& final(self).galaxy.stations@.len() == old(self).galaxy.stations@.len()
                &&& (forall|j: int|
                    0 <= j < old(self).players@.len() && j != i ==> final(self).players@[j]
                        == old(self).players@[j])
                &&& tx.removed_money is Some
                &&& final(self).players@[i].money == crate::player::money_sub(
                    old(self).players@[i].money as int,
                    tx.removed_money->Some_0 as int,
                )
                &&& final(self).market.price_spec(resource) >= old(self).market.price_spec(
                    resource,
                )
                &&& exists|k: int|
                    #![trigger old(self).galaxy.stations@[k]]
                    ({
                        let st = old(self).galaxy.stations@[k];
                        let space = (st.cargo.capacity - st.cargo.usage)
                            / resource.volume_spec();
                        let clamped = if amount <= space {
                            amount as int
                        } else {
                            space
                        };
                        let fee = crate::market::fee_rate_spec(
                            st.crew.member_spec(st.trader->Some_0).rank as int,
                        );
                        &&& 0 <= k < old(self).galaxy.stations@.len()
                        &&& st.trader is Some
                        &&& clamped > 0
                        &&& tx.removed_money == Some(
                            crate::market::qty_value_milli(
                                clamped,
                                old(self).market.price_spec(resource),
                            ) as u64,
                        )
                        &&& tx.added_cargo == Some(
                            (resource, (clamped - clamped * fee / 1000) as u64),
                        )
                        &&& final(self).galaxy.stations@[k].cargo.amount_spec(resource)
                            == st.cargo.amount_spec(resource) + tx.added_cargo->Some_0.1
                        &&& (forall|j: int|
                            0 <= j < old(self).galaxy.stations@.len() && j != k
                                ==> final(self).galaxy.stations@[j] == old(self).galaxy.stations@[j])
                    })
            }),
    {
        let pi = match self.find_live_player(key) {
            Ok(i) => i,
            Err(e) => {
                return Err(e);
            },
        };
        let coord = match self.players[pi].find_station(station_id) {
            Some(c) => c,
            None => {
                return Err(Errcode::NoSuchStation(station_id));
            },
        };
        let k = match self.galaxy.get_station(&coord) {
            Some(k) => k,
            None => {
                return Err(Errcode::NoSuchStation(station_id));
            },
        };
        let ghost ps0 = self.players@;
        let ghost g0 = self.galaxy;
        let station = &mut self.galaxy.stations[k];
        let player = &mut self.players[pi];
        let res = station.buy_resource(&resource, amount, player, &mut self.market);
        proof {
            lemma_players_preserved(ps0, self.players@, pi as int);
            lemma_stations_preserved(g0, self.galaxy, k as int);
            if res is Ok {
                assert(old(self).galaxy.stations@[k as int] == g0.stations@[k as int]);
            }
        }
        res
    }

    /// Sell a resource on the market through a station's trader.
    pub fn market_sell(&mut self, key: &Vec<u8>, station_id: crate::station::StationId,
        resource: crate::resources::Resource, amount: u64) -> (r: Result<
        crate::market::MarketTx,
        Errcode,
    >)
        requires
            old(self).wf(),
        ensures
            final(self).wf(),
            !old(self).has_key(key@) ==> *final(self) == *old(self) && r is Err
                && r->Err_0 is NoPlayerWithKey,
            old(self).has_key(key@) && old(self).first_key_lost(key@) ==> *final(self)
                == *old(self) && r is Err && r->Err_0 is PlayerLost,
            old(self).has_key(key@) && old(self).all_with_key_lost(key@) ==> *final(self)
                == *old(self) && r == Result::<crate::market::MarketTx, Errcode>::Err(
                Errcode::PlayerLost,
            ),
            r matches Ok(tx) ==> ({
                let i = old(self).first_key_idx(key@);
                &&& 0 <= i < old(self).players@.len()
                &&& final(self).players@.len() == old(self).players@.len()
                &&& final(self).galaxy.stations@.len() == old(self).galaxy.stations@.len()
                &&& (forall|j: int|
                    0 <= j < old(self).players@.len() && j != i ==> final(self).players@[j]
                        == old(self).players@[j])
                &&& tx.added_money is Some
                &&& final(self).players@[i].money == crate::player::money_add(
                    old(self).players@[i].money as int,
                    tx.added_money->Some_0 as int,
                )
                &&& final(self).market.price_spec(resource) <= old(self).market.price_spec(
                    resource,
                )
                &&& final(self).market.price_spec(resource) >= 1
                &&& exists|k: int|
                    #![trigger old(self).galaxy.stations@[k]]
                    ({
                        let st = old(self).galaxy.stations@[k];
                        let stock = st.cargo.amount_spec(resource);
                        let clamped = if amount <= stock {
                            amount as int
                        } else {
                            stock
                        };
                        let fee = crate::market::fee_rate_spec(
                            st.crew.member_spec(st.trader->Some_0).rank as int,
                        );
                        &&& 0 <= k < old(self).galaxy.stations@.len()
                        &&& st.trader is Some
                        &&& clamped > 0
                        &&& tx.removed_cargo == Some((resource, clamped as u64))
                        &&& tx.fees == crate::market::qty_value_milli(
                            clamped,
                            old(self).market.price_spec(resource),
                        ) * fee / 1000
                        &&& tx.added_money == Some(
                            (crate::market::qty_value_milli(
                                clamped,
                                old(self).market.price_spec(resource),
                            ) - tx.fees) as u64,
                        )
                        &&& final(self).galaxy.stations@[k].cargo.amount_spec(resource)
                            == st.cargo.amount_spec(resource) - clamped
                        &&& (forall|j: int|
                            0 <= j < old(self).galaxy.stations@.len() && j != k
                                ==> final(self).galaxy.stations@[j] == old(self).galaxy.stations@[j])
                    })
            }),
    {
        let pi = match self.find_live_player(key) {
            Ok(i) => i,
            Err(e) => {
                return Err(e);
            },
        };
        let coord = match self.players[pi].find_station(station_id) {
            Some(c) => c,
            None => {
                return Err(Errcode::NoSuchStation(station_id));
            },
        };
        let k = match self.galaxy.get_station(&coord) {
            Some(k) => k,
            None => {
                return Err(Errcode::NoSuchStation(station_id));
            },
        };
        let ghost ps0 = self.players@;
        let ghost g0 = self.galaxy;
        let station = &mut self.galaxy.stations[k];
        let player = &mut self.players[pi];
        let res = station.sell_resource(&resource, amount, player, &mut self.market);
        proof {
            lemma_players_preserved(ps0, self.players@, pi as int);
            lemma_stations_preserved(g0, self.galaxy, k as int);
            if res is Ok {
                assert(old(self).galaxy.stations@[k as int] == g0.stations@[k as int]);
            }
        }
        res
    }

    /// Drain a player's event log, oldest first.
    pub fn syslogs(&mut self, key: &Vec<u8>) -> (r: Result<
        Vec<(u64, SyslogEvent)>,
        Errcode,
    >)
        requires
            old(self).wf(),
        ensures
            final(self).wf(),
            final(self).players@ == old(self).players@,
            !old(self).has_key(key@) ==> *final(self) == *old(self) && r is Err
                && r->Err_0 is NoPlayerWithKey,
            old(self).has_key(key@) && old(self).first_key_lost(key@) ==> *final(self)
                == *old(self) && r is Err && r->Err_0 is PlayerLost,
            old(self).has_key(key@) && old(self).all_with_key_lost(key@) ==> *final(self)
                == *old(self) && r == Result::<Vec<(u64, SyslogEvent)>, Errcode>::Err(
                Errcode::PlayerLost,
            ),
            match r {
                Ok(events) => exists|i: int|
                    {
                        &&& 0 <= i < old(self).players@.len()
                        &&& (#[trigger] old(self).players@[i]).key@ == key@
                        &&& !old(self).players@[i].lost
                        &&& events@ == old(self).fifos.queue_of(old(self).players@[i].id)
                        &&& events@.len() <= 10
                        &&& final(self).fifos.queue_of(old(self).players@[i].id) == Seq::<
                        (u64, SyslogEvent)>::empty()
                        &&& forall|p: crate::player::PlayerId|
                            p != old(self).players@[i].id ==> final(self).fifos.queue_of(p)
                                == old(self).fifos.queue_of(p)
                    },
                Err(e) => {
                    &&& *final(self) == *old(self)
                    &&& (e is NoPlayerWithKey <==> !old(self).has_key(key@))
                    &&& (e is NoPlayerWithKey || e is PlayerLost)
                },
            },
    {
        let pi = match self.find_live_player(key) {
            Ok(i) => i,
            Err(e) => {
                return Err(e);
            },
        };
        let pid = self.players[pi].id;
        Ok(self.fifos.drain(pid))
    }

    /// Current market prices, milli-currency per unit, catalogue order.
    pub fn market_prices(&self) -> (r: Vec<u64>)
        requires
            self.wf(),
        ensures
            r@ == self.market.prices@,
    {
        let mut out: Vec<u64> = Vec::new();
        let mut i: usize = 0;
        while i < self.market.prices.len()
            invariant
                self.wf(),
                i <= self.market.prices@.len(),
                out@ == self.market.prices@.take(i as int),
            decreases self.market.prices@.len() - i,
        {
            out.push(self.market.prices[i]);
            proof {
                assert(out@ =~= self.market.prices@.take(i + 1));
            }
            i = i + 1;
        }
        proof {
            assert(self.market.prices@.take(self.market.prices@.len() as int)
                =~= self.market.prices@);
        }
        out
    }

    /// Cost of a trip for an owned ship; changes nothing.
    pub fn travel_cost(&self, key: &Vec<u8>, ship_id: crate::ship::ShipId,
        dest: crate::galaxy::SpaceCoord) -> (r: Result<crate::navigation::TravelCost, Errcode>)
        requires
            self.wf(),
        ensures
            !self.has_key(key@) ==> r is Err && r->Err_0 is NoPlayerWithKey,
            self.has_key(key@) && self.first_key_lost(key@) ==> r is Err
                && r->Err_0 is PlayerLost,
            self.has_key(key@) && self.all_with_key_lost(key@) ==> r == Result::<
                crate::navigation::TravelCost,
                Errcode,
            >::Err(Errcode::PlayerLost),
    {
        let pi = match self.find_live_player(key) {
            Ok(i) => i,
            Err(e) => {
                return Err(e);
            },
        };
        let si = match self.players[pi].find_ship(ship_id) {
            Some(i) => i,
            None => {
                return Err(Errcode::ShipNotFound(ship_id));
            },
        };
        self.players[pi].ships[si].compute_travel_costs(dest)
    }

    /// Scan around one of the player's stations.
    pub fn scan(&self, key: &Vec<u8>, station_id: crate::station::StationId) -> (r: Result<
        crate::scan::ScanResult,
        Errcode,
    >)
        requires
            self.wf(),
        ensures
            !self.has_key(key@) ==> r is Err && r->Err_0 is NoPlayerWithKey,
            self.has_key(key@) && self.first_key_lost(key@) ==> r is Err
                && r->Err_0 is PlayerLost,
            self.has_key(key@) && self.all_with_key_lost(key@) ==> r == Result::<
                crate::scan::ScanResult,
                Errcode,
            >::Err(Errcode::PlayerLost),
    {
        let pi = match self.find_live_player(key) {
            Ok(i) => i,
            Err(e) => {
                return Err(e);
            },
        };
        let coord = match self.players[pi].find_station(station_id) {
            Some(c) => c,
            None => {
                return Err(Errcode::NoSuchStation(station_id));
            },
        };
        let k = match self.galaxy.get_station(&coord) {
            Some(k) => k,
            None => {
                return Err(Errcode::NoSuchStation(station_id));
            },
        };
        let pos = self.galaxy.stations[k].position;
        Ok(self.galaxy.scan_sector(1, &pos))
    }

    /// The fee rate a station's trader charges, in milli.
    pub fn fee_rate_of(&self, key: &Vec<u8>, station_id: crate::station::StationId) -> (r:
        Result<u64, Errcode>)
        requires
            self.wf(),
        ensures
            !self.has_key(key@) ==> r is Err && r->Err_0 is NoPlayerWithKey,
            self.has_key(key@) && self.first_key_lost(key@) ==> r is Err
                && r->Err_0 is PlayerLost,
            self.has_key(key@) && self.all_with_key_lost(key@) ==> r == Result::<
                u64,
                Errcode,
            >::Err(Errcode::PlayerLost),
    {
        let pi = match self.find_live_player(key) {
            Ok(i) => i,
            Err(e) => {
                return Err(e);
            },
        };
        let coord = match self.players[pi].find_station(station_id) {
            Some(c) => c,
            None => {
                return Err(Errcode::NoSuchStation(station_id));
            },
        };
        let k = match self.galaxy.get_station(&coord) {
            Some(k) => k,
            None => {
                return Err(Errcode::NoSuchStation(station_id));
            },
        };
        let station = &self.galaxy.stations[k];
        let trader = match station.trader {
            Some(t) => t,
            None => {
                return Err(Errcode::NoTraderAssigned);
            },
        };
        let cm = match station.crew.get(trader) {
            Some(cm) => *cm,
            None => {
                return Err(Errcode::NoTraderAssigned);
            },
        };
        proof {
            assert(station.crew.0@[station.crew.idx_of(trader)].1.wf());
        }
        Ok(crate::market::fee_rate(cm.rank))
    }
}

/// Whether the driver's step kills this ship: a flight that ends by a
/// dry tank or a worn hull.
pub open spec fn ship_dies(s: crate::ship::Ship, dt: int) -> bool {
    s.state is InFlight && (crate::ship::Ship::flight_fuel_dead(s, dt)
        || crate::ship::Ship::flight_hull_dead(s, dt))
}

/// Whether an extracting ship's hold fills during the step.
pub open spec fn extraction_fills(s: crate::ship::Ship, dt: int) -> bool {
    s.state is Extracting && crate::resources::deposit_usage_after(
        s.cargo.capacity as int,
        s.cargo.usage as int,
        s.state->Extracting_0.0@,
        s.state->Extracting_0.0@.len() as int,
        dt,
    ) == s.cargo.capacity
}

/// How one surviving ship comes out of the driver's step.
pub open spec fn ship_stepped(s0: crate::ship::Ship, s1: crate::ship::Ship, dt: int) -> bool {
    match s0.state {
        crate::ship::ShipState::InFlight(fd) => s1 == (crate::ship::Ship {
            state: if crate::ship::Ship::flight_finished(s0, dt) {
                crate::ship::ShipState::Idle
            } else {
                crate::ship::ShipState::InFlight(
                    crate::navigation::FlightData {
                        dist_done: crate::ship::Ship::flight_done_after(s0, dt) as u64,
                        ..fd
                    },
                )
            },
            fuel_tank: (s0.fuel_tank - crate::ship::Ship::flight_fuel_used(s0, dt)) as u64,
            hull_decay: (s0.hull_decay + crate::ship::Ship::flight_hull_inc(s0, dt)) as u64,
            position: (
                crate::galaxy::axis_interp_spec(
                    fd.start.0 as int,
                    fd.destination.0 as int,
                    crate::ship::Ship::flight_done_after(s0, dt),
                    fd.dist_tot as int,
                ) as u32,
                crate::galaxy::axis_interp_spec(
                    fd.start.1 as int,
                    fd.destination.1 as int,
                    crate::ship::Ship::flight_done_after(s0, dt),
                    fd.dist_tot as int,
                ) as u32,
                crate::galaxy::axis_interp_spec(
                    fd.start.2 as int,
                    fd.destination.2 as int,
                    crate::ship::Ship::flight_done_after(s0, dt),
                    fd.dist_tot as int,
                ) as u32,
            ),
            ..s0
        }),
        crate::ship::ShipState::Extracting(_) => {
            &&& s1.cargo.capacity == s0.cargo.capacity
            &&& s1.cargo.resources@ == crate::resources::deposit_res_after(
                s0.cargo.resources@,
                s0.cargo.capacity as int,
                s0.cargo.usage as int,
                s0.state->Extracting_0.0@,
                s0.state->Extracting_0.0@.len() as int,
                dt,
            )
            &&& s1.cargo.usage == crate::resources::deposit_usage_after(
                s0.cargo.capacity as int,
                s0.cargo.usage as int,
                s0.state->Extracting_0.0@,
                s0.state->Extracting_0.0@.len() as int,
                dt,
            )
            &&& (extraction_fills(s0, dt) ==> s1.state is Idle)
            &&& (!extraction_fills(s0, dt) ==> s1.state == s0.state)
            &&& s1 == (crate::ship::Ship { state: s1.state, cargo: s1.cargo, ..s0 })
        },
        crate::ship::ShipState::Idle => s1 == s0,
    }
}

/// The driver's step over a whole fleet: dead ships leave, the rest
/// step in place, order kept.
pub open spec fn fleet_stepped(s0: Seq<crate::ship::Ship>, s1: Seq<crate::ship::Ship>, dt: int)
    -> bool
    decreases s0.len(),
{
    if s0.len() == 0 {
        s1.len() == 0
    } else if ship_dies(s0[0], dt) {
        fleet_stepped(s0.drop_first(), s1, dt)
    } else {
        s1.len() > 0 && ship_stepped(s0[0], s1[0], dt) && fleet_stepped(
            s0.drop_first(),
            s1.drop_first(),
            dt,
        )
    }
}

/// The event one ship's step files, if any, applied to a queue.
pub open spec fn step_event(
    q: Seq<(u64, SyslogEvent)>,
    s: crate::ship::Ship,
    dt: int,
    now: u64,
) -> Seq<(u64, SyslogEvent)> {
    if s.state is InFlight && crate::ship::Ship::flight_finished(s, dt) {
        if ship_dies(s, dt) {
            crate::syslog::fifo_push_rule(q, (now, SyslogEvent::ShipDestroyed(s.id)))
        } else {
            crate::syslog::fifo_push_rule(q, (now, SyslogEvent::ShipFlightFinished(s.id)))
        }
    } else if extraction_fills(s, dt) {
        crate::syslog::fifo_push_rule(q, (now, SyslogEvent::ExtractionStopped(s.id)))
    } else {
        q
    }
}

/// The events a whole fleet's step files, in fleet order.
pub open spec fn fleet_events(
    q: Seq<(u64, SyslogEvent)>,
    ships: Seq<crate::ship::Ship>,
    dt: int,
    now: u64,
) -> Seq<(u64, SyslogEvent)>
    decreases ships.len(),
{
    if ships.len() == 0 {
        q
    } else {
        fleet_events(step_event(q, ships[0], dt, now), ships.drop_first(), dt, now)
    }
}

/// Appending a doomed ship to the processed originals leaves the
/// survivors as they are.
proof fn lemma_fleet_snoc_dead(
    a: Seq<crate::ship::Ship>,
    b: Seq<crate::ship::Ship>,
    x: crate::ship::Ship,
    dt: int,
)
    requires
        fleet_stepped(a, b, dt),
        ship_dies(x, dt),
    ensures
        fleet_stepped(a.push(x), b, dt),
    decreases a.len(),
{
    if a.len() == 0 {
        assert(a.push(x).drop_first() =~= Seq::<crate::ship::Ship>::empty());
        assert(a.push(x)[0] == x);
        assert(b.len() == 0);
        assert(fleet_stepped(a.push(x).drop_first(), b, dt));
    } else {
        assert(a.push(x)[0] == a[0]);
        assert(a.push(x).drop_first() =~= a.drop_first().push(x));
        if ship_dies(a[0], dt) {
            lemma_fleet_snoc_dead(a.drop_first(), b, x, dt);
            assert(fleet_stepped(a.push(x).drop_first(), b, dt));
        } else {
            lemma_fleet_snoc_dead(a.drop_first(), b.drop_first(), x, dt);
            assert(fleet_stepped(a.push(x).drop_first(), b.drop_first(), dt));
        }
    }
}

/// Appending a surviving ship appends its stepped image.
proof fn lemma_fleet_snoc_live(
    a: Seq<crate::ship::Ship>,
    b: Seq<crate::ship::Ship>,
    x: crate::ship::Ship,
    y: crate::ship::Ship,
    dt: int,
)
    requires
        fleet_stepped(a, b, dt),
        !ship_dies(x, dt),
        ship_stepped(x, y, dt),
    ensures
        fleet_stepped(a.push(x), b.push(y), dt),
    decreases a.len(),
{
    if a.len() == 0 {
        assert(a.push(x)[0] == x);
        assert(b.len() == 0);
        assert(b.push(y)[0] == y);
        assert(a.push(x).drop_first() =~= Seq::<crate::ship::Ship>::empty());
        assert(b.push(y).drop_first() =~= Seq::<crate::ship::Ship>::empty());
        assert(fleet_stepped(a.push(x).drop_first(), b.push(y).drop_first(), dt));
    } else {
        assert(a.push(x)[0] == a[0]);
        assert(a.push(x).drop_first() =~= a.drop_first().push(x));
        if ship_dies(a[0], dt) {
            lemma_fleet_snoc_live(a.drop_first(), b, x, y, dt);
            assert(fleet_stepped(a.push(x).drop_first(), b.push(y), dt));
        } else {
            assert(b.push(y)[0] == b[0]);
            assert(b.push(y).drop_first() =~= b.drop_first().push(y));
            lemma_fleet_snoc_live(a.drop_first(), b.drop_first(), x, y, dt);
            assert(fleet_stepped(a.push(x).drop_first(), b.push(y).drop_first(), dt));
        }
    }
}

/// Processing one more original appends its event to the fold.
proof fn lemma_fleet_events_snoc(
    q: Seq<(u64, SyslogEvent)>,
    a: Seq<crate::ship::Ship>,
    x: crate::ship::Ship,
    dt: int,
    now: u64,
)
    ensures
        fleet_events(q, a.push(x), dt, now) == step_event(fleet_events(q, a, dt, now), x, dt, now),
    decreases a.len(),
{
    if a.len() == 0 {
        assert(a.push(x)[0] == x);
        assert(a.push(x).drop_first() =~= Seq::<crate::ship::Ship>::empty());
        assert(fleet_events(q, a, dt, now) == q);
        assert(fleet_events(step_event(q, x, dt, now), a.push(x).drop_first(), dt, now)
            == step_event(q, x, dt, now));
    } else {
        assert(a.push(x)[0] == a[0]);
        assert(a.push(x).drop_first() =~= a.drop_first().push(x));
        lemma_fleet_events_snoc(step_event(q, a[0], dt, now), a.drop_first(), x, dt, now);
        assert(fleet_events(q, a.push(x), dt, now) == fleet_events(
            step_event(q, a[0], dt, now),
            a.push(x).drop_first(),
            dt,
            now,
        ));
    }
}

/// An update of one player that keeps ids keeps the roster well formed.
/// The first index holding a key is what `first_key_idx` picks.
proof fn lemma_first_key_idx_is(g: Game, key: Seq<u8>, i: int)
    requires
        0 <= i < g.players@.len(),
        g.players@[i].key@ == key,
        forall|j: int| 0 <= j < i ==> (#[trigger] g.players@[j]).key@ != key,
    ensures
        g.first_key_idx(key) == i,
{
    reveal(Game::first_key_idx);
    assert(0 <= i < g.players@.len() && g.players@[i].key@ == key && (forall|j: int|
        0 <= j < i ==> (#[trigger] g.players@[j]).key@ != key));
    let fi = g.first_key_idx(key);
    assert(0 <= fi < g.players@.len() && g.players@[fi].key@ == key && (forall|j: int|
        0 <= j < fi ==> (#[trigger] g.players@[j]).key@ != key));
    if fi < i {
        assert(g.players@[fi].key@ != key);
    }
    if i < fi {
        assert(g.players@[i].key@ != key);
    }
}

proof fn lemma_players_preserved(ps0: Seq<Player>, ps1: Seq<Player>, pi: int)
    requires
        ps1.len() == ps0.len(),
        0 <= pi < ps0.len(),
        forall|i: int| 0 <= i < ps0.len() && i != pi ==> ps1[i] == ps0[i],
        ps1[pi].wf(),
        ps1[pi].id == ps0[pi].id,
        forall|i: int| 0 <= i < ps0.len() ==> (#[trigger] ps0[i]).wf(),
        forall|i: int, j: int| 0 <= i < j < ps0.len() ==> ps0[i].id != ps0[j].id,
    ensures
        forall|i: int| 0 <= i < ps1.len() ==> (#[trigger] ps1[i]).wf(),
        forall|i: int, j: int| 0 <= i < j < ps1.len() ==> ps1[i].id != ps1[j].id,
{
    assert forall|i: int| 0 <= i < ps1.len() implies (#[trigger] ps1[i]).wf() by {
        if i != pi {
            assert(ps1[i] == ps0[i]);
        }
    }
    assert forall|a: int, b: int| 0 <= a < b < ps1.len() implies ps1[a].id != ps1[b].id by {
        if a != pi {
            assert(ps1[a] == ps0[a]);
        }
        if b != pi {
            assert(ps1[b] == ps0[b]);
        }
    }
}

/// An update of one station that keeps its place keeps the galaxy
/// well formed.
proof fn lemma_stations_preserved(g0: Galaxy, g1: Galaxy, k: int)
    requires
        g0.wf(),
        g1.map == g0.map,
        g1.stations@.len() == g0.stations@.len(),
        forall|j: int| 0 <= j < g0.stations@.len() && j != k ==> g1.stations@[j] == g0.stations@[j],
        0 <= k < g0.stations@.len(),
        g1.stations@[k].wf(),
        g1.stations@[k].position == g0.stations@[k].position,
    ensures
        g1.wf(),
{
    assert forall|i: int|
        0 <= i < g1.map.objects@.len() implies match (#[trigger] g1.map.objects@[i]).1 {
        crate::galaxy::SpaceObject::BaseStation(q) => q < g1.stations@.len()
            && g1.stations@[q as int].position == g1.map.objects@[i].0,
        crate::galaxy::SpaceObject::Planet(p) => p.position == g1.map.objects@[i].0,
    } by {
        match g1.map.objects@[i].1 {
            crate::galaxy::SpaceObject::BaseStation(q) => {
                if q != k {
                    assert(g1.stations@[q as int] == g0.stations@[q as int]);
                }
            },
            crate::galaxy::SpaceObject::Planet(_) => {},
        }
    }
    assert forall|q: int| 0 <= q < g1.stations@.len() implies (#[trigger] g1.stations@[
    q]).wf() by {
        if q != k {
            assert(g1.stations@[q] == g0.stations@[q]);
        }
    }
}

/// An update of one ship that keeps its id keeps the fleet well formed.
proof fn lemma_ships_preserved(ss0: Seq<crate::ship::Ship>, ss1: Seq<crate::ship::Ship>, si: int)
    requires
        ss1.len() == ss0.len(),
        0 <= si < ss0.len(),
        forall|i: int| 0 <= i < ss0.len() && i != si ==> ss1[i] == ss0[i],
        ss1[si].wf(),
        ss1[si].id == ss0[si].id,
        forall|i: int| 0 <= i < ss0.len() ==> (#[trigger] ss0[i]).wf(),
        forall|i: int, j: int| 0 <= i < j < ss0.len() ==> ss0[i].id != ss0[j].id,
    ensures
        forall|i: int| 0 <= i < ss1.len() ==> (#[trigger] ss1[i]).wf(),
        forall|i: int, j: int| 0 <= i < j < ss1.len() ==> ss1[i].id != ss1[j].id,
{
    assert forall|i: int| 0 <= i < ss1.len() implies (#[trigger] ss1[i]).wf() by {
        if i != si {
            assert(ss1[i] == ss0[i]);
        }
    }
    assert forall|a: int, b: int| 0 <= a < b < ss1.len() implies ss1[a].id != ss1[b].id by {
        if a != si {
            assert(ss1[a] == ss0[a]);
        }
        if b != si {
            assert(ss1[b] == ss0[b]);
        }
    }
}

/// Byte-for-byte key comparison.
fn keys_eq(a: &Vec<u8>, b: &Vec<u8>) -> (r: bool)
    ensures
        r == (a@ == b@),
{
    if a.len() != b.len() {
        proof {
            assert(a@ != b@);
        }
        return false;
    }
    let mut i: usize = 0;
    while i < a.len()
        invariant
            a@.len() == b@.len(),
            i <= a@.len(),
            forall|j: int| 0 <= j < i ==> a@[j] == b@[j],
        decreases a@.len() - i,
    {
        if a[i] != b[i] {
            return false;
        }
        i = i + 1;
    }
    proof {
        assert(a@ =~= b@);
    }
    true
}

} // verus!
