//! Players: wallet, roster of ships and stations, loss condition.
//!
//! Money is milli-currency in a signed 64-bit wallet; crossing below
//! zero loses the game, and the flag never clears.

use vstd::prelude::*;

verus! {

use crate::crew::CrewId;
use crate::crew::CrewMember;
use crate::crew::RANK_PRICE_WAGE_MULT;
use crate::crew::sum_wages_seq;
use crate::encoding::b64_of;
use crate::encoding::bytes_of;
use crate::encoding::b64_encode;
use crate::encoding::str_bytes;
use crate::errors::Errcode;
use crate::fixed::cap64;
use crate::galaxy::Galaxy;
use crate::galaxy::SpaceCoord;
use crate::module::ShipModuleId;
use crate::module::ShipModuleType;
use crate::module::module_price_next_milli;
use crate::module::MODULE_BUY_PRICE;
use crate::rng::random_key_bytes;
use crate::ship::Ship;
use crate::ship::ShipId;
use crate::station::Station;
use crate::station::StationId;
use crate::syslog::SyslogEvent;
use crate::syslog::SyslogFifos;
use crate::upgrade::ShipUpgrade;

pub type PlayerId = u16;

/// Milli-currency a new player starts with.
pub const INIT_MONEY: i64 = 30000000;

/// Wallet subtraction, clamped to the signed 64-bit floor.
pub open spec fn money_sub(m: int, c: int) -> int {
    if m - c < i64::MIN as int {
        i64::MIN as int
    } else {
        m - c
    }
}

/// Wallet addition, clamped to the signed 64-bit ceiling.
pub open spec fn money_add(m: int, c: int) -> int {
    if m + c > i64::MAX as int {
        i64::MAX as int
    } else {
        m + c
    }
}

/// The 64-bit FNV-1a hash of a byte string.
pub open spec fn fnv1a_spec(bytes: Seq<u8>, acc: u64) -> u64
    decreases bytes.len(),
{
    if bytes.len() == 0 {
        acc
    } else {
        fnv1a_spec(
            bytes.drop_first(),
            (((acc ^ bytes[0] as u64) as u128 * 0x100000001b3) % 0x10000000000000000) as u64,
        )
    }
}

/// FNV-1a over `bytes`, starting from `acc`.
fn fnv1a(bytes: &Vec<u8>, acc: u64) -> (h: u64)
    ensures
        h == fnv1a_spec(bytes@, acc),
{
    let mut h = acc;
    let mut i: usize = 0;
    proof {
        assert(bytes@.skip(0) =~= bytes@);
    }
    while i < bytes.len()
        invariant
            i <= bytes@.len(),
            fnv1a_spec(bytes@.skip(i as int), h) == fnv1a_spec(bytes@, acc),
        decreases bytes@.len() - i,
    {
        let ghost pre = bytes@.skip(i as int);
        let x = (h ^ (bytes[i] as u64)) as u128;
        let m = (x * 0x100000001b3) % 0x10000000000000000;
        proof {
            assert(pre.len() > 0);
            assert(pre[0] == bytes@[i as int]);
            assert(pre.drop_first() =~= bytes@.skip(i + 1));
        }
        h = m as u64;
        i = i + 1;
    }
    proof {
        assert(bytes@.skip(bytes@.len() as int) =~= Seq::<u8>::empty());
    }
    h
}

/// Sum of the crew wages over a roster of ships, clamped to 64 bits.
pub open spec fn ships_wages(ships: Seq<Ship>) -> int
    decreases ships.len(),
{
    if ships.len() == 0 {
        0
    } else {
        cap64(ships_wages(ships.drop_last()) + sum_wages_seq(ships.last().crew.0@))
    }
}

/// Sum of the station wages (desk and idle crew) over the stations a
/// player owns, resolved through the galaxy; unknown coordinates add
/// nothing.
pub open spec fn stations_wages(g: Galaxy, sts: Seq<(StationId, SpaceCoord)>) -> int
    decreases sts.len(),
{
    if sts.len() == 0 {
        0
    } else {
        cap64(
            stations_wages(g, sts.drop_last()) + match g.station_idx_at(sts.last().1) {
                Some(k) => cap64(
                    sum_wages_seq(g.stations@[k].crew.0@) + sum_wages_seq(
                        g.stations@[k].idle_crew.0@,
                    ),
                ),
                None => 0,
            },
        )
    }
}

/// A fleet's wage total of well-formed crews stays in range.
pub proof fn lemma_ships_wages_in_range(ships: Seq<Ship>)
    requires
        forall|i: int| 0 <= i < ships.len() ==> (#[trigger] ships[i]).crew.wf(),
    ensures
        0 <= ships_wages(ships) <= u64::MAX,
    decreases ships.len(),
{
    if ships.len() > 0 {
        assert(forall|i: int|
            0 <= i < ships.drop_last().len() ==> (#[trigger] ships.drop_last()[i]).crew.wf());
        lemma_ships_wages_in_range(ships.drop_last());
        assert(ships[ships.len() - 1].crew.wf());
        crate::crew::lemma_sum_wages_in_range(ships.last().crew.0@);
    }
}

/// Replacing one ship with one whose crew bill is strictly larger
/// strictly raises the fleet's wage total, saturation aside.
pub proof fn lemma_ships_wages_update_increases(ships: Seq<Ship>, si: int, ship2: Ship)
    requires
        0 <= si < ships.len(),
        forall|i: int| 0 <= i < ships.len() ==> (#[trigger] ships[i]).crew.wf(),
        ship2.crew.wf(),
        sum_wages_seq(ship2.crew.0@) > sum_wages_seq(ships[si].crew.0@),
        ships_wages(ships.update(si, ship2)) < u64::MAX,
    ensures
        ships_wages(ships.update(si, ship2)) > ships_wages(ships),
    decreases ships.len(),
{
    let s2 = ships.update(si, ship2);
    assert(forall|i: int|
        0 <= i < ships.drop_last().len() ==> (#[trigger] ships.drop_last()[i]).crew.wf());
    lemma_ships_wages_in_range(ships.drop_last());
    assert(ships[ships.len() - 1].crew.wf());
    crate::crew::lemma_sum_wages_in_range(ships.last().crew.0@);
    crate::crew::lemma_sum_wages_in_range(s2.last().crew.0@);
    if si == ships.len() - 1 {
        assert(s2.drop_last() =~= ships.drop_last());
        assert(s2.last() == ship2);
        assert(s2.last().crew.wf());
    } else {
        assert(s2.drop_last() =~= ships.drop_last().update(si, ship2));
        assert(s2.last() == ships.last());
        assert(forall|i: int|
            0 <= i < s2.drop_last().len() ==> (#[trigger] s2.drop_last()[i]).crew.wf());
        lemma_ships_wages_in_range(s2.drop_last());
        assert(ships_wages(s2.drop_last()) < u64::MAX) by {
            if ships_wages(s2.drop_last()) >= u64::MAX {
                assert(ships_wages(s2) == u64::MAX);
            }
        }
        lemma_ships_wages_update_increases(ships.drop_last(), si, ship2);
    }
}

/// The wage law at the bill: raising the pay of one crew of one ship
/// strictly raises the player's recomputed costs, as long as the
/// larger bill does not saturate the 64-bit range.
pub proof fn lemma_rank_up_increases_costs(p0: Player, p1: Player, g: Galaxy, si: int)
    requires
        0 <= si < p0.ships@.len(),
        forall|i: int| 0 <= i < p0.ships@.len() ==> (#[trigger] p0.ships@[i]).crew.wf(),
        p1.ships@ == p0.ships@.update(si, p1.ships@[si]),
        p1.ships@[si].crew.wf(),
        p1.stations@ == p0.stations@,
        sum_wages_seq(p1.ships@[si].crew.0@) > sum_wages_seq(p0.ships@[si].crew.0@),
        p1.costs_spec(g) < u64::MAX,
        ships_wages(p1.ships@) < u64::MAX,
    ensures
        p1.costs_spec(g) > p0.costs_spec(g),
{
    lemma_ships_wages_update_increases(p0.ships@, si, p1.ships@[si]);
    assert(stations_wages(g, p1.stations@) == stations_wages(g, p0.stations@));
    assert(forall|i: int| 0 <= i < p1.ships@.len() ==> (#[trigger] p1.ships@[i]).crew.wf()) by {
        assert forall|i: int| 0 <= i < p1.ships@.len() implies (#[trigger] p1.ships@[
        i]).crew.wf() by {
            if i != si {
                assert(p1.ships@[i] == p0.ships@[i]);
            }
        }
    }
    lemma_ships_wages_in_range(p1.ships@);
    lemma_ships_wages_in_range(p0.ships@);
}

/// The events one wage tick files for a player, applied to a queue:
/// a low-funds warning when the runway first drops below a minute,
/// then the loss notice when the wallet goes negative.
pub open spec fn money_events_spec(
    p: Player,
    q: Seq<(u64, SyslogEvent)>,
    now_ms: u64,
    tdelta_ms: int,
) -> Seq<(u64, SyslogEvent)> {
    let billed = p.costs * tdelta_ms / 1000;
    let m1 = money_sub(p.money as int, billed);
    let warn = m1 < p.costs * 60 && !(p.money < p.costs * 60);
    let tl = if m1 > 0 && p.costs > 0 {
        if m1 * 1000 / (p.costs as int) > u64::MAX as int {
            u64::MAX as int
        } else {
            m1 * 1000 / (p.costs as int)
        }
    } else {
        0
    };
    let q1 = if warn {
        crate::syslog::fifo_push_rule(q, (now_ms, SyslogEvent::LowFunds(tl as u64)))
    } else {
        q
    };
    let lose = m1 < 0 && !p.lost;
    if lose {
        crate::syslog::fifo_push_rule(q1, (now_ms, SyslogEvent::GameLost))
    } else {
        q1
    }
}

pub struct Player {
    pub id: PlayerId,
    pub key: Vec<u8>,
    pub lost: bool,
    pub name: String,
    /// Milli-currency; negative means the game is lost.
    pub money: i64,
    /// Milli-currency per second of wages.
    pub costs: u64,
    pub stations: Vec<(StationId, SpaceCoord)>,
    pub ships: Vec<Ship>,
}

impl Player {
    pub open spec fn wf(self) -> bool {
        &&& self.key@.len() == 128
        &&& forall|i: int| 0 <= i < self.ships@.len() ==> (#[trigger] self.ships@[i]).wf()
        &&& forall|i: int, j: int|
            0 <= i < j < self.ships@.len() ==> self.ships@[i].id != self.ships@[j].id
        &&& forall|i: int, j: int|
            0 <= i < j < self.stations@.len() ==> self.stations@[i].0 != self.stations@[j].0
    }

    /// Whether the player owns a ship with this id.
    pub open spec fn has_ship(self, id: ShipId) -> bool {
        exists|i: int| 0 <= i < self.ships@.len() && (#[trigger] self.ships@[i]).id == id
    }

    /// Slot of the owned ship with this id; meaningful when `has_ship`.
    pub open spec fn ship_idx(self, id: ShipId) -> int {
        choose|i: int| 0 <= i < self.ships@.len() && (#[trigger] self.ships@[i]).id == id
    }

    /// Whether the player owns a station under this id.
    pub open spec fn owns_station(self, sid: StationId) -> bool {
        exists|i: int| 0 <= i < self.stations@.len() && (#[trigger] self.stations@[i]).0 == sid
    }

    /// Coordinate of the owned station under this id; meaningful when
    /// `owns_station`.
    pub open spec fn station_coord_spec(self, sid: StationId) -> SpaceCoord {
        self.stations@[choose|i: int|
            0 <= i < self.stations@.len() && (#[trigger] self.stations@[i]).0 == sid].1
    }

    /// What the wage bill must be: station crews plus ship crews.
    pub open spec fn costs_spec(self, g: Galaxy) -> int {
        cap64(stations_wages(g, self.stations@) + ships_wages(self.ships@))
    }

    /// A new player owning one station, with the starting money; the
    /// id is the FNV-1a hash of the name reduced modulo `u16::MAX`.
    pub fn new(station: (StationId, SpaceCoord), name: String) -> (p: Player)
        ensures
            p.wf(),
            p.money == INIT_MONEY,
            p.costs == 0,
            !p.lost,
            p.name == name,
            p.stations@.len() == 1 && p.stations@[0] == station,
            p.ships@.len() == 0,
            p.id == fnv1a_spec(bytes_of(name@), 0xcbf29ce484222325) as int % 0xFFFF,
    {
        let bytes = str_bytes(name.as_str());
        let h = fnv1a(&bytes, 0xcbf29ce484222325);
        let id = (h % 0xFFFF) as u16;
        let key = random_key_bytes();
        let mut stations: Vec<(StationId, SpaceCoord)> = Vec::new();
        stations.push(station);
        Player {
            id,
            key,
            lost: false,
            name,
            money: INIT_MONEY,
            costs: 0,
            stations,
            ships: Vec::new(),
        }
    }

    /// The base64 form of the player's secret key.
    pub fn key_b64(&self) -> (k: String)
        requires
            self.wf(),
        ensures
            k@ == b64_of(self.key@),
            k@.len() == 172,
    {
        b64_encode(&self.key)
    }

    /// Index of the owned ship with this id.
    pub fn find_ship(&self, id: ShipId) -> (r: Option<usize>)
        requires
            self.wf(),
        ensures
            match r {
                Some(i) => i < self.ships@.len() && self.ships@[i as int].id == id
                    && self.has_ship(id) && i == self.ship_idx(id),
                None => !self.has_ship(id),
            },
    {
        let mut i: usize = 0;
        while i < self.ships.len()
            invariant
                self.wf(),
                i <= self.ships@.len(),
                forall|j: int| 0 <= j < i ==> (#[trigger] self.ships@[j]).id != id,
            decreases self.ships@.len() - i,
        {
            if self.ships[i].id == id {
                proof {
                    assert(self.has_ship(id));
                    let j = self.ship_idx(id);
                    if j < i {
                        assert(self.ships@[j].id != self.ships@[i as int].id);
                    } else if i < j {
                        assert(self.ships@[i as int].id != self.ships@[j].id);
                    }
                }
                return Some(i);
            }
            i = i + 1;
        }
        None
    }

    /// Coordinate of the owned station with this id.
    pub fn find_station(&self, id: StationId) -> (r: Option<SpaceCoord>)
        requires
            self.wf(),
        ensures
            match r {
                Some(c) => self.owns_station(id) && c == self.station_coord_spec(id),
                None => !self.owns_station(id),
            },
    {
        let mut i: usize = 0;
        while i < self.stations.len()
            invariant
                self.wf(),
                i <= self.stations@.len(),
                forall|j: int| 0 <= j < i ==> (#[trigger] self.stations@[j]).0 != id,
            decreases self.stations@.len() - i,
        {
            if self.stations[i].0 == id {
                proof {
                    assert(self.owns_station(id));
                    let j = choose|j: int|
                        0 <= j < self.stations@.len() && (#[trigger] self.stations@[j]).0
                            == id;
                    if j < i {
                        assert(self.stations@[j].0 != self.stations@[i as int].0);
                    } else if i < j {
                        assert(self.stations@[i as int].0 != self.stations@[j].0);
                    }
                }
                return Some(self.stations[i].1);
            }
            i = i + 1;
        }
        None
    }

    /// Recompute the wage bill from the galaxy and the owned ships.
    pub fn update_wages(&mut self, galaxy: &Galaxy)
        requires
            old(self).wf(),
            galaxy.wf(),
        ensures
            final(self).wf(),
            *final(self) == (Player { costs: final(self).costs, ..*old(self) }),
            final(self).costs == old(self).costs_spec(*galaxy),
    {
        let mut acc: u64 = 0;
        let mut i: usize = 0;
        while i < self.stations.len()
            invariant
                self.wf(),
                galaxy.wf(),
                i <= self.stations@.len(),
                acc == stations_wages(*galaxy, self.stations@.take(i as int)),
            decreases self.stations@.len() - i,
        {
            let coord = self.stations[i].1;
            let term: u64 = match galaxy.get_station(&coord) {
                Some(k) => {
                    let a = galaxy.stations[k].crew.sum_wages();
                    let b = galaxy.stations[k].idle_crew.sum_wages();
                    if a > u64::MAX - b {
                        u64::MAX
                    } else {
                        a + b
                    }
                },
                None => 0,
            };
            acc = if acc > u64::MAX - term {
                u64::MAX
            } else {
                acc + term
            };
            proof {
                assert(self.stations@.take(i + 1).drop_last() =~= self.stations@.take(i as int));
                assert(self.stations@.take(i + 1).last() == self.stations@[i as int]);
            }
            i = i + 1;
        }
        proof {
            assert(self.stations@.take(self.stations@.len() as int) =~= self.stations@);
        }
        let mut total = acc;
        let ghost stpart = acc;
        let mut j: usize = 0;
        while j < self.ships.len()
            invariant
                self.wf(),
                j <= self.ships@.len(),
                total == cap64(stpart + ships_wages(self.ships@.take(j as int))),
                stpart == stations_wages(*galaxy, self.stations@),
            decreases self.ships@.len() - j,
        {
            let w = self.ships[j].crew.sum_wages();
            total = if total > u64::MAX - w {
                u64::MAX
            } else {
                total + w
            };
            proof {
                assert(self.ships@.take(j + 1).drop_last() =~= self.ships@.take(j as int));
                assert(self.ships@.take(j + 1).last() == self.ships@[j as int]);
            }
            j = j + 1;
        }
        proof {
            assert(self.ships@.take(self.ships@.len() as int) =~= self.ships@);
        }
        self.costs = total;
    }

    /// One wage tick: bill `costs * tdelta`, warn when the runway first
    /// drops below a minute, and mark the game lost when the wallet
    /// goes negative.
    pub fn update_money(&mut self, fifos: &mut SyslogFifos, now_ms: u64, tdelta_ms: u64)
        requires
            old(self).wf(),
            old(fifos).wf(),
            tdelta_ms <= 60000,
        ensures
            final(self).wf(),
            final(fifos).wf(),
            final(self).money == money_sub(
                old(self).money as int,
                old(self).costs * tdelta_ms / 1000,
            ),
            *final(self) == (Player {
                money: final(self).money,
                lost: final(self).lost,
                ..*old(self)
            }),
            final(self).lost == (old(self).lost || final(self).money < 0),
            old(self).lost ==> final(self).lost,
            final(fifos).queue_of(old(self).id) == money_events_spec(
                *old(self),
                old(fifos).queue_of(old(self).id),
                now_ms,
                tdelta_ms as int,
            ),
            forall|p: PlayerId|
                p != old(self).id ==> final(fifos).queue_of(p) == old(fifos).queue_of(p),
    {
        let costs = self.costs;
        proof {
            assert(costs * tdelta_ms <= 0xFFFFFFFFFFFFFFFFu64 * 60000) by (nonlinear_arith)
                requires
                    costs <= 0xFFFFFFFFFFFFFFFFu64,
                    tdelta_ms <= 60000,
            ;
        }
        let bill128: u128 = (costs as u128) * (tdelta_ms as u128) / 1000;
        let before = (self.money as i128) < (costs as i128) * 60;
        let m: i128 = (self.money as i128) - (bill128 as i128);
        self.money = if m < i64::MIN as i128 {
            i64::MIN
        } else {
            m as i64
        };
        let after = (self.money as i128) < (costs as i128) * 60;
        if after && !before {
            let tleft: u64 = if self.money > 0 && costs > 0 {
                let t: u128 = (self.money as u128) * 1000 / (costs as u128);
                if t > u64::MAX as u128 {
                    u64::MAX
                } else {
                    t as u64
                }
            } else {
                0
            };
            fifos.add_to_fifo(self.id, now_ms, SyslogEvent::LowFunds(tleft));
        }
        if self.money < 0 && !self.lost {
            self.lost = true;
            fifos.add_to_fifo(self.id, now_ms, SyslogEvent::GameLost);
        }
    }

    /// Buy the shipyard hull with this id: pay its price, board it with
    /// a full tank, and let the yard restock to three.
    pub fn buy_ship(&mut self, station: &mut Station, id: ShipId) -> (r: Result<ShipId, Errcode>)
        requires
            old(self).wf(),
            old(station).wf(),
            forall|i: int|
                0 <= i < old(self).ships@.len() ==> (#[trigger] old(self).ships@[i]).id != id,
        ensures
            final(self).wf(),
            final(self).id == old(self).id,
            final(self).key@ == old(self).key@,
            final(self).lost == old(self).lost,
            final(self).stations@ == old(self).stations@,
            final(station).wf(),
            final(station).id == old(station).id,
            final(station).position == old(station).position,
            ({
                let has = exists|i: int|
                    0 <= i < old(station).shipyard@.len() && (#[trigger] old(
                    station,
                ).shipyard@[i]).id == id;
                match r {
                    Ok(rid) => {
                        &&& rid == id
                        &&& has
                        &&& final(station).shipyard@.len() == old(station).shipyard@.len()
                        &&& final(self).ships@.len() == old(self).ships@.len() + 1
                        &&& final(self).ships@.take(old(self).ships@.len() as int) == old(self).ships@
                        &&& final(self).ships@.last().id == id
                        &&& exists|i: int|
                            {
                                &&& 0 <= i < old(station).shipyard@.len()
                                &&& (#[trigger] old(station).shipyard@[i]).id == id
                                &&& forall|j: int|
                                    i < j < old(station).shipyard@.len() ==> (#[trigger] old(station).shipyard@[j]).id != id
                                &&& old(self).money >= 0
                                &&& old(station).shipyard@[i].price_spec() <= old(self).money
                                &&& final(self).money == old(self).money - old(station).shipyard@[i].price_spec()
                                &&& final(self).ships@.last() == (Ship {
                                    fuel_tank: old(station).shipyard@[i].fuel_tank_capacity,
                                    stats: Ship::perf_stats_spec(
                                        old(station).shipyard@[i].reactor_power,
                                        match old(station).shipyard@[i].pilot {
                                            Some(pid) => Some(
                                                old(station).shipyard@[i].crew.member_spec(
                                                    pid,
                                                ).rank,
                                            ),
                                            None => None,
                                        },
                                    ),
                                    ..old(station).shipyard@[i]
                                })
                                &&& final(station).shipyard@ == old(station).shipyard@.remove(
                                    i,
                                ).push(final(station).shipyard@.last())
                            }
                        &&& final(station).shipyard@.last().wf()
                        &&& final(station).shipyard@.last().position == old(station).position
                        &&& final(station).shipyard@.last().state is Idle
                        &&& final(station).shipyard@.last().modules@.len() == 0
                        &&& final(station).shipyard@.last().pilot is None
                        &&& *final(self) == (Player {
                            money: final(self).money,
                            ships: final(self).ships,
                            ..*old(self)
                        })
                        &&& *final(station) == (Station {
                            shipyard: final(station).shipyard,
                            ..*old(station)
                        })
                    },
                    Err(e) => {
                        &&& *final(self) == *old(self)
                        &&& *final(station) == *old(station)
                        &&& (e is ShipNotFound || e is NotEnoughMoney)
                        &&& (e is ShipNotFound <==> !has)
                        &&& (e is NotEnoughMoney <==> exists|i: int|
                            {
                                &&& 0 <= i < old(station).shipyard@.len()
                                &&& (#[trigger] old(station).shipyard@[i]).id == id
                                &&& forall|j: int|
                                    i < j < old(station).shipyard@.len() ==> (#[trigger] old(station).shipyard@[j]).id != id
                                &&& !(old(self).money >= 0 && old(station).shipyard@[
                                    i].price_spec() <= old(self).money)
                            })
                    },
                }
            }),
    {
        let mut index: usize = 0;
        let mut found = false;
        let mut i: usize = 0;
        while i < station.shipyard.len()
            invariant
                i <= station.shipyard@.len(),
                !found ==> forall|j: int|
                    0 <= j < i ==> (#[trigger] station.shipyard@[j]).id != id,
                found ==> index < i <= station.shipyard@.len() && station.shipyard@[
                    index as int].id == id && forall|j: int|
                    index < j < i ==> (#[trigger] station.shipyard@[j]).id != id,
            decreases station.shipyard@.len() - i,
        {
            if station.shipyard[i].id == id {
                index = i;
                found = true;
            }
            i = i + 1;
        }
        if !found {
            return Err(Errcode::ShipNotFound(id));
        }
        let price = station.shipyard[index].compute_price();
        if self.money < 0 || price > (self.money as u64) {
            return Err(Errcode::NotEnoughMoney(self.money, price));
        }
        let ghost oldships = self.ships@;
        let mut ship = station.shipyard.remove(index);
        ship.update_perf_stats();
        ship.fuel_tank = ship.fuel_tank_capacity;
        self.money = self.money - (price as i64);
        self.ships.push(ship);
        let pos = station.position;
        station.shipyard.push(Ship::random(pos));
        proof {
            assert(self.ships@.take(oldships.len() as int) =~= oldships);
        }
        Ok(id)
    }

    /// Buy a fresh module for a docked ship.
    pub fn buy_ship_module(&mut self, station_id: StationId, ship_id: ShipId,
        modtype: ShipModuleType) -> (r: Result<ShipModuleId, Errcode>)
        requires
            old(self).wf(),
        ensures
            final(self).wf(),
            final(self).id == old(self).id,
            final(self).key@ == old(self).key@,
            final(self).lost == old(self).lost,
            final(self).stations@ == old(self).stations@,
            ({
                let owns = old(self).owns_station(station_id);
                let hass = old(self).has_ship(ship_id);
                let si = old(self).ship_idx(ship_id);
                let docked = owns && hass && old(self).ships@[si].position == old(self).station_coord_spec(station_id);
                let affordable = old(self).money >= 0 && MODULE_BUY_PRICE <= old(self).money;
                match r {
                    Ok(mid) => {
                        &&& docked
                        &&& affordable
                        &&& final(self).money == old(self).money - MODULE_BUY_PRICE
                        &&& final(self).ships@ == old(self).ships@.update(
                            si,
                            final(self).ships@[si],
                        )
                        &&& final(self).ships@[si].modules@ == old(self).ships@[si].modules@.push(
                            (
                                mid,
                                crate::module::ShipModule {
                                    operator: None,
                                    modtype,
                                    rank: 1,
                                    totalcost: 0,
                                },
                            ),
                        )
                        &&& final(self).ships@[si] == (Ship {
                            modules: final(self).ships@[si].modules,
                            next_module_id: final(self).ships@[si].next_module_id,
                            ..old(self).ships@[si]
                        })
                        &&& *final(self) == (Player {
                            money: final(self).money,
                            ships: final(self).ships,
                            ..*old(self)
                        })
                    },
                    Err(e) => {
                        &&& final(self).money == old(self).money
                        &&& final(self).costs == old(self).costs
                        &&& final(self).name == old(self).name
                        &&& final(self).ships@ == old(self).ships@
                        &&& (e is NoSuchStation <==> !owns)
                        &&& (e is ShipNotFound <==> owns && !hass)
                        &&& (e is ShipNotInStation <==> owns && hass && !docked)
                        &&& (e is NotEnoughMoney <==> docked && !affordable)
                        &&& (e is InvalidArgument <==> docked && affordable && old(self).ships@[si].next_module_id == u16::MAX)
                        &&& (e is NoSuchStation || e is ShipNotFound
                            || e is ShipNotInStation || e is NotEnoughMoney
                            || e is InvalidArgument)
                    },
                }
            }),
    {
        let coord = match self.find_station(station_id) {
            Some(c) => c,
            None => {
                return Err(Errcode::NoSuchStation(station_id));
            },
        };
        let si = match self.find_ship(ship_id) {
            Some(i) => i,
            None => {
                return Err(Errcode::ShipNotFound(ship_id));
            },
        };
        if !coords_eq(self.ships[si].position, coord) {
            return Err(Errcode::ShipNotInStation);
        }
        let price = modtype.get_price_buy();
        if self.money < 0 || price > (self.money as u64) {
            return Err(Errcode::NotEnoughMoney(self.money, price));
        }
        let ship = &mut self.ships[si];
        let added = ship.add_module(modtype);
        match added {
            Some(mid) => {
                self.money = self.money - (price as i64);
                proof {
                    assert(self.ships@ =~= old(self).ships@.update(
                        si as int,
                        self.ships@[si as int],
                    ));
                }
                Ok(mid)
            },
            None => Err(Errcode::InvalidArgument("module")),
        }
    }

    /// Buy and install a fixed upgrade for an owned ship.
    pub fn buy_ship_upgrade(&mut self, station: &mut Station, ship_id: ShipId,
        upgrade: &ShipUpgrade) -> (r: Result<u64, Errcode>)
        requires
            old(self).wf(),
            old(station).wf(),
        ensures
            final(self).wf(),
            final(self).id == old(self).id,
            final(self).key@ == old(self).key@,
            final(self).lost == old(self).lost,
            final(self).stations@ == old(self).stations@,
            final(station).wf(),
            final(station).id == old(station).id,
            final(station).position == old(station).position,
            ({
                let hass = old(self).has_ship(ship_id);
                let si = old(self).ship_idx(ship_id);
                let affordable = old(self).money >= 0 && upgrade.price_spec() <= old(self).money;
                match r {
                    Ok(price) => {
                        &&& price == upgrade.price_spec()
                        &&& hass
                        &&& affordable
                        &&& final(self).money == old(self).money - price
                        &&& final(self).ships@ == old(self).ships@.update(
                            si,
                            final(self).ships@[si],
                        )
                        &&& final(self).ships@[si] == (Ship {
                            reactor_power: final(self).ships@[si].reactor_power,
                            hull_decay_capacity: final(self).ships@[si].hull_decay_capacity,
                            cargo: final(self).ships@[si].cargo,
                            stats: final(self).ships@[si].stats,
                            ..old(self).ships@[si]
                        })
                        &&& (*upgrade is CargoExpansion ==> final(self).ships@[si].cargo.capacity == cap64(
                            old(self).ships@[si].cargo.capacity + 100000000000,
                        ))
                        &&& (*upgrade is ReactorUpgrade ==> final(self).ships@[si].reactor_power as int == (
                        if old(self).ships@[si].reactor_power < u16::MAX {
                            old(self).ships@[si].reactor_power + 1
                        } else {
                            u16::MAX as int
                        }))
                        &&& (*upgrade is HullUpgrade ==> final(self).ships@[si].hull_decay_capacity == cap64(
                            old(self).ships@[si].hull_decay_capacity + 100000000,
                        ))
                        &&& *final(self) == (Player {
                            money: final(self).money,
                            ships: final(self).ships,
                            ..*old(self)
                        })
                        &&& *final(station) == *old(station)
                    },
                    Err(e) => {
                        &&& *final(self) == *old(self)
                        &&& *final(station) == *old(station)
                        &&& (e is ShipNotFound <==> !hass)
                        &&& (e is NotEnoughMoney <==> hass && !affordable)
                        &&& (e is ShipNotFound || e is NotEnoughMoney)
                    },
                }
            }),
    {
        let si = match self.find_ship(ship_id) {
            Some(i) => i,
            None => {
                return Err(Errcode::ShipNotFound(ship_id));
            },
        };
        let price = station.get_ship_upgrade_price(upgrade);
        if self.money < 0 || price > (self.money as u64) {
            return Err(Errcode::NotEnoughMoney(self.money, price));
        }
        self.money = self.money - (price as i64);
        let ship = &mut self.ships[si];
        upgrade.install(ship);
        proof {
            assert(self.ships@ =~= old(self).ships@.update(si as int, self.ships@[si as int]));
        }
        Ok(price)
    }

    /// Raise the rank of a module of a docked ship.
    pub fn buy_ship_module_upgrade(&mut self, station: &Station, ship_id: ShipId,
        mod_id: ShipModuleId) -> (r: Result<(u64, u8), Errcode>)
        requires
            old(self).wf(),
        ensures
            final(self).wf(),
            final(self).id == old(self).id,
            final(self).key@ == old(self).key@,
            final(self).lost == old(self).lost,
            final(self).stations@ == old(self).stations@,
            ({
                let hass = old(self).has_ship(ship_id);
                let si = old(self).ship_idx(ship_id);
                let docked = hass && old(self).ships@[si].position == station.position;
                let hasm = exists|i: int|
                    0 <= i < old(self).ships@[si].modules@.len() && (#[trigger] old(self).ships@[si].modules@[i]).0 == mod_id;
                let mi = choose|i: int|
                    0 <= i < old(self).ships@[si].modules@.len() && (#[trigger] old(self).ships@[si].modules@[i]).0 == mod_id;
                let m = old(self).ships@[si].modules@[mi].1;
                let affordable = old(self).money >= 0 && module_price_next_milli(
                    m.rank as int,
                ) <= old(self).money;
                match r {
                    Ok((price, newrank)) => {
                        &&& docked
                        &&& hasm
                        &&& m.rank < 255
                        &&& affordable
                        &&& price == module_price_next_milli(m.rank as int)
                        &&& newrank == m.rank + 1
                        &&& final(self).money == old(self).money - price
                        &&& final(self).ships@ == old(self).ships@.update(
                            si,
                            final(self).ships@[si],
                        )
                        &&& final(self).ships@[si].modules@ == old(self).ships@[si].modules@.update(
                            mi,
                            (
                                mod_id,
                                crate::module::ShipModule {
                                    operator: m.operator,
                                    modtype: m.modtype,
                                    rank: newrank,
                                    totalcost: m.totalcost,
                                },
                            ),
                        )
                        &&& final(self).ships@[si] == (Ship {
                            modules: final(self).ships@[si].modules,
                            ..old(self).ships@[si]
                        })
                        &&& *final(self) == (Player {
                            money: final(self).money,
                            ships: final(self).ships,
                            ..*old(self)
                        })
                    },
                    Err(e) => {
                        &&& *final(self) == *old(self)
                        &&& (e is ShipNotFound <==> !hass)
                        &&& (e is ShipNotInStation <==> hass && !docked)
                        &&& (e is NoSuchModule <==> docked && !hasm)
                        &&& (e is InvalidArgument <==> docked && hasm && m.rank == 255)
                        &&& (e is NotEnoughMoney <==> docked && hasm && m.rank < 255
                            && !affordable)
                        &&& (e is ShipNotFound || e is ShipNotInStation || e is NoSuchModule
                            || e is InvalidArgument || e is NotEnoughMoney)
                    },
                }
            }),
    {
        let si = match self.find_ship(ship_id) {
            Some(i) => i,
            None => {
                return Err(Errcode::ShipNotFound(ship_id));
            },
        };
        if !coords_eq(self.ships[si].position, station.position) {
            return Err(Errcode::ShipNotInStation);
        }
        let mi = match self.ships[si].find_module(mod_id) {
            Some(i) => i,
            None => {
                return Err(Errcode::NoSuchModule(mod_id));
            },
        };
        proof {
            let w = choose|w: int|
                0 <= w < self.ships@[si as int].modules@.len() && (#[trigger] self.ships@[
                si as int].modules@[w]).0 == mod_id;
            if w < mi {
                assert(self.ships@[si as int].modules@[w].0 != self.ships@[si as int].modules@[
                mi as int].0);
            } else if mi < w {
                assert(self.ships@[si as int].modules@[mi as int].0 != self.ships@[
                si as int].modules@[w].0);
            }
        }
        let m = self.ships[si].modules[mi].1;
        if m.rank == 255 {
            return Err(Errcode::InvalidArgument("rank"));
        }
        let price = m.price_next_rank();
        if self.money < 0 || price > (self.money as u64) {
            return Err(Errcode::NotEnoughMoney(self.money, price));
        }
        self.money = self.money - (price as i64);
        let mid = self.ships[si].modules[mi].0;
        let ship = &mut self.ships[si];
        let slot = &mut ship.modules[mi];
        *slot = (
            mid,
            crate::module::ShipModule {
                operator: m.operator,
                modtype: m.modtype,
                rank: m.rank + 1,
                totalcost: m.totalcost,
            },
        );
        proof {
            assert forall|a: int|
                0 <= a < ship.modules@.len() && (#[trigger] ship.modules@[a]).1.operator
                    is Some implies ship.crew.contains_id(ship.modules@[a].1.operator->Some_0)
                by {
                assert(old(self).ships@[si as int].modules@[a].1.operator
                    == ship.modules@[a].1.operator);
            }
        }
        proof {
            assert(self.ships@ =~= old(self).ships@.update(si as int, self.ships@[si as int]));
        }
        Ok((price, m.rank + 1))
    }

    /// Raise the rank of a crew member of a docked ship and refresh the
    /// ship's stats.
    pub fn upgrade_crew_rank(&mut self, station: &Station, ship_id: ShipId, crew_id: CrewId) -> (
        r: Result<(u64, u8), Errcode>)
        requires
            old(self).wf(),
        ensures
            final(self).wf(),
            final(self).id == old(self).id,
            final(self).key@ == old(self).key@,
            final(self).lost == old(self).lost,
            final(self).stations@ == old(self).stations@,
            ({
                let hass = old(self).has_ship(ship_id);
                let si = old(self).ship_idx(ship_id);
                let docked = hass && old(self).ships@[si].position == station.position;
                let hasm = docked && old(self).ships@[si].crew.contains_id(crew_id);
                let member = old(self).ships@[si].crew.member_spec(crew_id);
                let wageprice = RANK_PRICE_WAGE_MULT * member.wage_spec();
                let affordable = old(self).money >= 0 && wageprice <= old(self).money;
                match r {
                    Ok((price, newrank)) => {
                        &&& hasm
                        &&& member.rank < 255
                        &&& affordable
                        &&& price == wageprice
                        &&& newrank == member.rank + 1
                        &&& final(self).money == old(self).money - price
                        &&& final(self).ships@ == old(self).ships@.update(
                            si,
                            final(self).ships@[si],
                        )
                        &&& final(self).ships@[si].crew.contains_id(crew_id)
                        &&& final(self).ships@[si].crew.member_spec(crew_id) == (CrewMember {
                            member_type: member.member_type,
                            rank: newrank,
                        })
                        &&& final(self).ships@[si].crew.0@.len() == old(self).ships@[si].crew.0@.len()
                        &&& final(self).ships@[si].stats == Ship::perf_stats_spec(
                            old(self).ships@[si].reactor_power,
                            match old(self).ships@[si].pilot {
                                Some(pid) => Some(
                                    final(self).ships@[si].crew.member_spec(pid).rank,
                                ),
                                None => None,
                            },
                        )
                        &&& final(self).ships@[si] == (Ship {
                            crew: final(self).ships@[si].crew,
                            stats: final(self).ships@[si].stats,
                            ..old(self).ships@[si]
                        })
                        &&& *final(self) == (Player {
                            money: final(self).money,
                            ships: final(self).ships,
                            ..*old(self)
                        })
                    },
                    Err(e) => {
                        &&& final(self).money == old(self).money
                        &&& final(self).costs == old(self).costs
                        &&& final(self).name == old(self).name
                        &&& final(self).ships@ == old(self).ships@
                        &&& (e is ShipNotFound <==> !hass)
                        &&& (e is ShipNotInStation <==> hass && !docked)
                        &&& (e is CrewMemberNotFound <==> docked && !hasm)
                        &&& (e is InvalidArgument <==> hasm && member.rank == 255)
                        &&& (e is NotEnoughMoney <==> hasm && member.rank < 255
                            && !affordable)
                        &&& (e is ShipNotFound || e is ShipNotInStation
                            || e is CrewMemberNotFound || e is InvalidArgument
                            || e is NotEnoughMoney)
                    },
                }
            }),
    {
        let si = match self.find_ship(ship_id) {
            Some(i) => i,
            None => {
                return Err(Errcode::ShipNotFound(ship_id));
            },
        };
        if !coords_eq(self.ships[si].position, station.position) {
            return Err(Errcode::ShipNotInStation);
        }
        let cm = match self.ships[si].crew.get(crew_id) {
            Some(cm) => *cm,
            None => {
                return Err(Errcode::CrewMemberNotFound(crew_id));
            },
        };
        proof {
            let g = self.ships@[si as int].crew;
            assert(g.0@[g.idx_of(crew_id)].1.wf());
        }
        if cm.rank == 255 {
            return Err(Errcode::InvalidArgument("rank"));
        }
        let price = cm.price_next_rank();
        if self.money < 0 || price > (self.money as u64) {
            return Err(Errcode::NotEnoughMoney(self.money, price));
        }
        self.money = self.money - (price as i64);
        let ship = &mut self.ships[si];
        let res = ship.crew.rank_up(crew_id);
        proof {
            match res {
                Some(nr) => {
                    let c0 = old(self).ships@[si as int].crew;
                    let c1 = ship.crew;
                    let i = choose|i: int|
                        {
                            &&& 0 <= i < c0.0@.len()
                            &&& c0.0@[i].0 == crew_id
                            &&& c0.0@[i].1.rank < 255
                            &&& nr == c0.0@[i].1.rank + 1
                            &&& c1.0@ == c0.0@.update(
                                i,
                                (
                                    crew_id,
                                    crate::crew::CrewMember {
                                        member_type: c0.0@[i].1.member_type,
                                        rank: nr,
                                    },
                                ),
                            )
                        };
                    let upgraded = crate::crew::CrewMember {
                        member_type: c0.0@[i].1.member_type,
                        rank: nr,
                    };
                    assert forall|a: int|
                        0 <= a < ship.modules@.len() && (#[trigger] ship.modules@[
                        a]).1.operator is Some implies c1.contains_id(
                        ship.modules@[a].1.operator->Some_0) by {
                        crate::crew::Crew::lemma_member_after_update(
                            c0,
                            c1,
                            i,
                            crew_id,
                            upgraded,
                            ship.modules@[a].1.operator->Some_0,
                        );
                    }
                    match ship.pilot {
                        Some(pid) => {
                            crate::crew::Crew::lemma_member_after_update(
                                c0,
                                c1,
                                i,
                                crew_id,
                                upgraded,
                                pid,
                            );
                            if pid == crew_id {
                                let j = c0.idx_of(pid);
                                if j < i {
                                    assert(c0.0@[j].0 != c0.0@[i].0);
                                } else if i < j {
                                    assert(c0.0@[i].0 != c0.0@[j].0);
                                }
                            }
                        },
                        None => {},
                    }
                },
                None => {},
            }
        }
        let newrank = match res {
            Some(rk) => rk,
            None => {
                proof {
                    let cpre = old(self).ships@[si as int].crew;
                    assert(cpre.contains_id(crew_id));
                    assert(cpre.member_spec(crew_id).rank < 255);
                    assert(false);
                }
                return Err(Errcode::CrewMemberNotFound(crew_id));
            },
        };
        ship.update_perf_stats();
        proof {
            assert(self.ships@ =~= old(self).ships@.update(si as int, self.ships@[si as int]));
            assert(self.ships@[si as int].crew.contains_id(crew_id));
        }
        Ok((price, newrank))
    }

    /// Raise the rank of the station's trader.
    pub fn upgrade_station_trader(&mut self, station: &mut Station) -> (r: Result<
        (u64, u8),
        Errcode,
    >)
        requires
            old(self).wf(),
            old(station).wf(),
        ensures
            final(self).wf(),
            final(self).id == old(self).id,
            final(self).key@ == old(self).key@,
            final(self).lost == old(self).lost,
            final(self).stations@ == old(self).stations@,
            final(station).wf(),
            final(station).id == old(station).id,
            final(station).position == old(station).position,
            ({
                let has_trader = old(station).trader is Some;
                let member = old(station).crew.member_spec(old(station).trader->Some_0);
                let wageprice = RANK_PRICE_WAGE_MULT * member.wage_spec();
                let affordable = old(self).money >= 0 && wageprice <= old(self).money;
                match r {
                    Ok((price, newrank)) => {
                        &&& has_trader
                        &&& member.rank < 255
                        &&& affordable
                        &&& price == wageprice
                        &&& newrank == member.rank + 1
                        &&& final(self).money == old(self).money - price
                        &&& final(station).crew.contains_id(old(station).trader->Some_0)
                        &&& final(station).crew.member_spec(old(station).trader->Some_0)
                            == (CrewMember { member_type: member.member_type, rank: newrank })
                        &&& final(station).crew.0@.len() == old(station).crew.0@.len()
                        &&& *final(station) == (Station {
                            crew: final(station).crew,
                            ..*old(station)
                        })
                        &&& *final(self) == (Player {
                            money: final(self).money,
                            ..*old(self)
                        })
                    },
                    Err(e) => {
                        &&& final(self).money == old(self).money
                        &&& final(self).ships@ == old(self).ships@
                        &&& final(station).crew.0@ == old(station).crew.0@
                        &&& final(station).trader == old(station).trader
                        &&& (e is NoTraderAssigned <==> !has_trader)
                        &&& (e is InvalidArgument <==> has_trader && member.rank == 255)
                        &&& (e is NotEnoughMoney <==> has_trader && member.rank < 255
                            && !affordable)
                        &&& (e is NoTraderAssigned || e is InvalidArgument
                            || e is NotEnoughMoney)
                    },
                }
            }),
    {
        let trader = match station.trader {
            Some(t) => t,
            None => {
                return Err(Errcode::NoTraderAssigned);
            },
        };
        let cm = match station.crew.get(trader) {
            Some(cm) => *cm,
            None => {
                return Err(Errcode::NoTraderAssigned);
            },
        };
        proof {
            assert(station.crew.0@[station.crew.idx_of(trader)].1.wf());
        }
        if cm.rank == 255 {
            return Err(Errcode::InvalidArgument("rank"));
        }
        let price = cm.price_next_rank();
        if self.money < 0 || price > (self.money as u64) {
            return Err(Errcode::NotEnoughMoney(self.money, price));
        }
        let res = station.crew.rank_up(trader);
        let newrank = match res {
            Some(rk) => rk,
            None => {
                proof {
                    let cpre = old(station).crew;
                    assert(cpre.contains_id(trader));
                    assert(cpre.member_spec(trader).rank < 255);
                    assert(false);
                }
                return Err(Errcode::NoTraderAssigned);
            },
        };
        proof {
            let w = choose|w: int|
                0 <= w < old(station).crew.0@.len() && old(station).crew.0@[w].0 == trader;
            assert(station.crew.0@[w].0 == trader);
        }
        self.money = self.money - (price as i64);
        Ok((price, newrank))
    }
}

/// Component-wise coordinate comparison.
fn coords_eq(a: SpaceCoord, b: SpaceCoord) -> (r: bool)
    ensures
        r == (a == b),
{
    let r = a.0 == b.0 && a.1 == b.1 && a.2 == b.2;
    proof {
        if a.0 == b.0 && a.1 == b.1 && a.2 == b.2 {
            assert(a == b);
        }
    }
    r
}

} // verus!
