//! Ships: identity, derived stats, pricing, and the state machine
//! between idling, flying, and extracting.
//!
//! Fuel and hull are micro-scaled and never leave `[0, capacity]`; a
//! flight that ends normally puts the ship exactly on its destination.

use vstd::prelude::*;

verus! {

use crate::cargo::ShipCargo;
use crate::crew::Crew;
use crate::crew::CrewId;
use crate::crew::CrewMemberType;
use crate::errors::Errcode;
use crate::fixed::cap64;
use crate::fixed::mul_div_sat;
use crate::galaxy::translation;
use crate::galaxy::Galaxy;
use crate::galaxy::SpaceCoord;
use crate::module::ShipModule;
use crate::module::ShipModuleId;
use crate::module::ShipModuleType;
use crate::navigation::FlightData;
use crate::navigation::Travel;
use crate::navigation::TravelCost;
use crate::resources::ExtractionInfo;
use crate::resources::Resource;
use crate::rng::rand_below;
use crate::shipstats::ShipStats;
use crate::station::Station;

pub type ShipId = u64;

/// Upper bounds the derived stats respect, keeping tick arithmetic in
/// 64 bits: speed in milli-units per second, consumption in milli-units
/// per second, hull wear in milli-decay per unit.
pub const MAX_SPEED_MILLI: u64 = 1000000000000;

pub const MAX_FUEL_CONS_MILLI: u64 = 65535000;

pub const MAX_HULL_RATE_MILLI: u64 = 50;

/// The longest tick the simulation ever takes, in milliseconds.
pub const MAX_TICK_MS: u64 = 60000;

#[derive(Debug)]
pub enum ShipState {
    Idle,
    InFlight(FlightData),
    Extracting(ExtractionInfo),
}

#[derive(Debug)]
pub struct Ship {
    pub id: ShipId,
    pub reactor_power: u16,
    /// Micro fuel units.
    pub fuel_tank_capacity: u64,
    /// Micro decay units.
    pub hull_decay_capacity: u64,
    pub modules: Vec<(ShipModuleId, ShipModule)>,
    pub next_module_id: ShipModuleId,
    pub position: SpaceCoord,
    pub crew: Crew,
    pub cargo: ShipCargo,
    /// Micro fuel units.
    pub fuel_tank: u64,
    /// Micro decay units.
    pub hull_decay: u64,
    pub pilot: Option<CrewId>,
    pub state: ShipState,
    pub stats: ShipStats,
}

impl Ship {
    pub open spec fn stats_wf(self) -> bool {
        &&& self.stats.speed <= MAX_SPEED_MILLI
        &&& self.stats.fuel_consumption <= MAX_FUEL_CONS_MILLI
        &&& self.stats.hull_usage_rate <= MAX_HULL_RATE_MILLI
    }

    pub open spec fn modules_wf(self) -> bool {
        &&& forall|i: int, j: int|
            0 <= i < j < self.modules@.len() ==> self.modules@[i].0 != self.modules@[j].0
        &&& forall|i: int|
            0 <= i < self.modules@.len() ==> (#[trigger] self.modules@[i]).1.wf()
                && self.modules@[i].0 < self.next_module_id && (
            self.modules@[i].1.operator is Some ==> self.crew.contains_id(
                self.modules@[i].1.operator->Some_0,
            ))
    }

    pub open spec fn wf(self) -> bool {
        &&& self.fuel_tank <= self.fuel_tank_capacity
        &&& self.hull_decay <= self.hull_decay_capacity
        &&& self.cargo.wf()
        &&& self.crew.wf()
        &&& self.reactor_power >= 1
        &&& self.stats_wf()
        &&& self.modules_wf()
        &&& (self.pilot is Some ==> self.crew.contains_id(self.pilot->Some_0)
            && self.crew.member_spec(self.pilot->Some_0).member_type == CrewMemberType::Pilot)
        &&& match self.state {
            ShipState::InFlight(fd) => 1 <= fd.dist_tot < 8000000000000 && fd.dist_done
                <= fd.dist_tot,
            _ => true,
        }
    }

    /// Distance the reactor covers in `dt` milliseconds, milli-units.
    pub open spec fn flight_raw_delta(s: Ship, dt: int) -> int {
        s.stats.speed * dt / 1000
    }

    /// Whether this step reaches the end of the flight line.
    pub open spec fn flight_arrives(s: Ship, dt: int) -> bool {
        s.state->InFlight_0.dist_done + Self::flight_raw_delta(s, dt)
            > s.state->InFlight_0.dist_tot
    }

    /// Distance done after the step, clamped at the total.
    pub open spec fn flight_done_after(s: Ship, dt: int) -> int {
        if Self::flight_arrives(s, dt) {
            s.state->InFlight_0.dist_tot as int
        } else {
            s.state->InFlight_0.dist_done + Self::flight_raw_delta(s, dt)
        }
    }

    /// Time actually spent flying: the tick, shrunk proportionally when
    /// the flight line ends inside it.
    pub open spec fn flight_teff(s: Ship, dt: int) -> int {
        if Self::flight_arrives(s, dt) {
            dt - (s.state->InFlight_0.dist_done + Self::flight_raw_delta(s, dt)
                - s.state->InFlight_0.dist_tot) * 1000 / s.stats.speed as int
        } else {
            dt
        }
    }

    /// Fuel burnt in the step, micro-units.
    pub open spec fn flight_fuel_used(s: Ship, dt: int) -> int {
        s.stats.fuel_consumption * Self::flight_teff(s, dt)
    }

    /// The tank runs dry inside the step.
    pub open spec fn flight_fuel_dead(s: Ship, dt: int) -> bool {
        s.fuel_tank <= Self::flight_fuel_used(s, dt)
    }

    /// Hull wear taken in the step, micro-units.
    pub open spec fn flight_hull_inc(s: Ship, dt: int) -> int {
        s.stats.hull_usage_rate * (Self::flight_done_after(s, dt)
            - s.state->InFlight_0.dist_done)
    }

    /// The hull wears out inside the step (fuel death strikes first).
    pub open spec fn flight_hull_dead(s: Ship, dt: int) -> bool {
        !Self::flight_fuel_dead(s, dt) && s.hull_decay + Self::flight_hull_inc(s, dt)
            >= s.hull_decay_capacity
    }

    /// The step ends the flight: arrival, dry tank, or worn hull.
    pub open spec fn flight_finished(s: Ship, dt: int) -> bool {
        Self::flight_fuel_dead(s, dt) || Self::flight_hull_dead(s, dt)
            || Self::flight_arrives(s, dt)
    }

    /// A hull fresh out of the yard: empty tanks, no crew, idle.
    fn hull(id: ShipId, position: SpaceCoord, reactor: u16, fuel_cap_units: u64,
        cargo_cap_units: u64, hull_cap_units: u64) -> (s: Ship)
        requires
            1 <= reactor,
            fuel_cap_units <= 100000,
            cargo_cap_units <= 100000,
            hull_cap_units <= 100000,
        ensures
            s.wf(),
            s.id == id,
            s.position == position,
            s.reactor_power == reactor,
            s.fuel_tank_capacity == fuel_cap_units * 1000000,
            s.cargo.capacity == cargo_cap_units * 1000000000,
            s.hull_decay_capacity == hull_cap_units * 1000000,
            s.fuel_tank == 0,
            s.hull_decay == 0,
            s.state is Idle,
            s.modules@.len() == 0,
            s.crew.0@.len() == 0,
            s.pilot is None,
    {
        Ship {
            id,
            reactor_power: reactor,
            fuel_tank_capacity: fuel_cap_units * 1000000,
            hull_decay_capacity: hull_cap_units * 1000000,
            modules: Vec::new(),
            next_module_id: 1,
            position,
            crew: Crew::new(),
            cargo: ShipCargo::with_capacity(cargo_cap_units * 1000000000),
            fuel_tank: 0,
            hull_decay: 0,
            pilot: None,
            state: ShipState::Idle,
            stats: ShipStats { speed: 0, fuel_consumption: 0, hull_usage_rate: 0 },
        }
    }

    fn light(id: ShipId, position: SpaceCoord) -> (s: Ship)
        ensures
            s.wf(),
            s.id == id,
            s.position == position,
            s.reactor_power == 1,
            s.fuel_tank_capacity == 1000000000,
            s.cargo.capacity == 500000000000,
            s.hull_decay_capacity == 3000000000,
            s.state is Idle,
    {
        Self::hull(id, position, 1, 1000, 500, 3000)
    }

    fn medium(id: ShipId, position: SpaceCoord) -> (s: Ship)
        ensures
            s.wf(),
            s.id == id,
            s.position == position,
            s.state is Idle,
    {
        Self::hull(id, position, 3, 2000, 1000, 6000)
    }

    fn heavy(id: ShipId, position: SpaceCoord) -> (s: Ship)
        ensures
            s.wf(),
            s.id == id,
            s.position == position,
            s.state is Idle,
    {
        Self::hull(id, position, 10, 4000, 3000, 20000)
    }

    /// A random hull for the shipyard: reactor 1-9, tanks and cargo and
    /// hull drawn from the catalogue ranges.
    pub fn random(position: SpaceCoord) -> (s: Ship)
        ensures
            s.wf(),
            s.position == position,
            s.state is Idle,
            s.pilot is None,
            s.crew.0@.len() == 0,
            s.modules@.len() == 0,
            s.fuel_tank == 0,
            s.hull_decay == 0,
            1 <= s.reactor_power <= 9,
            1000000 <= s.fuel_tank_capacity <= 9999000000,
            100000000000 <= s.cargo.capacity <= 9999000000000,
            1000000000 <= s.hull_decay_capacity <= 49999000000,
    {
        let id = rand_below(0xFFFFFFFFFFFFFFFF);
        let reactor = (1 + rand_below(9)) as u16;
        let fuel_cap = 1 + rand_below(9999);
        let cargo_cap = 100 + rand_below(9900);
        let hull_cap = 1000 + rand_below(49000);
        Self::hull(id, position, reactor, fuel_cap, cargo_cap, hull_cap)
    }

    /// The three hulls a new station offers: light, medium, heavy.
    pub fn init_shipyard(position: SpaceCoord) -> (yard: Vec<Ship>)
        ensures
            yard@.len() == 3,
            forall|i: int| 0 <= i < 3 ==> (#[trigger] yard@[i]).wf() && yard@[i].position
                == position && yard@[i].state is Idle,
            yard@[0].reactor_power == 1 && yard@[0].fuel_tank_capacity == 1000000000
                && yard@[0].cargo.capacity == 500000000000 && yard@[0].hull_decay_capacity
                == 3000000000,
    {
        let a = Ship::light(rand_below(0xFFFFFFFFFFFFFFFF), position);
        let b = Ship::medium(rand_below(0xFFFFFFFFFFFFFFFF), position);
        let c = Ship::heavy(rand_below(0xFFFFFFFFFFFFFFFF), position);
        let mut yard: Vec<Ship> = Vec::new();
        yard.push(a);
        yard.push(b);
        yard.push(c);
        proof {
            assert(yard@[0] == a);
            assert(yard@[1] == b);
            assert(yard@[2] == c);
        }
        yard
    }

    /// Total of what the modules cost, clamped to 64 bits.
    pub open spec fn sum_module_costs(s: Seq<(ShipModuleId, ShipModule)>) -> int
        decreases s.len(),
    {
        if s.len() == 0 {
            0
        } else {
            cap64(Self::sum_module_costs(s.drop_last()) + s.last().1.totalcost)
        }
    }

    /// Milli-price of the ship: 300 per reactor point, 3 per fuel unit,
    /// 10 per cargo unit, 5 per hull unit, plus the modules.
    pub open spec fn price_spec(self) -> int {
        cap64(
            300000 * self.reactor_power + 3000 * (self.fuel_tank_capacity / 1000000) + 10000 * (
            self.cargo.capacity / 1000000000) + 5000 * (self.hull_decay_capacity / 1000000)
                + Self::sum_module_costs(self.modules@),
        )
    }

    pub fn compute_price(&self) -> (p: u64)
        ensures
            p == self.price_spec(),
    {
        let base: u64 = 300000 * (self.reactor_power as u64);
        let p1 = sat_add(base, mul_div_sat(3000, self.fuel_tank_capacity / 1000000, 1));
        let p2 = sat_add(p1, mul_div_sat(10000, self.cargo.capacity / 1000000000, 1));
        let p3 = sat_add(p2, mul_div_sat(5000, self.hull_decay_capacity / 1000000, 1));
        let mut total = p3;
        let mut i: usize = 0;
        while i < self.modules.len()
            invariant
                i <= self.modules@.len(),
                total == cap64(
                    300000 * self.reactor_power + 3000 * (self.fuel_tank_capacity / 1000000)
                        + 10000 * (self.cargo.capacity / 1000000000) + 5000 * (
                    self.hull_decay_capacity / 1000000) + Self::sum_module_costs(
                        self.modules@.take(i as int),
                    ),
                ),
            decreases self.modules@.len() - i,
        {
            let c = self.modules[i].1.totalcost;
            total = sat_add(total, c);
            proof {
                assert(self.modules@.take(i + 1).drop_last() =~= self.modules@.take(i as int));
                assert(self.modules@.take(i + 1).last() == self.modules@[i as int]);
            }
            i = i + 1;
        }
        proof {
            assert(self.modules@.take(self.modules@.len() as int) =~= self.modules@);
        }
        total
    }

    /// What the derived stats must be, given reactor and pilot rank.
    pub open spec fn perf_stats_spec(reactor: u16, pilot_rank: Option<u8>) -> ShipStats {
        match pilot_rank {
            Some(rank) => ShipStats {
                speed: (reactor * 50000 * rank) as u64,
                fuel_consumption: (reactor * 20 * (if rank < 50 {
                    50 - rank
                } else {
                    0
                })) as u64,
                hull_usage_rate: 50u64,
            },
            None => ShipStats {
                speed: 0u64,
                fuel_consumption: (reactor * 1000) as u64,
                hull_usage_rate: 50u64,
            },
        }
    }

    /// Recompute speed, fuel consumption, and hull wear from the
    /// reactor and the pilot.  Without a pilot the ship cannot move.
    pub fn update_perf_stats(&mut self)
        requires
            old(self).wf(),
        ensures
            final(self).wf(),
            *final(self) == (Ship {
                stats: Self::perf_stats_spec(
                    old(self).reactor_power,
                    match old(self).pilot {
                        Some(id) => Some(old(self).crew.member_spec(id).rank),
                        None => None,
                    },
                ),
                ..*old(self)
            }),
    {
        let reactor = self.reactor_power as u64;
        let stats = match self.pilot {
            Some(pid) => {
                let rank = match self.crew.get(pid) {
                    Some(cm) => cm.rank,
                    None => 1,
                };
                let share: u64 = if rank < 50 {
                    (50 - rank) as u64
                } else {
                    0
                };
                proof {
                    assert(reactor * 50000 * rank <= 65535 * 50000 * 255 && reactor * 20
                        * share <= 65535 * 20 * 50) by (nonlinear_arith)
                        requires
                            reactor <= 65535,
                            rank <= 255,
                            share <= 50,
                    ;
                }
                ShipStats {
                    speed: reactor * 50000 * (rank as u64),
                    fuel_consumption: reactor * 20 * share,
                    hull_usage_rate: 50,
                }
            },
            None => ShipStats {
                speed: 0,
                fuel_consumption: reactor * 1000,
                hull_usage_rate: 50,
            },
        };
        self.stats = stats;
    }

    /// Cost of a trip to `destination` for an idle ship.
    pub fn compute_travel_costs(&self, destination: SpaceCoord) -> (r: Result<
        TravelCost,
        Errcode,
    >)
        requires
            self.wf(),
        ensures
            !(self.state is Idle) <==> r == Result::<TravelCost, Errcode>::Err(
                Errcode::ShipNotIdle,
            ),
    {
        match self.state {
            ShipState::Idle => {
                let travel = Travel::new(destination);
                let r = travel.compute_costs(self);
                proof {
                    if r is Err {
                        assert(!(r->Err_0 is ShipNotIdle));
                    }
                }
                r
            },
            _ => Err(Errcode::ShipNotIdle),
        }
    }

    /// Start a flight: only from idle, with a pilot, over a real
    /// distance, and within the fuel and hull budget.
    pub fn set_travel(&mut self, destination: SpaceCoord) -> (r: Result<TravelCost, Errcode>)
        requires
            old(self).wf(),
        ensures
            final(self).wf(),
            match r {
                Ok(cost) => {
                    &&& old(self).state is Idle
                    &&& old(self).pilot is Some
                    &&& old(self).position != destination
                    &&& cost.distance == crate::galaxy::distance_milli_spec(
                        old(self).position,
                        destination,
                    )
                    &&& cost.duration_ms == cost.distance as int * 1000
                        / old(self).stats.speed as int
                    &&& cost.fuel_consumption == cap64(
                        old(self).stats.fuel_consumption * cost.duration_ms,
                    )
                    &&& cost.hull_usage == cap64(
                        old(self).stats.hull_usage_rate * cost.distance,
                    )
                    &&& old(self).fuel_tank >= cost.fuel_consumption
                    &&& old(self).hull_decay_capacity - old(self).hull_decay >= cost.hull_usage
                    &&& final(self).state matches ShipState::InFlight(fd) && fd.start == old(self).position && fd.destination == destination && fd.dist_done == 0
                        && fd.dist_tot == cost.distance
                    &&& *final(self) == (Ship { state: final(self).state, ..*old(self) })
                },
                Err(e) => {
                    &&& *final(self) == *old(self)
                    &&& (e is ShipNotIdle <==> !(old(self).state is Idle))
                    &&& (e is NoPilotAssigned <==> old(self).state is Idle && old(self).pilot is None)
                    &&& (e is NullDistance <==> old(self).state is Idle && old(self).pilot is Some && old(self).position == destination)
                    &&& (e is CannotPerformTravel <==> old(self).state is Idle && old(self).pilot is Some && old(self).position != destination && (
                    old(self).stats.speed == 0 || {
                        let dist = crate::galaxy::distance_milli_spec(
                            old(self).position,
                            destination,
                        );
                        let dur = dist * 1000 / old(self).stats.speed as int;
                        !(old(self).fuel_tank >= cap64(
                            old(self).stats.fuel_consumption * dur,
                        ) && old(self).hull_decay_capacity - old(self).hull_decay >= cap64(
                            old(self).stats.hull_usage_rate * dist,
                        ))
                    }))
                    &&& (e is ShipNotIdle || e is NoPilotAssigned || e is NullDistance
                        || e is CannotPerformTravel)
                },
            },
    {
        match self.state {
            ShipState::Idle => {},
            _ => {
                return Err(Errcode::ShipNotIdle);
            },
        }
        let travel = Travel::new(destination);
        let cost = match travel.compute_costs(self) {
            Ok(c) => c,
            Err(e) => {
                return Err(e);
            },
        };
        if !cost.have_enough(self) {
            return Err(Errcode::CannotPerformTravel);
        }
        let fd = FlightData::new(self.position, &cost, &travel);
        self.state = ShipState::InFlight(fd);
        Ok(cost)
    }

    /// One tick of flight.  Returns true when the flight is over:
    /// arrived, out of fuel, or out of hull.  Arriving with fuel and
    /// hull to spare puts the ship exactly on the destination.
    pub fn update_flight(&mut self, tdelta_ms: u64) -> (finished: bool)
        requires
            old(self).wf(),
            old(self).state is InFlight,
            1 <= tdelta_ms <= MAX_TICK_MS,
        ensures
            final(self).wf(),
            final(self).fuel_tank <= old(self).fuel_tank,
            final(self).hull_decay >= old(self).hull_decay,
            finished == Self::flight_finished(*old(self), tdelta_ms as int),
            final(self).state matches ShipState::InFlight(fd2) && fd2.start == old(self).state->InFlight_0.start && fd2.destination == old(self).state->InFlight_0.destination
                && fd2.dist_tot == old(self).state->InFlight_0.dist_tot && fd2.dist_done
                == Self::flight_done_after(*old(self), tdelta_ms as int),
            final(self).fuel_tank == (if Self::flight_fuel_dead(*old(self), tdelta_ms as int) {
                0int
            } else {
                old(self).fuel_tank - Self::flight_fuel_used(*old(self), tdelta_ms as int)
            }),
            final(self).hull_decay == (if Self::flight_fuel_dead(*old(self), tdelta_ms as int) {
                old(self).hull_decay as int
            } else if Self::flight_hull_dead(*old(self), tdelta_ms as int) {
                old(self).hull_decay_capacity as int
            } else {
                old(self).hull_decay + Self::flight_hull_inc(*old(self), tdelta_ms as int)
            }),
            final(self).position == (if Self::flight_fuel_dead(*old(self), tdelta_ms as int)
                || Self::flight_hull_dead(*old(self), tdelta_ms as int) {
                old(self).position
            } else {
                (
                    crate::galaxy::axis_interp_spec(
                        old(self).state->InFlight_0.start.0 as int,
                        old(self).state->InFlight_0.destination.0 as int,
                        Self::flight_done_after(*old(self), tdelta_ms as int),
                        old(self).state->InFlight_0.dist_tot as int,
                    ) as u32,
                    crate::galaxy::axis_interp_spec(
                        old(self).state->InFlight_0.start.1 as int,
                        old(self).state->InFlight_0.destination.1 as int,
                        Self::flight_done_after(*old(self), tdelta_ms as int),
                        old(self).state->InFlight_0.dist_tot as int,
                    ) as u32,
                    crate::galaxy::axis_interp_spec(
                        old(self).state->InFlight_0.start.2 as int,
                        old(self).state->InFlight_0.destination.2 as int,
                        Self::flight_done_after(*old(self), tdelta_ms as int),
                        old(self).state->InFlight_0.dist_tot as int,
                    ) as u32,
                )
            }),
            *final(self) == (Ship {
                state: final(self).state,
                fuel_tank: final(self).fuel_tank,
                hull_decay: final(self).hull_decay,
                position: final(self).position,
                ..*old(self)
            }),
            finished && final(self).fuel_tank > 0 && final(self).hull_decay < final(self).hull_decay_capacity ==> final(self).position
                == old(self).state->InFlight_0.destination,
            !finished ==> final(self).fuel_tank > 0 && final(self).hull_decay < final(self).hull_decay_capacity,
    {
        let (start, destination, dist_done0, dist_tot) = match &self.state {
            ShipState::InFlight(fd) => (fd.start, fd.destination, fd.dist_done, fd.dist_tot),
            _ => {
                return false;
            },
        };
        let speed = self.stats.speed;
        let mut tdelta = tdelta_ms;
        proof {
            assert(speed * tdelta <= 1000000000000 * 60000) by (nonlinear_arith)
                requires
                    speed <= 1000000000000,
                    tdelta <= 60000,
            ;
        }
        let mut dist_delta: u64 = speed * tdelta / 1000;
        let mut done = dist_done0 + dist_delta;
        let mut finished = false;
        if done > dist_tot {
            let doverflow = done - dist_tot;
            done = dist_tot;
            dist_delta = dist_delta - doverflow;
            proof {
                assert(doverflow * 1000 <= speed * tdelta) by {
                    vstd::arithmetic::div_mod::lemma_fundamental_div_mod(
                        speed as int * tdelta as int,
                        1000,
                    );
                    vstd::arithmetic::div_mod::lemma_mod_division_less_than_divisor(
                        speed as int * tdelta as int,
                        1000,
                    );
                    assert(doverflow <= speed * tdelta / 1000);
                    vstd::arithmetic::mul::lemma_mul_inequality(
                        doverflow as int,
                        speed as int * tdelta as int / 1000,
                        1000,
                    );
                    assert((speed as int * tdelta as int / 1000) * 1000 <= speed as int
                        * tdelta as int);
                }
                assert(speed >= 1);
                vstd::arithmetic::div_mod::lemma_div_is_ordered(
                    doverflow as int * 1000,
                    speed as int * tdelta as int,
                    speed as int,
                );
                assert(speed as int * tdelta as int / speed as int == tdelta as int) by {
                    vstd::arithmetic::div_mod::lemma_div_multiples_vanish(
                        tdelta as int,
                        speed as int,
                    );
                    assert(speed as int * tdelta as int == tdelta as int * speed as int)
                        by (nonlinear_arith);
                }
            }
            let toverflow = doverflow * 1000 / speed;
            tdelta = tdelta - toverflow;
            finished = true;
        }
        self.state = ShipState::InFlight(
            FlightData { start, destination, dist_done: done, dist_tot },
        );
        proof {
            assert(self.stats.fuel_consumption * tdelta <= 65535000 * 60000)
                by (nonlinear_arith)
                requires
                    self.stats.fuel_consumption <= 65535000,
                    tdelta <= 60000,
            ;
        }
        let fuel_used = self.stats.fuel_consumption * tdelta;
        if self.fuel_tank <= fuel_used {
            self.fuel_tank = 0;
            return true;
        }
        self.fuel_tank = self.fuel_tank - fuel_used;
        proof {
            assert(self.stats.hull_usage_rate * dist_delta <= 50 * (1000000000000int * 60000
                / 1000)) by (nonlinear_arith)
                requires
                    self.stats.hull_usage_rate <= 50,
                    dist_delta <= 1000000000000int * 60000 / 1000,
            ;
        }
        let hull_inc = self.stats.hull_usage_rate * dist_delta;
        if hull_inc >= self.hull_decay_capacity - self.hull_decay {
            self.hull_decay = self.hull_decay_capacity;
            return true;
        }
        self.hull_decay = self.hull_decay + hull_inc;
        self.position = translation(start, destination, done, dist_tot);
        finished
    }

    /// Begin extracting: only from idle, and only on a planet.
    pub fn start_extraction(&mut self, galaxy: &Galaxy) -> (r: Result<ExtractionInfo, Errcode>)
        requires
            old(self).wf(),
            galaxy.wf(),
        ensures
            final(self).wf(),
            match r {
                Ok(info) => {
                    &&& old(self).state is Idle
                    &&& galaxy.planet_at(old(self).position)
                    &&& final(self).state matches ShipState::Extracting(i) && i.0@ == info.0@
                    &&& *final(self) == (Ship { state: final(self).state, ..*old(self) })
                },
                Err(e) => {
                    &&& *final(self) == *old(self)
                    &&& (e is ShipNotIdle <==> !(old(self).state is Idle))
                    &&& (e is CannotExtractWithoutPlanet <==> old(self).state is Idle
                        && !galaxy.planet_at(old(self).position))
                    &&& (e is ShipNotIdle || e is CannotExtractWithoutPlanet)
                },
            },
    {
        match self.state {
            ShipState::Idle => {},
            _ => {
                return Err(Errcode::ShipNotIdle);
            },
        }
        let planet = match galaxy.get_planet(&self.position) {
            Some(p) => *p,
            None => {
                return Err(Errcode::CannotExtractWithoutPlanet);
            },
        };
        let extraction = ExtractionInfo::create(self, &planet);
        let copy = extraction.duplicate();
        self.state = ShipState::Extracting(extraction);
        Ok(copy)
    }

    /// Stop extracting; only valid while extracting.
    pub fn stop_extraction(&mut self) -> (r: Result<(), Errcode>)
        requires
            old(self).wf(),
        ensures
            final(self).wf(),
            match r {
                Ok(()) => old(self).state is Extracting && final(self).state is Idle && *final(self) == (Ship { state: ShipState::Idle, ..*old(self) }),
                Err(e) => e is ShipNotExtracting && !(old(self).state is Extracting) && *final(self) == *old(self),
            },
    {
        match self.state {
            ShipState::Extracting(_) => {
                self.state = ShipState::Idle;
                Ok(())
            },
            _ => Err(Errcode::ShipNotExtracting),
        }
    }

    /// One tick of extraction; true when the cargo is full.
    pub fn update_extract(&mut self, tdelta_ms: u64) -> (full: bool)
        requires
            old(self).wf(),
            old(self).state is Extracting,
        ensures
            final(self).wf(),
            full == final(self).cargo.is_full_spec(),
            final(self).id == old(self).id,
            final(self).state == old(self).state,
            final(self).fuel_tank == old(self).fuel_tank,
            final(self).hull_decay == old(self).hull_decay,
            final(self).cargo.capacity == old(self).cargo.capacity,
            final(self).cargo.resources@ == crate::resources::deposit_res_after(
                old(self).cargo.resources@,
                old(self).cargo.capacity as int,
                old(self).cargo.usage as int,
                old(self).state->Extracting_0.0@,
                old(self).state->Extracting_0.0@.len() as int,
                tdelta_ms as int,
            ),
            final(self).cargo.usage == crate::resources::deposit_usage_after(
                old(self).cargo.capacity as int,
                old(self).cargo.usage as int,
                old(self).state->Extracting_0.0@,
                old(self).state->Extracting_0.0@.len() as int,
                tdelta_ms as int,
            ),
            *final(self) == (Ship { cargo: final(self).cargo, ..*old(self) }),
    {
        let rates = match &self.state {
            ShipState::Extracting(info) => info.duplicate(),
            _ => {
                return false;
            },
        };
        let full = rates.update_cargo(&mut self.cargo, tdelta_ms);
        full
    }

    /// Move cargo to a docked station; what the station cannot hold
    /// flows back into the ship.
    pub fn unload_cargo(&mut self, resource: &Resource, amnt: u64, station: &mut Station) -> (r:
        Result<u64, Errcode>)
        requires
            old(self).wf(),
            old(station).wf(),
        ensures
            final(self).wf(),
            final(self).id == old(self).id,
            final(self).position == old(self).position,
            final(station).id == old(station).id,
            final(station).position == old(station).position,
            final(station).wf(),
            match r {
                Ok(moved) => {
                    &&& moved <= amnt
                    &&& final(station).cargo.amount_spec(*resource) == old(station).cargo.amount_spec(*resource) + moved
                    &&& final(self).cargo.amount_spec(*resource) == old(self).cargo.amount_spec(
                        *resource,
                    ) - moved
                },
                Err(_) => false,
            },
    {
        let unloaded = self.cargo.unload(resource, amnt);
        if unloaded == 0 {
            return Ok(0);
        }
        let ghost mid_cargo = self.cargo;
        let added = station.cargo.add_resource(resource, unloaded);
        if added < unloaded {
            let back_amt = unloaded - added;
            proof {
                let vol = resource.volume_spec();
                let idx = resource.index_spec();
                let oldres = old(self).cargo.resources@;
                let stored_old = crate::cargo::stored_volume(
                    oldres,
                    crate::resources::RESOURCE_COUNT as int,
                );
                let amt0 = old(self).cargo.amount_spec(*resource);
                let rem = amt0 - unloaded;
                assert(0 <= rem <= u64::MAX);
                assert((rem as u64) as int == rem);
                crate::cargo::lemma_stored_volume_update(
                    oldres,
                    idx,
                    rem as u64,
                    crate::resources::RESOURCE_COUNT as int,
                );
                assert(vol * rem == vol * amt0 - vol * unloaded) by (nonlinear_arith)
                    requires
                        rem == amt0 - unloaded,
                ;
                assert(mid_cargo.stored_spec() == stored_old - vol * unloaded);
                assert(vol * back_amt <= vol * unloaded) by {
                    vstd::arithmetic::mul::lemma_mul_left_inequality(
                        vol,
                        back_amt as int,
                        unloaded as int,
                    );
                }
                assert(vol * back_amt <= mid_cargo.capacity - mid_cargo.usage);
            }
            let back = self.cargo.add_resource(resource, back_amt);
            Ok(added)
        } else {
            Ok(unloaded)
        }
    }

    /// Index of the module with this id, if any.
    pub fn find_module(&self, modid: ShipModuleId) -> (r: Option<usize>)
        ensures
            match r {
                Some(i) => i < self.modules@.len() && self.modules@[i as int].0 == modid,
                None => forall|i: int|
                    0 <= i < self.modules@.len() ==> (#[trigger] self.modules@[i]).0 != modid,
            },
    {
        let mut i: usize = 0;
        while i < self.modules.len()
            invariant
                i <= self.modules@.len(),
                forall|j: int| 0 <= j < i ==> (#[trigger] self.modules@[j]).0 != modid,
            decreases self.modules@.len() - i,
        {
            if self.modules[i].0 == modid {
                return Some(i);
            }
            i = i + 1;
        }
        None
    }

    /// Install a fresh module and return its id; ids count up and are
    /// never reused.
    pub fn add_module(&mut self, modtype: ShipModuleType) -> (r: Option<ShipModuleId>)
        requires
            old(self).wf(),
        ensures
            final(self).wf(),
            match r {
                Some(id) => final(self).modules@ == old(self).modules@.push(
                    (id, ShipModule { operator: None, modtype, rank: 1, totalcost: 0 }),
                ) && *final(self) == (Ship {
                    modules: final(self).modules,
                    next_module_id: final(self).next_module_id,
                    ..*old(self)
                }),
                None => old(self).next_module_id == ShipModuleId::MAX && *final(self) == *old(self),
            },
    {
        if self.next_module_id == ShipModuleId::MAX {
            return None;
        }
        let id = self.next_module_id;
        self.next_module_id = self.next_module_id + 1;
        let m = modtype.new_module();
        self.modules.push((id, m));
        Some(id)
    }
}

/// The tank and hull law: a well-formed ship's fuel and decay never
/// leave the interval from zero to their capacities.
pub proof fn lemma_ship_resource_bounds(s: Ship)
    requires
        s.wf(),
    ensures
        0 <= s.fuel_tank <= s.fuel_tank_capacity,
        0 <= s.hull_decay <= s.hull_decay_capacity,
{
}

/// Saturating 64-bit addition.
fn sat_add(a: u64, b: u64) -> (r: u64)
    ensures
        r == cap64(a + b),
{
    if a > u64::MAX - b {
        u64::MAX
    } else {
        a + b
    }
}

} // verus!
