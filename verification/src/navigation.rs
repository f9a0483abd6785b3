//! Travel planning: distances, durations, and flight bookkeeping.

use vstd::prelude::*;

verus! {

use crate::errors::Errcode;
use crate::fixed::cap64;
use crate::fixed::mul_div_sat;
use crate::galaxy::distance_milli_spec;
use crate::galaxy::get_distance;
use crate::galaxy::SpaceCoord;
use crate::ship::Ship;

/// A planned trip to a destination coordinate.
#[derive(Clone, Copy, Debug)]
pub struct Travel {
    pub destination: SpaceCoord,
}

/// What a trip will cost: distance in milli-units, duration in
/// milliseconds, fuel and hull wear in micro-units.
#[derive(Clone, Copy, Debug)]
pub struct TravelCost {
    pub distance: u64,
    pub duration_ms: u64,
    pub fuel_consumption: u64,
    pub hull_usage: u64,
}

/// The running state of a flight, distances at milli scale.
#[derive(Clone, Copy, Debug)]
pub struct FlightData {
    pub start: SpaceCoord,
    pub destination: SpaceCoord,
    pub dist_done: u64,
    pub dist_tot: u64,
}

impl Travel {
    pub fn new(destination: SpaceCoord) -> (t: Travel)
        ensures
            t.destination == destination,
    {
        Travel { destination }
    }

    /// Cost of flying this ship to the destination.  Rejected without a
    /// pilot, for a null distance, and for a ship that cannot move.
    pub fn compute_costs(&self, ship: &Ship) -> (r: Result<TravelCost, Errcode>)
        requires
            ship.wf(),
        ensures
            match r {
                Ok(cost) => {
                    &&& ship.pilot is Some
                    &&& ship.position != self.destination
                    &&& ship.stats.speed >= 1
                    &&& cost.distance == distance_milli_spec(ship.position, self.destination)
                    &&& 1 <= cost.distance < 8000000000000
                    &&& cost.duration_ms == cost.distance as int * 1000 / ship.stats.speed as int
                    &&& cost.fuel_consumption == cap64(
                        ship.stats.fuel_consumption * cost.duration_ms,
                    )
                    &&& cost.hull_usage == cap64(ship.stats.hull_usage_rate * cost.distance)
                },
                Err(e) => {
                    &&& (e is NoPilotAssigned <==> ship.pilot is None)
                    &&& (e is NullDistance <==> ship.pilot is Some && ship.position
                        == self.destination)
                    &&& (e is CannotPerformTravel <==> ship.pilot is Some && ship.position
                        != self.destination && ship.stats.speed == 0)
                    &&& (e is NoPilotAssigned || e is NullDistance || e is CannotPerformTravel)
                },
            },
    {
        if ship.pilot.is_none() {
            return Err(Errcode::NoPilotAssigned);
        }
        let distance = get_distance(&ship.position, &self.destination);
        if distance == 0 {
            return Err(Errcode::NullDistance);
        }
        if ship.stats.speed == 0 {
            return Err(Errcode::CannotPerformTravel);
        }
        let duration_ms = distance * 1000 / ship.stats.speed;
        let fuel_consumption = mul_div_sat(ship.stats.fuel_consumption, duration_ms, 1);
        let hull_usage = mul_div_sat(ship.stats.hull_usage_rate, distance, 1);
        proof {
            vstd::arithmetic::div_mod::lemma_div_multiples_vanish(
                ship.stats.fuel_consumption as int * duration_ms as int,
                1,
            );
            vstd::arithmetic::div_mod::lemma_div_multiples_vanish(
                ship.stats.hull_usage_rate as int * distance as int,
                1,
            );
        }
        Ok(TravelCost { distance, duration_ms, fuel_consumption, hull_usage })
    }
}

impl TravelCost {
    /// Whether the ship's tanks and hull can take this trip.
    pub fn have_enough(&self, ship: &Ship) -> (b: bool)
        requires
            ship.wf(),
        ensures
            b == (ship.fuel_tank >= self.fuel_consumption && ship.hull_decay_capacity
                - ship.hull_decay >= self.hull_usage),
    {
        ship.fuel_tank >= self.fuel_consumption && ship.hull_decay_capacity - ship.hull_decay
            >= self.hull_usage
    }
}

impl FlightData {
    /// A flight about to leave `start` along the planned travel.
    pub fn new(start: SpaceCoord, cost: &TravelCost, travel: &Travel) -> (f: FlightData)
        ensures
            f.start == start,
            f.destination == travel.destination,
            f.dist_done == 0,
            f.dist_tot == cost.distance,
    {
        FlightData {
            start,
            destination: travel.destination,
            dist_done: 0,
            dist_tot: cost.distance,
        }
    }
}

} // verus!
