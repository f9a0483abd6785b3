//! Derived ship performance figures.

use vstd::prelude::*;

verus! {

/// Milli-scaled performance stats, recomputed whenever the pilot, the
/// reactor, or the cargo changes.
#[derive(Clone, Copy, Debug)]
pub struct ShipStats {
    /// Space units per second, milli-scaled.
    pub speed: u64,
    /// Fuel units per second, milli-scaled.
    pub fuel_consumption: u64,
    /// Hull decay per travelled space unit, milli-scaled.
    pub hull_usage_rate: u64,
}

impl Default for ShipStats {
    /// A dead hull: no speed, no consumption, no wear.
    fn default() -> (s: ShipStats)
        ensures
            s.speed == 0,
            s.fuel_consumption == 0,
            s.hull_usage_rate == 0,
    {
        ShipStats { speed: 0, fuel_consumption: 0, hull_usage_rate: 0 }
    }
}

} // verus!
