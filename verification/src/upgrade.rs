//! Fixed ship upgrades sold at every station.

use vstd::prelude::*;

verus! {

use crate::fixed::cap64;
use crate::ship::Ship;

/// Milli-prices of the three upgrades.
pub const CARGO_EXPANSION_PRICE: u64 = 1000000;

pub const REACTOR_UPGRADE_PRICE: u64 = 300000;

pub const HULL_UPGRADE_PRICE: u64 = 500000;

#[derive(Clone, Copy, Debug, PartialEq, Eq, Structural)]
pub enum ShipUpgrade {
    CargoExpansion,
    ReactorUpgrade,
    HullUpgrade,
}

impl ShipUpgrade {
    pub open spec fn price_spec(self) -> int {
        match self {
            ShipUpgrade::CargoExpansion => CARGO_EXPANSION_PRICE as int,
            ShipUpgrade::ReactorUpgrade => REACTOR_UPGRADE_PRICE as int,
            ShipUpgrade::HullUpgrade => HULL_UPGRADE_PRICE as int,
        }
    }

    /// Milli-price: 100 cargo units at 10, one reactor point at 300, or
    /// 100 hull units at 5.
    pub fn get_price(&self) -> (p: u64)
        ensures
            p == self.price_spec(),
    {
        match self {
            ShipUpgrade::CargoExpansion => CARGO_EXPANSION_PRICE,
            ShipUpgrade::ReactorUpgrade => REACTOR_UPGRADE_PRICE,
            ShipUpgrade::HullUpgrade => HULL_UPGRADE_PRICE,
        }
    }

    /// Apply the upgrade and refresh the derived stats.
    pub fn install(&self, ship: &mut Ship)
        requires
            old(ship).wf(),
        ensures
            final(ship).wf(),
            *final(ship) == (Ship {
                reactor_power: final(ship).reactor_power,
                hull_decay_capacity: final(ship).hull_decay_capacity,
                cargo: final(ship).cargo,
                stats: final(ship).stats,
                ..*old(ship)
            }),
            final(ship).cargo.resources@ == old(ship).cargo.resources@,
            final(ship).stats == Ship::perf_stats_spec(
                final(ship).reactor_power,
                match old(ship).pilot {
                    Some(p) => Some(old(ship).crew.member_spec(p).rank),
                    None => None,
                },
            ),
            *self is CargoExpansion ==> final(ship).cargo.capacity == cap64(
                old(ship).cargo.capacity + 100000000000,
            ) && final(ship).reactor_power == old(ship).reactor_power && final(ship).hull_decay_capacity == old(ship).hull_decay_capacity,
            *self is ReactorUpgrade ==> final(ship).reactor_power as int == (if old(ship).reactor_power < u16::MAX {
                old(ship).reactor_power + 1
            } else {
                u16::MAX as int
            }) && final(ship).cargo == old(ship).cargo && final(ship).hull_decay_capacity == old(ship).hull_decay_capacity,
            *self is HullUpgrade ==> final(ship).hull_decay_capacity == cap64(
                old(ship).hull_decay_capacity + 100000000,
            ) && final(ship).cargo == old(ship).cargo && final(ship).reactor_power == old(ship).reactor_power,
    {
        match self {
            ShipUpgrade::CargoExpansion => {
                ship.cargo.expand(100000000000);
            },
            ShipUpgrade::ReactorUpgrade => {
                if ship.reactor_power < u16::MAX {
                    ship.reactor_power = ship.reactor_power + 1;
                }
            },
            ShipUpgrade::HullUpgrade => {
                ship.hull_decay_capacity = if ship.hull_decay_capacity > u64::MAX - 100000000 {
                    u64::MAX
                } else {
                    ship.hull_decay_capacity + 100000000
                };
            },
        }
        ship.update_perf_stats();
    }

    /// What the upgrade does, in words.
    pub fn description(&self) -> (d: String)
    {
        match self {
            ShipUpgrade::CargoExpansion => "Adds 100 of cargo capacity".to_owned(),
            ShipUpgrade::ReactorUpgrade => "Increase the reactor power by 1, improves the ship's speed".to_owned(),
            ShipUpgrade::HullUpgrade => "Increase the hull decay capacity by 100".to_owned(),
        }
    }
}

} // verus!
