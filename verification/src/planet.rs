//! Planets: solid or gaseous bodies with fixed resource densities.

use vstd::prelude::*;

verus! {

use crate::galaxy::SpaceCoord;
use crate::resources::Resource;
use crate::rng::rand_below;

/// What a scanner reports about a planet.
#[derive(Clone, Copy, Debug)]
pub struct PlanetInfo {
    pub position: SpaceCoord,
    pub temperature: u16,
    pub solid: bool,
}

#[derive(Clone, Copy, Debug)]
pub struct Planet {
    pub position: SpaceCoord,
    pub temperature: u16,
    pub solid: bool,
}

impl PlanetInfo {
    pub fn scan(rank: u8, planet: &Planet) -> (info: PlanetInfo)
        ensures
            info.position == planet.position,
            info.temperature == planet.temperature,
            info.solid == planet.solid,
    {
        let _ = rank;
        PlanetInfo {
            position: planet.position,
            temperature: planet.temperature,
            solid: planet.solid,
        }
    }
}

impl Planet {
    /// A fresh planet at `coord`: solid with probability 0.4, with a
    /// uniformly random temperature.
    pub fn random(coord: SpaceCoord) -> (p: Planet)
        ensures
            p.position == coord,
    {
        let solid = rand_below(1000) < 400;
        let temperature = rand_below(65536) as u16;
        Planet { position: coord, temperature, solid }
    }

    /// Density of `resource` on this planet, in milli: 3 for the primary
    /// match, 1 for the secondary, 0 otherwise.
    pub open spec fn resource_density_spec(self, resource: Resource) -> int {
        if self.solid {
            match resource {
                Resource::Stone => 3000,
                Resource::Iron => 1000,
                _ => 0,
            }
        } else {
            match resource {
                Resource::Helium => 3000,
                Resource::Ozone => 1000,
                _ => 0,
            }
        }
    }

    pub fn resource_density(&self, resource: &Resource) -> (d: u64)
        ensures
            d == self.resource_density_spec(*resource),
            d == 0 || d == 1000 || d == 3000,
            d > 0 ==> resource.is_raw(),
    {
        if self.solid {
            match resource {
                Resource::Stone => 3000,
                Resource::Iron => 1000,
                _ => 0,
            }
        } else {
            match resource {
                Resource::Helium => 3000,
                Resource::Ozone => 1000,
                _ => 0,
            }
        }
    }
}

} // verus!
