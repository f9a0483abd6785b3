//! What a scan returns: positions of planets and stations in reach.

use vstd::prelude::*;

verus! {

use crate::galaxy::get_distance;
use crate::galaxy::SpaceCoord;
use crate::planet::PlanetInfo;
use crate::station::StationInfo;

#[derive(Debug)]
pub struct ScanResult {
    pub planets: Vec<PlanetInfo>,
    pub stations: Vec<StationInfo>,
}

impl ScanResult {
    pub fn empty() -> (r: ScanResult)
        ensures
            r.planets@.len() == 0,
            r.stations@.len() == 0,
    {
        ScanResult { planets: Vec::new(), stations: Vec::new() }
    }

    /// Record one scanned planet.
    pub fn add_planet(&mut self, info: PlanetInfo)
        ensures
            final(self).planets@ == old(self).planets@.push(info),
            final(self).stations@ == old(self).stations@,
    {
        self.planets.push(info);
    }

    /// Record one scanned station.
    pub fn add_station(&mut self, info: StationInfo)
        ensures
            final(self).stations@ == old(self).stations@.push(info),
            final(self).planets@ == old(self).planets@,
    {
        self.stations.push(info);
    }

    /// Record one scanned object, resolving stations through the
    /// galaxy's arena.
    pub fn add(&mut self, rank: u8, obj: &crate::galaxy::SpaceObject, stations: &Vec<
        crate::station::Station,
    >)
        requires
            *obj matches crate::galaxy::SpaceObject::BaseStation(k) ==> k < stations@.len(),
        ensures
            obj is Planet ==> final(self).planets@ == old(self).planets@.push(
                PlanetInfo {
                    position: obj->Planet_0.position,
                    temperature: obj->Planet_0.temperature,
                    solid: obj->Planet_0.solid,
                },
            ) && final(self).stations@ == old(self).stations@,
            obj is BaseStation ==> final(self).planets@ == old(self).planets@ && final(self).stations@ == old(self).stations@.push(
                StationInfo {
                    id: stations@[obj->BaseStation_0 as int].id,
                    position: stations@[obj->BaseStation_0 as int].position,
                },
            ),
    {
        match obj {
            crate::galaxy::SpaceObject::BaseStation(k) => {
                let info = StationInfo::scan(rank, &stations[*k]);
                self.add_station(info);
            },
            crate::galaxy::SpaceObject::Planet(p) => {
                let info = PlanetInfo::scan(rank, p);
                self.add_planet(info);
            },
        }
    }

    /// The scanned planet closest to `pos`: the first in scan order
    /// among those at minimal milli-distance.
    pub fn get_closest_planet(&self, pos: &SpaceCoord) -> (r: Option<PlanetInfo>)
        ensures
            match r {
                Some(p) => {
                    &&& exists|i: int|
                        0 <= i < self.planets@.len() && equal_info(
                            #[trigger] self.planets@[i],
                            p,
                        )
                    &&& forall|i: int|
                        0 <= i < self.planets@.len()
                            ==> crate::galaxy::distance_milli_spec(*pos, p.position)
                            <= crate::galaxy::distance_milli_spec(
                            *pos,
                            (#[trigger] self.planets@[i]).position,
                        )
                },
                None => self.planets@.len() == 0,
            },
    {
        if self.planets.len() == 0 {
            return None;
        }
        let mut best: usize = 0;
        let mut best_dist = get_distance(pos, &self.planets[0].position);
        let mut i: usize = 1;
        while i < self.planets.len()
            invariant
                self.planets@.len() > 0,
                best < i <= self.planets@.len(),
                best_dist == crate::galaxy::distance_milli_spec(
                    *pos,
                    self.planets@[best as int].position,
                ),
                forall|j: int|
                    0 <= j < i ==> best_dist <= crate::galaxy::distance_milli_spec(
                        *pos,
                        (#[trigger] self.planets@[j]).position,
                    ),
            decreases self.planets@.len() - i,
        {
            let d = get_distance(pos, &self.planets[i].position);
            if d < best_dist {
                best = i;
                best_dist = d;
            }
            i = i + 1;
        }
        proof {
            assert(equal_info(self.planets@[best as int], self.planets@[best as int]));
        }
        Some(self.planets[best])
    }
}

/// Two scan entries with the same fields.
pub open spec fn equal_info(a: PlanetInfo, b: PlanetInfo) -> bool {
    a.position == b.position && a.temperature == b.temperature && a.solid == b.solid
}

} // verus!
