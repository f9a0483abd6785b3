//! The commodity catalogue: six resources with fixed attributes.
//!
//! Prices and volumes are milli-scaled (thousandths of a currency unit,
//! thousandths of a cargo-volume unit per resource unit).

use vstd::prelude::*;

verus! {

use crate::cargo::ShipCargo;
use crate::fixed::cap64;
use crate::fixed::mul_div_sat;
use crate::planet::Planet;
use crate::ship::Ship;

/// How many resources the catalogue holds.
pub const RESOURCE_COUNT: usize = 6;

#[derive(Clone, Copy, Debug, PartialEq, Eq, Structural)]
pub enum Resource {
    Stone,
    Iron,
    Helium,
    Ozone,
    Fuel,
    HullPlate,
}

impl Resource {
    /// Position in the catalogue; enumeration order drives iteration.
    pub open spec fn index_spec(self) -> int {
        match self {
            Resource::Stone => 0,
            Resource::Iron => 1,
            Resource::Helium => 2,
            Resource::Ozone => 3,
            Resource::Fuel => 4,
            Resource::HullPlate => 5,
        }
    }

    pub fn index(self) -> (i: usize)
        ensures
            i == self.index_spec(),
            i < RESOURCE_COUNT,
    {
        match self {
            Resource::Stone => 0,
            Resource::Iron => 1,
            Resource::Helium => 2,
            Resource::Ozone => 3,
            Resource::Fuel => 4,
            Resource::HullPlate => 5,
        }
    }

    pub open spec fn from_index_spec(i: int) -> Resource {
        if i == 0 {
            Resource::Stone
        } else if i == 1 {
            Resource::Iron
        } else if i == 2 {
            Resource::Helium
        } else if i == 3 {
            Resource::Ozone
        } else if i == 4 {
            Resource::Fuel
        } else {
            Resource::HullPlate
        }
    }

    pub fn from_index(i: usize) -> (r: Resource)
        requires
            i < RESOURCE_COUNT,
        ensures
            r == Resource::from_index_spec(i as int),
            r.index_spec() == i,
    {
        if i == 0 {
            Resource::Stone
        } else if i == 1 {
            Resource::Iron
        } else if i == 2 {
            Resource::Helium
        } else if i == 3 {
            Resource::Ozone
        } else if i == 4 {
            Resource::Fuel
        } else {
            Resource::HullPlate
        }
    }

    /// Price of one unit on a fresh market, in milli-currency.
    pub open spec fn base_price_spec(self) -> int {
        match self {
            Resource::Stone => 3500,
            Resource::Iron => 7000,
            Resource::Helium => 3500,
            Resource::Ozone => 7000,
            Resource::Fuel => 5000,
            Resource::HullPlate => 3500,
        }
    }

    pub fn base_price(&self) -> (p: u64)
        ensures
            p == self.base_price_spec(),
            1 <= p <= 7000,
    {
        match self {
            Resource::Stone => 3500,
            Resource::Iron => 7000,
            Resource::Helium => 3500,
            Resource::Ozone => 7000,
            Resource::Fuel => 5000,
            Resource::HullPlate => 3500,
        }
    }

    /// Cargo volume of one unit, in milli-volume.
    pub open spec fn volume_spec(self) -> int {
        match self {
            Resource::Stone => 850,
            Resource::Iron => 300,
            Resource::Helium => 850,
            Resource::Ozone => 300,
            Resource::Fuel => 2000,
            Resource::HullPlate => 50,
        }
    }

    pub fn volume(&self) -> (v: u64)
        ensures
            v == self.volume_spec(),
            1 <= v <= 2000,
    {
        match self {
            Resource::Stone => 850,
            Resource::Iron => 300,
            Resource::Helium => 850,
            Resource::Ozone => 300,
            Resource::Fuel => 2000,
            Resource::HullPlate => 50,
        }
    }

    /// Whether a miner module with an operator of this rank can dig it.
    pub open spec fn mineable_spec(self, rank: u8) -> bool {
        match self {
            Resource::Stone => true,
            Resource::Iron => rank > 3,
            _ => false,
        }
    }

    pub fn mineable(&self, rank: u8) -> (b: bool)
        ensures
            b == self.mineable_spec(rank),
    {
        match self {
            Resource::Stone => true,
            Resource::Iron => rank > 3,
            _ => false,
        }
    }

    /// Whether a gas sucker with an operator of this rank can pump it.
    pub open spec fn suckable_spec(self, rank: u8) -> bool {
        match self {
            Resource::Helium => true,
            Resource::Ozone => rank > 3,
            _ => false,
        }
    }

    pub fn suckable(&self, rank: u8) -> (b: bool)
        ensures
            b == self.suckable_spec(rank),
    {
        match self {
            Resource::Helium => true,
            Resource::Ozone => rank > 3,
            _ => false,
        }
    }

    /// Raw resources can be extracted; Fuel and HullPlate are crafted.
    pub open spec fn is_raw(self) -> bool {
        match self {
            Resource::Stone | Resource::Iron | Resource::Helium | Resource::Ozone => true,
            _ => false,
        }
    }

    /// How hard the resource is to extract, in milli; raw resources only.
    pub open spec fn extraction_difficulty_spec(self) -> int {
        match self {
            Resource::Stone | Resource::Helium => 80,
            _ => 2000,
        }
    }

    pub fn extraction_difficulty(&self) -> (d: u64)
        requires
            self.is_raw(),
        ensures
            d == self.extraction_difficulty_spec(),
            80 <= d <= 2000,
    {
        match self {
            Resource::Stone | Resource::Helium => 80,
            _ => 2000,
        }
    }
}

/// Rate one module contributes for `r`: zero unless it is manned by a
/// known operator whose rank admits the resource on this planet.
pub open spec fn module_rate_spec(
    m: crate::module::ShipModule,
    crew: crate::crew::Crew,
    planet: Planet,
    r: Resource,
) -> int {
    if m.operator is Some && crew.contains_id(m.operator->Some_0) && m.admits(
        crew.member_spec(m.operator->Some_0).rank,
        planet,
        r,
    ) {
        crate::module::ShipModule::extraction_rate_spec(
            r,
            crew.member_spec(m.operator->Some_0).rank as int,
            planet.resource_density_spec(r),
            m.rank as int,
        )
    } else {
        0
    }
}

/// Saturating sum of the first `n` modules' rates for `r`.
pub open spec fn total_rate_spec(
    mods: Seq<(crate::module::ShipModuleId, crate::module::ShipModule)>,
    crew: crate::crew::Crew,
    planet: Planet,
    r: Resource,
    n: int,
) -> int
    decreases n,
{
    if n <= 0 {
        0
    } else {
        cap64(
            total_rate_spec(mods, crew, planet, r, n - 1) + module_rate_spec(
                mods[n - 1].1,
                crew,
                planet,
                r,
            ),
        )
    }
}

/// The extraction table over the first `k` catalogue entries: pairs in
/// catalogue order, resources with a zero rate left out.
pub open spec fn extraction_table_spec(ship: Ship, planet: Planet, k: int) -> Seq<
    (Resource, u64),
>
    decreases k,
{
    if k <= 0 {
        Seq::empty()
    } else {
        let r = Resource::from_index_spec(k - 1);
        let t = total_rate_spec(
            ship.modules@,
            ship.crew,
            planet,
            r,
            ship.modules@.len() as int,
        );
        extraction_table_spec(ship, planet, k - 1) + if t > 0 {
            seq![(r, t as u64)]
        } else {
            Seq::<(Resource, u64)>::empty()
        }
    }
}

/// Hold usage after depositing the first `n` table entries over `dt`
/// milliseconds, each clamped by the remaining capacity.
pub open spec fn deposit_usage_after(
    cap: int,
    u0: int,
    items: Seq<(Resource, u64)>,
    n: int,
    dt: int,
) -> int
    decreases n,
{
    if n <= 0 {
        u0
    } else {
        crate::cargo::usage_after_spec(
            cap,
            deposit_usage_after(cap, u0, items, n - 1, dt),
            items[n - 1].0.volume_spec(),
            cap64(items[n - 1].1 * dt / 1000),
        )
    }
}

/// Hold contents after depositing the first `n` table entries.
pub open spec fn deposit_res_after(
    c0: Seq<u64>,
    cap: int,
    u0: int,
    items: Seq<(Resource, u64)>,
    n: int,
    dt: int,
) -> Seq<u64>
    decreases n,
{
    if n <= 0 {
        c0
    } else {
        let prev = deposit_res_after(c0, cap, u0, items, n - 1, dt);
        let r = items[n - 1].0;
        let q = cap64(items[n - 1].1 * dt / 1000);
        prev.update(
            r.index_spec(),
            (prev[r.index_spec()] + crate::cargo::add_qty_spec(
                cap,
                deposit_usage_after(cap, u0, items, n - 1, dt),
                r.volume_spec(),
                q,
            )) as u64,
        )
    }
}

/// Saturating volume throughput of the table, nano per second.
pub open spec fn volume_rate_spec(items: Seq<(Resource, u64)>, n: int) -> int
    decreases n,
{
    if n <= 0 {
        0
    } else {
        cap64(
            volume_rate_spec(items, n - 1) + cap64(
                items[n - 1].0.volume_spec() * items[n - 1].1,
            ),
        )
    }
}

/// What an extracting ship gathers per second: pairs of resource and
/// micro-rate, in catalogue order.
#[derive(Debug)]
pub struct ExtractionInfo(pub Vec<(Resource, u64)>);

impl ExtractionInfo {
    pub open spec fn wf(self) -> bool {
        forall|i: int| 0 <= i < self.0@.len() ==> (#[trigger] self.0@[i]).1 >= 1
    }

    /// A field-for-field copy.
    pub fn duplicate(&self) -> (c: ExtractionInfo)
        ensures
            c.0@ == self.0@,
    {
        let mut v: Vec<(Resource, u64)> = Vec::new();
        let mut i: usize = 0;
        while i < self.0.len()
            invariant
                i <= self.0@.len(),
                v@ == self.0@.take(i as int),
            decreases self.0@.len() - i,
        {
            v.push(self.0[i]);
            proof {
                assert(v@ =~= self.0@.take(i + 1));
            }
            i = i + 1;
        }
        proof {
            assert(self.0@.take(self.0@.len() as int) =~= self.0@);
        }
        ExtractionInfo(v)
    }

    /// The combined extraction table of all manned modules of the ship
    /// on this planet: per resource, the saturating sum of the module
    /// rates, in catalogue order, omitting resources no module reaches.
    pub fn create(ship: &Ship, planet: &Planet) -> (info: ExtractionInfo)
        requires
            ship.wf(),
        ensures
            info.wf(),
            info.0@ == extraction_table_spec(*ship, *planet, RESOURCE_COUNT as int),
    {
        let mut out: Vec<(Resource, u64)> = Vec::new();
        let mut ri: usize = 0;
        while ri < RESOURCE_COUNT
            invariant
                ship.wf(),
                ri <= RESOURCE_COUNT,
                out@ == extraction_table_spec(*ship, *planet, ri as int),
                forall|q: int| 0 <= q < out@.len() ==> (#[trigger] out@[q]).1 >= 1,
            decreases RESOURCE_COUNT - ri,
        {
            let res = Resource::from_index(ri);
            let density = planet.resource_density(&res);
            let mut total: u64 = 0;
            let mut mi: usize = 0;
            while mi < ship.modules.len()
                invariant
                    ship.wf(),
                    mi <= ship.modules@.len(),
                    res == Resource::from_index_spec(ri as int),
                    density == planet.resource_density_spec(res),
                    total == total_rate_spec(
                        ship.modules@,
                        ship.crew,
                        *planet,
                        res,
                        mi as int,
                    ),
                decreases ship.modules@.len() - mi,
            {
                let m = &ship.modules[mi].1;
                let mut rate: u64 = 0;
                match m.operator {
                    None => {
                    },
                    Some(oid) => {
                        proof {
                            assert(ship.modules@[mi as int].1.wf());
                            assert(ship.crew.contains_id(oid));
                        }
                        match ship.crew.get(oid) {
                            None => {
                            },
                            Some(cm) => {
                                let cmv = *cm;
                                proof {
                                    assert(ship.crew.0@[ship.crew.idx_of(oid)].1.wf());
                                }
                                let admitted = if density == 0 {
                                    false
                                } else {
                                    match m.modtype {
                                        crate::module::ShipModuleType::Miner => res.mineable(
                                            cmv.rank,
                                        ),
                                        crate::module::ShipModuleType::GasSucker => res.suckable(
                                            cmv.rank,
                                        ),
                                    }
                                };
                                if admitted {
                                    proof {
                                        if res.extraction_difficulty_spec() == 80 {
                                            assert(density as int * cmv.rank >= 1000)
                                                by (nonlinear_arith)
                                                requires
                                                    density >= 1000,
                                                    cmv.rank >= 1,
                                            ;
                                        } else {
                                            assert(cmv.rank > 3);
                                            assert(density as int * cmv.rank >= 4000)
                                                by (nonlinear_arith)
                                                requires
                                                    density >= 1000,
                                                    cmv.rank >= 4,
                                            ;
                                        }
                                    }
                                    rate = m.extraction_rate(&res, cmv.rank, density);
                                }
                            },
                        }
                    },
                }
                total = if total > u64::MAX - rate {
                    u64::MAX
                } else {
                    total + rate
                };
                mi = mi + 1;
            }
            if total > 0 {
                out.push((res, total));
            }
            proof {
                if total > 0 {
                    assert(out@ =~= extraction_table_spec(*ship, *planet, ri as int)
                        + seq![(res, total)]);
                } else {
                    assert(out@ =~= extraction_table_spec(*ship, *planet, ri as int)
                        + Seq::<(Resource, u64)>::empty());
                }
            }
            ri = ri + 1;
        }
        ExtractionInfo(out)
    }

    /// One tick of extraction: deposit `rate * tdelta` of each entry in
    /// order, each clamped by the remaining capacity; true when the
    /// cargo ends up full.
    pub fn update_cargo(&self, cargo: &mut ShipCargo, tdelta_ms: u64) -> (full: bool)
        requires
            old(cargo).wf(),
        ensures
            final(cargo).wf(),
            final(cargo).capacity == old(cargo).capacity,
            final(cargo).resources@ == deposit_res_after(
                old(cargo).resources@,
                old(cargo).capacity as int,
                old(cargo).usage as int,
                self.0@,
                self.0@.len() as int,
                tdelta_ms as int,
            ),
            final(cargo).usage == deposit_usage_after(
                old(cargo).capacity as int,
                old(cargo).usage as int,
                self.0@,
                self.0@.len() as int,
                tdelta_ms as int,
            ),
            full == final(cargo).is_full_spec(),
    {
        let mut i: usize = 0;
        while i < self.0.len()
            invariant
                cargo.wf(),
                cargo.capacity == old(cargo).capacity,
                i <= self.0@.len(),
                cargo.resources@ == deposit_res_after(
                    old(cargo).resources@,
                    old(cargo).capacity as int,
                    old(cargo).usage as int,
                    self.0@,
                    i as int,
                    tdelta_ms as int,
                ),
                cargo.usage == deposit_usage_after(
                    old(cargo).capacity as int,
                    old(cargo).usage as int,
                    self.0@,
                    i as int,
                    tdelta_ms as int,
                ),
            decreases self.0@.len() - i,
        {
            let (res, rate) = self.0[i];
            let q = mul_div_sat(rate, tdelta_ms, 1000);
            let _ = cargo.add_resource(&res, q);
            i = i + 1;
        }
        cargo.is_full()
    }

    /// Milliseconds until a hold of `cap` nano-volume fills at these
    /// rates; the 64-bit ceiling when nothing is extracted.
    pub fn time_before_cargo_full(&self, cap: u64) -> (ms: u64)
        ensures
            ms == (if volume_rate_spec(self.0@, self.0@.len() as int) == 0 {
                u64::MAX as int
            } else {
                cap64(cap * 1000 / volume_rate_spec(self.0@, self.0@.len() as int))
            }),
    {
        let mut nano_per_s: u64 = 0;
        let mut i: usize = 0;
        while i < self.0.len()
            invariant
                i <= self.0@.len(),
                nano_per_s == volume_rate_spec(self.0@, i as int),
            decreases self.0@.len() - i,
        {
            let (res, rate) = self.0[i];
            let vol = res.volume();
            let term = mul_div_sat(vol, rate, 1);
            proof {
                vstd::arithmetic::div_mod::lemma_div_multiples_vanish(
                    vol as int * rate as int,
                    1,
                );
            }
            nano_per_s = if nano_per_s > u64::MAX - term {
                u64::MAX
            } else {
                nano_per_s + term
            };
            i = i + 1;
        }
        if nano_per_s == 0 {
            return u64::MAX;
        }
        mul_div_sat(cap, 1000, nano_per_s)
    }
}

} // verus!
