//! Ship modules: miners and gas suckers, their operators and upgrades.
//!
//! The extraction rate follows `(density / (difficulty / oprank)) ^
//! (rank^0.25)`: the base is exact at milli scale and the fractional
//! power is taken through `pow_milli`, so a rank-1 module extracts its
//! base rate exactly.

use vstd::prelude::*;

verus! {

use vstd::arithmetic::power::pow;
use crate::crew::Crew;
use crate::crew::CrewId;
use crate::crew::CrewMemberType;
use crate::fixed::cap64;
use crate::fixed::floor_root;
use crate::fixed::iroot;
use crate::fixed::lemma_pow_base_le;
use crate::fixed::mul_div_sat;
use crate::fixed::pow_milli;
use crate::fixed::pow_milli_spec;
use crate::planet::Planet;
use crate::resources::RESOURCE_COUNT;
use crate::resources::Resource;

pub type ShipModuleId = u16;

/// Milli-price of a fresh module.
pub const MODULE_BUY_PRICE: u64 = 2000000;

#[derive(Clone, Copy, Debug, PartialEq, Eq, Structural)]
pub enum ShipModuleType {
    Miner,
    GasSucker,
}

#[derive(Clone, Copy, Debug)]
pub struct ShipModule {
    pub operator: Option<CrewId>,
    pub modtype: ShipModuleType,
    pub rank: u8,
    /// What has been spent on this module so far, in milli-currency.
    pub totalcost: u64,
}

impl ShipModuleType {
    pub fn new_module(self) -> (m: ShipModule)
        ensures
            m.operator is None,
            m.modtype == self,
            m.rank == 1,
            m.totalcost == 0,
            m.wf(),
    {
        ShipModule { operator: None, modtype: self, rank: 1, totalcost: 0 }
    }

    pub fn get_price_buy(&self) -> (p: u64)
        ensures
            p == MODULE_BUY_PRICE,
    {
        MODULE_BUY_PRICE
    }
}

/// Milli-price of the next module rank: `5000^((29 + rank)/30)`, walked
/// as a geometric sequence with micro-precision ratio `5000^(1/30)`,
/// saturating at the 64-bit bound.
pub open spec fn module_price_micro(rank: nat) -> int
    decreases rank,
{
    if rank <= 1 {
        5000000000
    } else {
        cap64(module_price_micro((rank - 1) as nat) * 1327857 / 1000000)
    }
}

pub open spec fn module_price_next_milli(rank: int) -> int {
    module_price_micro(rank as nat) / 1000
}

impl ShipModule {
    pub open spec fn wf(self) -> bool {
        1 <= self.rank
    }

    /// Price to raise this module to the next rank.
    pub fn price_next_rank(&self) -> (p: u64)
        requires
            self.wf(),
        ensures
            p == module_price_next_milli(self.rank as int),
    {
        let mut acc: u64 = 5000000000;
        let mut i: u8 = 1;
        while i < self.rank
            invariant
                1 <= i <= self.rank,
                acc == module_price_micro(i as nat),
            decreases self.rank - i,
        {
            acc = mul_div_sat(acc, 1327857, 1000000);
            i = i + 1;
        }
        acc / 1000
    }

    /// Whether this module still needs a crew member of the given trade.
    pub fn need(&self, ctype: &CrewMemberType) -> (b: bool)
        ensures
            b == (*ctype == CrewMemberType::Operator && self.operator is None),
    {
        match self.modtype {
            ShipModuleType::Miner | ShipModuleType::GasSucker => {
                let is_op = match ctype {
                    CrewMemberType::Operator => true,
                    _ => false,
                };
                is_op && self.operator.is_none()
            },
        }
    }

    /// Whether this module, run by an operator of rank `oprank`, can
    /// extract `res` from `planet`.
    pub open spec fn admits(self, oprank: u8, planet: Planet, res: Resource) -> bool {
        &&& planet.resource_density_spec(res) > 0
        &&& match self.modtype {
            ShipModuleType::Miner => res.mineable_spec(oprank),
            ShipModuleType::GasSucker => res.suckable_spec(oprank),
        }
    }

    /// Base of the rate curve: `density * oprank / difficulty`, milli.
    pub open spec fn extraction_base_milli(res: Resource, oprank: int, density: int) -> int {
        density * oprank * 1000 / res.extraction_difficulty_spec()
    }

    /// The extraction rate in micro-units per second.
    pub open spec fn extraction_rate_spec(
        res: Resource,
        oprank: int,
        density: int,
        rank: int,
    ) -> int {
        cap64(
            pow_milli_spec(
                Self::extraction_base_milli(res, oprank, density),
                floor_root(rank * 1000000000000, 4),
            ) * 1000,
        )
    }

    /// Rate at which this module extracts `res`, in micro-units per
    /// second, for an operator of rank `oprank` on a planet where the
    /// resource has milli-density `density`.
    pub fn extraction_rate(&self, res: &Resource, oprank: u8, density: u64) -> (rate: u64)
        requires
            self.wf(),
            1 <= oprank,
            res.is_raw(),
            density == 1000 || density == 3000,
            density * oprank >= res.extraction_difficulty_spec(),
        ensures
            rate == Self::extraction_rate_spec(
                *res,
                oprank as int,
                density as int,
                self.rank as int,
            ),
            1 <= rate,
    {
        let difficulty = res.extraction_difficulty();
        proof {
            assert(density as int * oprank <= 3000 * 255) by (nonlinear_arith)
                requires
                    density <= 3000,
                    oprank <= 255,
            ;
            assert(density as int * oprank * 1000 <= 3000 * 255 * 1000) by (nonlinear_arith)
                requires
                    density as int * oprank <= 3000 * 255,
            ;
            assert(density as int * oprank * 1000 >= difficulty * 1000) by (nonlinear_arith)
                requires
                    density as int * oprank >= difficulty,
            ;
            assert(difficulty as int * 1000 / difficulty as int == 1000) by {
                vstd::arithmetic::div_mod::lemma_div_multiples_vanish(
                    1000,
                    difficulty as int,
                );
                assert(difficulty as int * 1000 == 1000 * difficulty as int)
                    by (nonlinear_arith);
            }
            vstd::arithmetic::div_mod::lemma_div_is_ordered(
                difficulty as int * 1000,
                density as int * oprank as int * 1000,
                difficulty as int,
            );
        }
        let b: u64 = density * (oprank as u64) * 1000 / difficulty;
        let t4u = iroot((self.rank as u128) * 1000000000000, 4);
        proof {
            assert(pow(4001, 4) == 256256096016001) by {
                reveal_with_fuel(pow, 5);
            }
            if t4u >= 4001 {
                lemma_pow_base_le(4001, t4u as int, 4);
                assert(false);
            }
        }
        let rate_milli = pow_milli(b, t4u as u64);
        let rate = mul_div_sat(rate_milli, 1000, 1);
        proof {
            vstd::arithmetic::div_mod::lemma_div_multiples_vanish(
                rate_milli as int * 1000,
                1,
            );
            assert(rate_milli as int * 1000 >= 1000) by (nonlinear_arith)
                requires
                    rate_milli >= 1,
            ;
        }
        rate
    }

    /// The resources this module can currently extract, with their
    /// rates, in catalogue order.
    pub fn can_extract(&self, crew: &Crew, planet: &Planet) -> (out: Vec<(Resource, u64)>)
        requires
            self.wf(),
            crew.wf(),
            self.operator is Some ==> crew.contains_id(self.operator->Some_0),
        ensures
            self.operator is None ==> out@.len() == 0,
            forall|k: int|
                0 <= k < out@.len() ==> (#[trigger] out@[k]).1 >= 1 && self.admits(
                    crew.member_spec(self.operator->Some_0).rank,
                    *planet,
                    out@[k].0,
                ) && out@[k].1 == Self::extraction_rate_spec(
                    out@[k].0,
                    crew.member_spec(self.operator->Some_0).rank as int,
                    planet.resource_density_spec(out@[k].0),
                    self.rank as int,
                ),
            self.operator is Some ==> forall|i: int|
                0 <= i < RESOURCE_COUNT && self.admits(
                    crew.member_spec(self.operator->Some_0).rank,
                    *planet,
                    Resource::from_index_spec(i),
                ) ==> exists|k: int|
                    0 <= k < out@.len() && (#[trigger] out@[k]).0 == Resource::from_index_spec(i),
    {
        let opid = match self.operator {
            Some(id) => id,
            None => {
                return Vec::new();
            },
        };
        let cm = match crew.get(opid) {
            Some(cm) => *cm,
            None => {
                return Vec::new();
            },
        };
        proof {
            assert(crew.0@[crew.idx_of(opid)].1.wf());
        }
        let mut out: Vec<(Resource, u64)> = Vec::new();
        let mut i: usize = 0;
        while i < RESOURCE_COUNT
            invariant
                self.wf(),
                crew.wf(),
                self.operator == Some(opid),
                crew.contains_id(opid),
                cm == crew.member_spec(opid),
                cm.wf(),
                i <= RESOURCE_COUNT,
                forall|k: int|
                    0 <= k < out@.len() ==> (#[trigger] out@[k]).1 >= 1 && self.admits(
                        cm.rank,
                        *planet,
                        out@[k].0,
                    ) && out@[k].1 == Self::extraction_rate_spec(
                        out@[k].0,
                        cm.rank as int,
                        planet.resource_density_spec(out@[k].0),
                        self.rank as int,
                    ),
                forall|j: int|
                    0 <= j < i && self.admits(cm.rank, *planet, Resource::from_index_spec(j))
                        ==> exists|k: int|
                        0 <= k < out@.len() && (#[trigger] out@[k]).0
                            == Resource::from_index_spec(j),
            decreases RESOURCE_COUNT - i,
        {
            let ghost out0 = out@;
            let res = Resource::from_index(i);
            let density = planet.resource_density(&res);
            let admitted = if density == 0 {
                false
            } else {
                match self.modtype {
                    ShipModuleType::Miner => res.mineable(cm.rank),
                    ShipModuleType::GasSucker => res.suckable(cm.rank),
                }
            };
            if admitted {
                proof {
                    if res.extraction_difficulty_spec() == 80 {
                        assert(density as int * cm.rank >= 1000) by (nonlinear_arith)
                            requires
                                density >= 1000,
                                cm.rank >= 1,
                        ;
                    } else {
                        assert(cm.rank > 3);
                        assert(density as int * cm.rank >= 4000) by (nonlinear_arith)
                            requires
                                density >= 1000,
                                cm.rank >= 4,
                        ;
                    }
                }
                let rate = self.extraction_rate(&res, cm.rank, density);
                out.push((res, rate));
            }
            proof {
                let gi = i as int;
                assert forall|j: int|
                    0 <= j < gi + 1 && self.admits(
                        cm.rank,
                        *planet,
                        Resource::from_index_spec(j),
                    ) implies exists|k: int|
                    0 <= k < out@.len() && (#[trigger] out@[k]).0 == Resource::from_index_spec(
                        j,
                    ) by {
                    if j == gi {
                        assert(admitted);
                        assert(out@[out@.len() - 1].0 == Resource::from_index_spec(gi));
                    } else {
                        let k = choose|k: int|
                            0 <= k < out0.len() && (#[trigger] out0[k]).0
                                == Resource::from_index_spec(j);
                        assert(out@[k].0 == Resource::from_index_spec(j));
                    }
                }
            }
            i = i + 1;
        }
        out
    }
}

} // verus!
