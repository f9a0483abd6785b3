//! Stations: dockside crew, cargo, shipyard, and market access.
//!
//! A buy prices the quantity at the pre-trade price and moves the fee
//! to the market, so the money a player spends always equals the value
//! the station receives plus the fees.

use vstd::prelude::*;

verus! {

use crate::cargo::ShipCargo;
use crate::crew::Crew;
use crate::crew::CrewId;
use crate::crew::CrewMemberType;
use crate::errors::Errcode;
use crate::fixed::cap64;
use crate::fixed::mul_div_sat;
use crate::fixed::pow_milli;
use crate::fixed::pow_milli_spec;
use crate::galaxy::SpaceCoord;
use crate::market::Market;
use crate::market::MarketTx;
use crate::market::qty_value_milli;
use crate::market::fee_rate_spec;
use crate::player::money_add;
use crate::player::money_sub;
use crate::player::Player;
use crate::resources::Resource;
use crate::ship::Ship;
use crate::upgrade::ShipUpgrade;

pub type StationId = u16;

/// A new station's cargo hold, in nano-volume (1000 units).
pub const STATION_INIT_CARGO: u64 = 1000000000000;

/// What a scanner reports about a station.
#[derive(Clone, Copy, Debug)]
pub struct StationInfo {
    pub id: StationId,
    pub position: SpaceCoord,
}

#[derive(Debug)]
pub struct Station {
    pub id: StationId,
    pub position: SpaceCoord,
    pub idle_crew: Crew,
    pub crew: Crew,
    pub shipyard: Vec<Ship>,
    pub cargo: ShipCargo,
    pub trader: Option<CrewId>,
}

impl StationInfo {
    pub fn scan(rank: u8, station: &Station) -> (info: StationInfo)
        ensures
            info.id == station.id,
            info.position == station.position,
    {
        let _ = rank;
        StationInfo { id: station.id, position: station.position }
    }
}

/// Milli-price of one unit of station cargo expansion:
/// `2 * 2^((capacity - 1000) / 1000)`, the exponent clamped far past
/// 64-bit saturation.
pub open spec fn cargo_price_spec(cap_nano: int) -> int {
    cap64(
        2000 * pow_milli_spec(
            2000,
            if (cap_nano - 1000000000000) / 1000000000 > 100000000 {
                100000000
            } else {
                (cap_nano - 1000000000000) / 1000000000
            },
        ) / 1000,
    )
}

impl Station {
    pub open spec fn wf(self) -> bool {
        &&& self.idle_crew.wf()
        &&& self.crew.wf()
        &&& self.cargo.wf()
        &&& self.cargo.capacity >= STATION_INIT_CARGO
        &&& forall|i: int| 0 <= i < self.shipyard@.len() ==> (#[trigger] self.shipyard@[i]).wf()
        &&& (self.trader is Some ==> self.crew.contains_id(self.trader->Some_0))
    }

    /// A new station with three hulls for sale and an empty hold.
    pub fn init(id: StationId, position: SpaceCoord) -> (st: Station)
        ensures
            st.wf(),
            st.id == id,
            st.position == position,
            st.shipyard@.len() == 3,
            st.trader is None,
            st.cargo.capacity == STATION_INIT_CARGO,
            st.crew.0@.len() == 0,
            st.idle_crew.0@.len() == 0,
            st.shipyard@[0].reactor_power == 1 && st.shipyard@[0].fuel_tank_capacity
                == 1000000000 && st.shipyard@[0].cargo.capacity == 500000000000
                && st.shipyard@[0].hull_decay_capacity == 3000000000,
    {
        Station {
            id,
            position,
            idle_crew: Crew::new(),
            crew: Crew::new(),
            shipyard: Ship::init_shipyard(position),
            cargo: ShipCargo::with_capacity(STATION_INIT_CARGO),
            trader: None,
        }
    }

    /// Scan the sector around this station.
    pub fn scan(&self, galaxy: &crate::galaxy::Galaxy) -> (r: crate::scan::ScanResult)
        requires
            galaxy.wf(),
    {
        galaxy.scan_sector(1, &self.position)
    }

    /// Milli-price of one unit of cargo expansion at the current size.
    pub fn cargo_price(&self) -> (p: u64)
        requires
            self.wf(),
        ensures
            p == cargo_price_spec(self.cargo.capacity as int),
    {
        let over = (self.cargo.capacity - STATION_INIT_CARGO) / 1000000000;
        let e: u64 = if over > 100000000 {
            100000000
        } else {
            over
        };
        let f = pow_milli(2000, e);
        mul_div_sat(2000, f, 1000)
    }

    /// Buy `amnt` units of cargo expansion at the current price.
    pub fn buy_cargo(&mut self, player: &mut Player, amnt: u64) -> (r: Result<u64, Errcode>)
        requires
            old(self).wf(),
            old(player).wf(),
        ensures
            final(self).wf(),
            final(self).id == old(self).id,
            final(self).position == old(self).position,
            final(player).wf(),
            final(player).id == old(player).id,
            final(player).key@ == old(player).key@,
            final(player).lost == old(player).lost,
            match r {
                Ok(cost) => {
                    &&& cost == cap64(amnt * cargo_price_spec(old(self).cargo.capacity as int))
                    &&& old(player).money >= 0 && cost <= old(player).money
                    &&& final(player).money == old(player).money - cost
                    &&& final(self).cargo.capacity == cap64(
                        old(self).cargo.capacity + cap64(amnt * 1000000000),
                    )
                },
                Err(e) => {
                    &&& e is NotEnoughMoney
                    &&& !(old(player).money >= 0 && cap64(
                        amnt * cargo_price_spec(old(self).cargo.capacity as int),
                    ) <= old(player).money)
                    &&& *final(self) == *old(self)
                    &&& *final(player) == *old(player)
                },
            },
    {
        let price = self.cargo_price();
        let cost = mul_div_sat(amnt, price, 1);
        proof {
            vstd::arithmetic::div_mod::lemma_div_multiples_vanish(
                amnt as int * price as int,
                1,
            );
        }
        if player.money < 0 || cost > (player.money as u64) {
            return Err(Errcode::NotEnoughMoney(player.money, cost));
        }
        player.money = player.money - (cost as i64);
        let add = mul_div_sat(amnt, 1000000000, 1);
        proof {
            vstd::arithmetic::div_mod::lemma_div_multiples_vanish(
                amnt as int * 1000000000,
                1,
            );
        }
        self.cargo.expand(add);
        Ok(cost)
    }

    /// Move an idle crew member to the trading desk.
    pub fn assign_trader(&mut self, id: CrewId) -> (r: Result<(), Errcode>)
        requires
            old(self).wf(),
        ensures
            final(self).wf(),
            final(self).id == old(self).id,
            final(self).position == old(self).position,
            match r {
                Ok(()) => {
                    &&& old(self).idle_crew.contains_id(id)
                    &&& !old(self).crew.contains_id(id)
                    &&& final(self).trader == Some(id)
                    &&& final(self).crew.contains_id(id)
                    &&& final(self).crew.0@ == old(self).crew.0@.push(
                        (id, old(self).idle_crew.member_spec(id)),
                    )
                    &&& exists|i: int|
                        {
                            &&& 0 <= i < old(self).idle_crew.0@.len()
                            &&& old(self).idle_crew.0@[i].0 == id
                            &&& final(self).idle_crew.0@ == old(self).idle_crew.0@.remove(i)
                        }
                    &&& *final(self) == (Station {
                        idle_crew: final(self).idle_crew,
                        crew: final(self).crew,
                        trader: final(self).trader,
                        ..*old(self)
                    })
                },
                Err(e) => {
                    &&& e is CrewMemberNotIdle
                    &&& (old(self).crew.contains_id(id) || !old(self).idle_crew.contains_id(
                        id,
                    ))
                    &&& *final(self) == *old(self)
                },
            },
    {
        if self.crew.get(id).is_some() {
            return Err(Errcode::CrewMemberNotIdle(id));
        }
        let cm = match self.idle_crew.remove(id) {
            Some(cm) => cm,
            None => {
                return Err(Errcode::CrewMemberNotIdle(id));
            },
        };
        self.crew.insert(id, cm);
        self.trader = Some(id);
        Ok(())
    }

    /// Put an idle pilot at the helm of a docked ship.
    pub fn onboard_pilot(&mut self, id: CrewId, ship: &mut Ship) -> (r: Result<(), Errcode>)
        requires
            old(self).wf(),
            old(ship).wf(),
        ensures
            final(self).wf(),
            final(self).id == old(self).id,
            final(self).position == old(self).position,
            final(ship).wf(),
            final(ship).id == old(ship).id,
            final(ship).position == old(ship).position,
            ({
                let idle = old(self).idle_crew.contains_id(id);
                let right_type = idle && old(self).idle_crew.member_spec(id).member_type
                    == CrewMemberType::Pilot;
                match r {
                    Ok(()) => {
                        &&& right_type
                        &&& old(ship).pilot is None
                        &&& !old(ship).crew.contains_id(id)
                        &&& final(ship).pilot == Some(id)
                        &&& final(ship).crew.0@ == old(ship).crew.0@.push(
                            (id, old(self).idle_crew.member_spec(id)),
                        )
                        &&& final(ship).stats == Ship::perf_stats_spec(
                            old(ship).reactor_power,
                            Some(old(self).idle_crew.member_spec(id).rank),
                        )
                        &&& *final(ship) == (Ship {
                            crew: final(ship).crew,
                            pilot: Some(id),
                            stats: final(ship).stats,
                            ..*old(ship)
                        })
                        &&& exists|i: int|
                            {
                                &&& 0 <= i < old(self).idle_crew.0@.len()
                                &&& old(self).idle_crew.0@[i].0 == id
                                &&& final(self).idle_crew.0@ == old(self).idle_crew.0@.remove(
                                    i,
                                )
                            }
                        &&& *final(self) == (Station {
                            idle_crew: final(self).idle_crew,
                            ..*old(self)
                        })
                    },
                    Err(e) => {
                        &&& *final(self) == *old(self)
                        &&& *final(ship) == *old(ship)
                        &&& (e is WrongCrewType <==> idle && !right_type)
                        &&& (e is CrewNotNeeded <==> right_type && old(ship).pilot is Some)
                        &&& (e is CrewMemberNotIdle <==> !idle || (right_type && old(
                            ship,
                        ).pilot is None && old(ship).crew.contains_id(id)))
                        &&& (e is CrewMemberNotIdle || e is WrongCrewType
                            || e is CrewNotNeeded)
                    },
                }
            }),
    {
        let cm = match self.idle_crew.get(id) {
            Some(cm) => *cm,
            None => {
                return Err(Errcode::CrewMemberNotIdle(id));
            },
        };
        match cm.member_type {
            CrewMemberType::Pilot => {},
            _ => {
                return Err(Errcode::WrongCrewType(CrewMemberType::Pilot));
            },
        }
        if ship.pilot.is_some() {
            return Err(Errcode::CrewNotNeeded);
        }
        if ship.crew.get(id).is_some() {
            return Err(Errcode::CrewMemberNotIdle(id));
        }
        let removed = match self.idle_crew.remove(id) {
            Some(m) => m,
            None => {
                return Err(Errcode::CrewMemberNotIdle(id));
            },
        };
        ship.crew.insert(id, removed);
        ship.pilot = Some(id);
        proof {
            assert(removed.member_type == CrewMemberType::Pilot) by {
                let w = choose|w: int|
                    0 <= w < old(self).idle_crew.0@.len() && old(self).idle_crew.0@[w] == (
                    id,
                    removed,
                );
                let j = old(self).idle_crew.idx_of(id);
                assert(0 <= j < old(self).idle_crew.0@.len() && old(self).idle_crew.0@[j].0
                    == id);
                if w < j {
                    assert(old(self).idle_crew.0@[w].0 != old(self).idle_crew.0@[j].0);
                } else if j < w {
                    assert(old(self).idle_crew.0@[j].0 != old(self).idle_crew.0@[w].0);
                }
            }
            let last = ship.crew.0@.len() - 1;
            assert(ship.crew.0@[last] == (id, removed));
            assert(ship.crew.member_spec(id) == removed) by {
                let j = ship.crew.idx_of(id);
                assert(0 <= j < ship.crew.0@.len() && ship.crew.0@[j].0 == id);
                if j < last {
                    assert(ship.crew.0@[j].0 != ship.crew.0@[last].0);
                }
            }
            assert forall|a: int|
                0 <= a < ship.modules@.len() && (#[trigger] ship.modules@[a]).1.operator
                    is Some implies ship.crew.contains_id(ship.modules@[a].1.operator->Some_0)
                by {
                let oid = ship.modules@[a].1.operator->Some_0;
                assert(old(ship).crew.contains_id(oid));
                let w = choose|w: int|
                    0 <= w < old(ship).crew.0@.len() && old(ship).crew.0@[w].0 == oid;
                assert(ship.crew.0@[w].0 == oid);
            }
        }
        ship.update_perf_stats();
        Ok(())
    }

    /// Put an idle operator in charge of a module of a docked ship.
    pub fn onboard_operator(&mut self, id: CrewId, ship: &mut Ship, modid: u16) -> (r: Result<
        (),
        Errcode,
    >)
        requires
            old(self).wf(),
            old(ship).wf(),
        ensures
            final(self).wf(),
            final(self).id == old(self).id,
            final(self).position == old(self).position,
            final(ship).wf(),
            final(ship).id == old(ship).id,
            final(ship).position == old(ship).position,
            ({
                let idle = old(self).idle_crew.contains_id(id);
                let right_type = idle && old(self).idle_crew.member_spec(id).member_type
                    == CrewMemberType::Operator;
                let has_mod = exists|i: int|
                    0 <= i < old(ship).modules@.len() && (#[trigger] old(ship).modules@[
                    i]).0 == modid;
                match r {
                    Ok(()) => {
                        &&& right_type
                        &&& has_mod
                        &&& !old(ship).crew.contains_id(id)
                        &&& final(ship).crew.0@ == old(ship).crew.0@.push(
                            (id, old(self).idle_crew.member_spec(id)),
                        )
                        &&& exists|i: int|
                            {
                                &&& 0 <= i < old(ship).modules@.len()
                                &&& old(ship).modules@[i].0 == modid
                                &&& old(ship).modules@[i].1.operator is None
                                &&& final(ship).modules@ == old(ship).modules@.update(
                                    i,
                                    (
                                        modid,
                                        crate::module::ShipModule {
                                            operator: Some(id),
                                            ..old(ship).modules@[i].1
                                        },
                                    ),
                                )
                            }
                        &&& *final(ship) == (Ship {
                            crew: final(ship).crew,
                            modules: final(ship).modules,
                            ..*old(ship)
                        })
                        &&& exists|i: int|
                            {
                                &&& 0 <= i < old(self).idle_crew.0@.len()
                                &&& old(self).idle_crew.0@[i].0 == id
                                &&& final(self).idle_crew.0@ == old(self).idle_crew.0@.remove(
                                    i,
                                )
                            }
                        &&& *final(self) == (Station {
                            idle_crew: final(self).idle_crew,
                            ..*old(self)
                        })
                    },
                    Err(e) => {
                        &&& *final(self) == *old(self)
                        &&& *final(ship) == *old(ship)
                        &&& (e is CrewMemberNotIdle ==> !idle || old(ship).crew.contains_id(
                            id,
                        ))
                        &&& (e is WrongCrewType <==> idle && !right_type)
                        &&& (e is NoSuchModule <==> right_type && !has_mod)
                        &&& (e is CrewMemberNotIdle || e is WrongCrewType
                            || e is NoSuchModule || e is CrewNotNeeded)
                    },
                }
            }),
    {
        let cm = match self.idle_crew.get(id) {
            Some(cm) => *cm,
            None => {
                return Err(Errcode::CrewMemberNotIdle(id));
            },
        };
        match cm.member_type {
            CrewMemberType::Operator => {},
            _ => {
                return Err(Errcode::WrongCrewType(CrewMemberType::Operator));
            },
        }
        let mi = match ship.find_module(modid) {
            Some(mi) => mi,
            None => {
                return Err(Errcode::NoSuchModule(modid));
            },
        };
        let needs = ship.modules[mi].1.need(&cm.member_type);
        if !needs {
            return Err(Errcode::CrewNotNeeded);
        }
        if ship.crew.get(id).is_some() {
            return Err(Errcode::CrewMemberNotIdle(id));
        }
        let removed = match self.idle_crew.remove(id) {
            Some(m) => m,
            None => {
                return Err(Errcode::CrewMemberNotIdle(id));
            },
        };
        ship.crew.insert(id, removed);
        let old_pair = ship.modules[mi];
        let slot = &mut ship.modules[mi];
        *slot = (
            old_pair.0,
            crate::module::ShipModule {
                operator: Some(id),
                modtype: old_pair.1.modtype,
                rank: old_pair.1.rank,
                totalcost: old_pair.1.totalcost,
            },
        );
        proof {
            assert(ship.crew.0@[ship.crew.0@.len() - 1].0 == id);
            assert forall|i: int|
                0 <= i < ship.modules@.len() && (#[trigger] ship.modules@[i]).1.operator
                    is Some implies ship.crew.contains_id(ship.modules@[i].1.operator->Some_0)
                by {
                if i != mi {
                    assert(old(ship).crew.contains_id(ship.modules@[i].1.operator->Some_0));
                    let w = choose|w: int|
                        0 <= w < old(ship).crew.0@.len() && old(ship).crew.0@[w].0
                            == ship.modules@[i].1.operator->Some_0;
                    assert(ship.crew.0@[w].0 == ship.modules@[i].1.operator->Some_0);
                }
            }
            match ship.pilot {
                Some(pid) => {
                    assert(pid != id) by {
                        let w = choose|w: int|
                            0 <= w < old(ship).crew.0@.len() && old(ship).crew.0@[w].0 == pid;
                        if pid == id {
                            assert(old(ship).crew.contains_id(id));
                        }
                    }
                    crate::crew::Crew::lemma_member_after_push(
                        old(ship).crew,
                        ship.crew,
                        id,
                        removed,
                        pid,
                    );
                },
                None => {},
            }
        }
        Ok(())
    }

    /// Buy `amnt` micro-units of `resource` on the market through the
    /// station's trader; the quantity is clamped to the cargo space.
    pub fn buy_resource(&mut self, resource: &Resource, amnt: u64, player: &mut Player,
        market: &mut Market) -> (r: Result<MarketTx, Errcode>)
        requires
            old(self).wf(),
            old(player).wf(),
            old(market).wf(),
        ensures
            final(self).wf(),
            final(self).id == old(self).id,
            final(self).position == old(self).position,
            final(player).wf(),
            final(player).id == old(player).id,
            final(player).key@ == old(player).key@,
            final(player).lost == old(player).lost,
            final(market).wf(),
            ({
                let space = (old(self).cargo.capacity - old(self).cargo.usage)
                    / resource.volume_spec();
                let clamped = if amnt <= space {
                    amnt as int
                } else {
                    space
                };
                let fee = fee_rate_spec(
                    old(self).crew.member_spec(old(self).trader->Some_0).rank as int,
                );
                match r {
                    Ok(tx) => {
                        &&& old(self).trader is Some
                        &&& clamped > 0
                        &&& tx.removed_money == Some(
                            qty_value_milli(clamped, old(market).price_spec(*resource)) as u64,
                        )
                        &&& tx.added_cargo == Some(
                            (*resource, (clamped - clamped * fee / 1000) as u64),
                        )
                        &&& final(player).money == money_sub(
                            old(player).money as int,
                            tx.removed_money->Some_0 as int,
                        )
                        &&& final(self).cargo.amount_spec(*resource) == old(self).cargo.amount_spec(*resource) + tx.added_cargo->Some_0.1
                        &&& tx.removed_money->Some_0 == qty_value_milli(
                            tx.added_cargo->Some_0.1 as int,
                            old(market).price_spec(*resource),
                        ) + tx.fees
                        &&& final(market).price_spec(*resource) >= old(market).price_spec(
                            *resource,
                        )
                    },
                    Err(e) => {
                        &&& (e is NoTraderAssigned <==> old(self).trader is None)
                        &&& (e is BuyNothing <==> old(self).trader is Some && clamped == 0)
                        &&& (e is NoTraderAssigned || e is BuyNothing)
                        &&& *final(self) == *old(self)
                        &&& *final(player) == *old(player)
                        &&& *final(market) == *old(market)
                    },
                }
            }),
    {
        let trader = match self.trader {
            Some(t) => t,
            None => {
                return Err(Errcode::NoTraderAssigned);
            },
        };
        let cm = match self.crew.get(trader) {
            Some(cm) => *cm,
            None => {
                return Err(Errcode::NoTraderAssigned);
            },
        };
        proof {
            assert(self.crew.0@[self.crew.idx_of(trader)].1.wf());
        }
        let can_cargo = self.cargo.space_for(resource);
        let amnt = if amnt < can_cargo {
            amnt
        } else {
            can_cargo
        };
        if amnt == 0 {
            return Err(Errcode::BuyNothing);
        }
        let tx = market.buy(&cm, resource, amnt);
        let cost = match tx.removed_money {
            Some(c) => c,
            None => 0,
        };
        charge(player, cost);
        let kept = match tx.added_cargo {
            Some((_, q)) => q,
            None => 0,
        };
        proof {
            let vol = resource.volume_spec();
            let space = (self.cargo.capacity - self.cargo.usage) as int;
            assert(vol * kept <= vol * (space / vol)) by {
                vstd::arithmetic::mul::lemma_mul_left_inequality(vol, kept as int, space / vol);
            }
            assert(vol * (space / vol) <= space) by {
                vstd::arithmetic::div_mod::lemma_fundamental_div_mod(space, vol);
                vstd::arithmetic::div_mod::lemma_mod_division_less_than_divisor(space, vol);
            }
        }
        let added = self.cargo.add_resource(resource, kept);
        Ok(tx)
    }

    /// Sell up to `amnt` micro-units of `resource` from the station
    /// cargo; the credit net of the fee goes to the player.
    pub fn sell_resource(&mut self, resource: &Resource, amnt: u64, player: &mut Player,
        market: &mut Market) -> (r: Result<MarketTx, Errcode>)
        requires
            old(self).wf(),
            old(player).wf(),
            old(market).wf(),
        ensures
            final(self).wf(),
            final(self).id == old(self).id,
            final(self).position == old(self).position,
            final(player).wf(),
            final(player).id == old(player).id,
            final(player).key@ == old(player).key@,
            final(player).lost == old(player).lost,
            final(market).wf(),
            ({
                let stock = old(self).cargo.amount_spec(*resource);
                let clamped = if amnt <= stock {
                    amnt as int
                } else {
                    stock
                };
                let fee = fee_rate_spec(
                    old(self).crew.member_spec(old(self).trader->Some_0).rank as int,
                );
                match r {
                    Ok(tx) => {
                        &&& old(self).trader is Some
                        &&& clamped > 0
                        &&& tx.removed_cargo == Some((*resource, clamped as u64))
                        &&& tx.fees == qty_value_milli(
                            clamped,
                            old(market).price_spec(*resource),
                        ) * fee / 1000
                        &&& tx.added_money == Some(
                            (qty_value_milli(clamped, old(market).price_spec(*resource))
                                - tx.fees) as u64,
                        )
                        &&& final(player).money == money_add(
                            old(player).money as int,
                            tx.added_money->Some_0 as int,
                        )
                        &&& final(self).cargo.amount_spec(*resource) == old(self).cargo.amount_spec(*resource) - clamped
                        &&& tx.added_money->Some_0 + tx.fees == qty_value_milli(
                            clamped,
                            old(market).price_spec(*resource),
                        )
                        &&& final(market).price_spec(*resource) <= old(market).price_spec(
                            *resource,
                        )
                        &&& final(market).price_spec(*resource) >= 1
                    },
                    Err(e) => {
                        &&& (e is NoTraderAssigned <==> old(self).trader is None)
                        &&& (e is SellNothing <==> old(self).trader is Some && clamped == 0)
                        &&& (e is NoTraderAssigned || e is SellNothing)
                        &&& *final(self) == *old(self)
                        &&& *final(player) == *old(player)
                        &&& *final(market) == *old(market)
                    },
                }
            }),
    {
        let trader = match self.trader {
            Some(t) => t,
            None => {
                return Err(Errcode::NoTraderAssigned);
            },
        };
        let cm = match self.crew.get(trader) {
            Some(cm) => *cm,
            None => {
                return Err(Errcode::NoTraderAssigned);
            },
        };
        proof {
            assert(self.crew.0@[self.crew.idx_of(trader)].1.wf());
        }
        let stock = self.cargo.amount_of(resource);
        let amnt = if amnt < stock {
            amnt
        } else {
            stock
        };
        if amnt == 0 {
            return Err(Errcode::SellNothing);
        }
        let tx = market.sell(&cm, resource, amnt);
        let credit = match tx.added_money {
            Some(c) => c,
            None => 0,
        };
        credit_player(player, credit);
        let unloaded = self.cargo.unload(resource, amnt);
        Ok(tx)
    }

    /// Top the ship's tank up from the Fuel in the station cargo.
    pub fn refuel_ship(&mut self, ship: &mut Ship) -> (r: Result<u64, Errcode>)
        requires
            old(self).wf(),
            old(ship).wf(),
        ensures
            final(self).wf(),
            final(self).id == old(self).id,
            final(self).position == old(self).position,
            final(ship).wf(),
            final(ship).id == old(ship).id,
            final(ship).position == old(ship).position,
            match r {
                Ok(moved) => {
                    &&& old(self).cargo.amount_spec(Resource::Fuel) > 0
                    &&& moved == if old(ship).fuel_tank_capacity - old(ship).fuel_tank <= old(self).cargo.amount_spec(Resource::Fuel) {
                        old(ship).fuel_tank_capacity - old(ship).fuel_tank
                    } else {
                        old(self).cargo.amount_spec(Resource::Fuel)
                    }
                    &&& final(ship).fuel_tank == old(ship).fuel_tank + moved
                    &&& final(ship).fuel_tank <= final(ship).fuel_tank_capacity
                    &&& *final(ship) == (Ship { fuel_tank: final(ship).fuel_tank, ..*old(ship) })
                    &&& final(self).cargo.amount_spec(Resource::Fuel) == old(self).cargo.amount_spec(Resource::Fuel) - moved
                },
                Err(e) => {
                    &&& e is NoFuelInCargo
                    &&& old(self).cargo.amount_spec(Resource::Fuel) == 0
                    &&& *final(self) == *old(self)
                    &&& *final(ship) == *old(ship)
                },
            },
    {
        let fuel = Resource::Fuel;
        let qty = self.cargo.amount_of(&fuel);
        if qty == 0 {
            return Err(Errcode::NoFuelInCargo);
        }
        let needed = ship.fuel_tank_capacity - ship.fuel_tank;
        let want = if needed < qty {
            needed
        } else {
            qty
        };
        let unloaded = self.cargo.unload(&fuel, want);
        ship.fuel_tank = ship.fuel_tank + unloaded;
        Ok(unloaded)
    }

    /// Mend the ship's hull with HullPlate from the station cargo.
    pub fn repair_ship(&mut self, ship: &mut Ship) -> (r: Result<u64, Errcode>)
        requires
            old(self).wf(),
            old(ship).wf(),
        ensures
            final(self).wf(),
            final(self).id == old(self).id,
            final(self).position == old(self).position,
            final(ship).wf(),
            final(ship).id == old(ship).id,
            final(ship).position == old(ship).position,
            match r {
                Ok(moved) => {
                    &&& old(self).cargo.amount_spec(Resource::HullPlate) > 0
                    &&& moved == if old(ship).hull_decay <= old(self).cargo.amount_spec(Resource::HullPlate) {
                        old(ship).hull_decay as int
                    } else {
                        old(self).cargo.amount_spec(Resource::HullPlate)
                    }
                    &&& final(ship).hull_decay == old(ship).hull_decay - moved
                    &&& *final(ship) == (Ship { hull_decay: final(ship).hull_decay, ..*old(ship) })
                    &&& final(self).cargo.amount_spec(Resource::HullPlate) == old(self).cargo.amount_spec(Resource::HullPlate) - moved
                },
                Err(e) => {
                    &&& e is NoHullPlateInCargo
                    &&& old(self).cargo.amount_spec(Resource::HullPlate) == 0
                    &&& *final(self) == *old(self)
                    &&& *final(ship) == *old(ship)
                },
            },
    {
        let plate = Resource::HullPlate;
        let qty = self.cargo.amount_of(&plate);
        if qty == 0 {
            return Err(Errcode::NoHullPlateInCargo);
        }
        let amnt = if ship.hull_decay < qty {
            ship.hull_decay
        } else {
            qty
        };
        if amnt == 0 {
            return Ok(0);
        }
        let unloaded = self.cargo.unload(&plate, amnt);
        ship.hull_decay = ship.hull_decay - unloaded;
        Ok(unloaded)
    }

    /// Price of a fixed ship upgrade at this station.
    pub fn get_ship_upgrade_price(&self, upgrade: &ShipUpgrade) -> (p: u64)
        ensures
            p == upgrade.price_spec(),
    {
        upgrade.get_price()
    }
}

/// The accounting law of a buy: the money that left the wallet equals
/// the value, at the pre-trade price, of the quantity that reached the
/// station's hold, plus the fees the market took.
pub proof fn lemma_buy_accounting(
    money0: int,
    money1: int,
    removed: int,
    kept_value: int,
    fees: int,
)
    requires
        money1 == money_sub(money0, removed),
        money0 - removed >= i64::MIN,
        removed == kept_value + fees,
    ensures
        (money0 - money1) - kept_value - fees == 0,
{
}

/// Take milli-currency from the wallet, clamping at the 64-bit floor.
fn charge(player: &mut Player, cost: u64)
    requires
        old(player).wf(),
    ensures
        final(player).wf(),
        final(player).money == money_sub(old(player).money as int, cost as int),
        *final(player) == (Player { money: final(player).money, ..*old(player) }),
{
    let m: i128 = (player.money as i128) - (cost as i128);
    player.money = if m < i64::MIN as i128 {
        i64::MIN
    } else {
        m as i64
    };
}

/// Credit milli-currency, clamping at the 64-bit ceiling.
fn credit_player(player: &mut Player, credit: u64)
    requires
        old(player).wf(),
    ensures
        final(player).wf(),
        final(player).money == money_add(old(player).money as int, credit as int),
        *final(player) == (Player { money: final(player).money, ..*old(player) }),
{
    let m: i128 = (player.money as i128) + (credit as i128);
    player.money = if m > i64::MAX as i128 {
        i64::MAX
    } else {
        m as i64
    };
}

} // verus!
