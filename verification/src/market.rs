//! The commodity market: a stochastic price walk and fee-bearing trades.
//!
//! Prices are milli-currency per unit and stay strictly positive: every
//! update floors the new price at one thousandth of a currency unit.
//! Trades price the transferred quantity at the pre-trade price, and the
//! fee is exactly the value that does not reach the other side.

use vstd::prelude::*;

verus! {

use vstd::arithmetic::power::pow;
use crate::crew::CrewMember;
use crate::fixed::cap64;
use crate::fixed::floor_root;
use crate::fixed::iroot;
use crate::fixed::lemma_pow_base_le;
use crate::fixed::mul_div_sat;
use crate::resources::RESOURCE_COUNT;
use crate::resources::Resource;
use crate::rng::rand_below;
use crate::rng::std_normal_milli;

/// A price impact of one fifth for ten thousand currency of turnover:
/// divide the milli-value by this to get the milli-rate bump.
pub const PRICE_INC_DIV: u64 = 50000;

/// `1000 * rank^0.3`, rounded down.
pub open spec fn rank_root10_milli(rank: int) -> int {
    floor_root(rank * rank * rank * 1000000000000000000000000000000, 10)
}

/// Fee rate in milli: `0.2 / rank^1.3`.
pub open spec fn fee_rate_spec(rank: int) -> int {
    200000int / (rank * rank_root10_milli(rank))
}

/// Fee rate charged by a trader of the given rank.
pub fn fee_rate(rank: u8) -> (f: u64)
    requires
        1 <= rank,
    ensures
        f == fee_rate_spec(rank as int),
        f <= 200,
{
    let r = rank as u128;
    proof {
        assert(r * r <= 255 * 255 && 1 <= r * r * r <= 255 * 255 * 255) by (nonlinear_arith)
            requires
                1 <= r <= 255,
        ;
    }
    let n: u128 = r * r * r * 1000000000000000000000000000000;
    let t = iroot(n, 10);
    proof {
        assert(pow(1000, 10) == 1000000000000000000000000000000) by {
            reveal_with_fuel(pow, 11);
        }
        assert(pow(10000, 10) == 10000000000000000000000000000000000000000int) by {
            reveal_with_fuel(pow, 11);
        }
        if t < 1000 {
            lemma_pow_base_le(t as int + 1, 1000, 10);
            assert(false);
        }
        if t >= 10000 {
            lemma_pow_base_le(10000, t as int, 10);
            assert(false);
        }
    }
    let t64 = t as u64;
    proof {
        assert(1000 <= (rank as u64) * t64 <= 255 * 10000) by (nonlinear_arith)
            requires
                1 <= rank <= 255,
                1000 <= t64 < 10000,
        ;
        vstd::arithmetic::div_mod::lemma_div_is_ordered_by_denominator(
            200000,
            1000,
            rank as int * t64 as int,
        );
    }
    200000 / ((rank as u64) * t64)
}

/// One admissible drift move: the price holds, floors at one milli,
/// or scales by a factor `1 + c/1000` with `c` in `(-1000, 1000000]`.
pub open spec fn drift_step(oldp: int, newp: int) -> bool {
    newp == oldp || newp == 1 || exists|c: int|
        -1000 < c <= 1000000 && #[trigger] price_scaled(oldp, c) == newp
}

/// `oldp * (1000 + c) / 1000`, floored at one milli and clamped to the
/// 64-bit range.
pub open spec fn price_scaled(oldp: int, c: int) -> int {
    let sc = oldp * (1000 + c) / 1000;
    if sc > u64::MAX as int {
        u64::MAX as int
    } else if sc < 1 {
        1
    } else {
        sc
    }
}

/// Milli-value of `q` micro-units at `p` milli-currency per unit.
pub open spec fn qty_value_milli(q: int, p: int) -> int {
    cap64(q * p / 1000000)
}

/// What a trade moved: quantities in micro-units, money in milli.
#[derive(Clone, Copy, Debug)]
pub struct MarketTx {
    pub added_cargo: Option<(Resource, u64)>,
    pub removed_cargo: Option<(Resource, u64)>,
    pub added_money: Option<u64>,
    pub removed_money: Option<u64>,
    pub fees: u64,
}

#[derive(Debug)]
pub struct Market {
    /// Current price of each catalogue entry, milli-currency per unit.
    pub prices: Vec<u64>,
}

impl Market {
    pub open spec fn wf(self) -> bool {
        &&& self.prices@.len() == RESOURCE_COUNT
        &&& forall|i: int| 0 <= i < RESOURCE_COUNT ==> 1 <= #[trigger] self.prices@[i]
    }

    pub open spec fn price_spec(self, r: Resource) -> int {
        self.prices@[r.index_spec()] as int
    }

    /// A fresh market: every price sits on its base price.
    pub fn init() -> (m: Market)
        ensures
            m.wf(),
            forall|i: int|
                0 <= i < RESOURCE_COUNT ==> #[trigger] m.prices@[i]
                    == Resource::from_index_spec(i).base_price_spec(),
    {
        let mut prices: Vec<u64> = Vec::new();
        let mut i: usize = 0;
        while i < RESOURCE_COUNT
            invariant
                prices@.len() == i,
                i <= RESOURCE_COUNT,
                forall|j: int|
                    0 <= j < i ==> #[trigger] prices@[j] == Resource::from_index_spec(
                        j,
                    ).base_price_spec(),
            decreases RESOURCE_COUNT - i,
        {
            let r = Resource::from_index(i);
            prices.push(r.base_price());
            i = i + 1;
        }
        Market { prices }
    }

    pub fn price_of(&self, r: &Resource) -> (p: u64)
        requires
            self.wf(),
        ensures
            p == self.price_spec(*r),
            1 <= p,
    {
        let idx = r.index();
        self.prices[idx]
    }

    /// One drift step.  Each price moves independently with probability
    /// 0.65 by a factor `1 + change`, where `change` is normal with mean
    /// `(1 - price/base) * 0.02` and deviation `|mean| + 0.02`; the step
    /// is clamped to a thousandfold rise, and the result floors at one
    /// milli so prices stay strictly positive.
    pub fn update_prices(&mut self)
        requires
            old(self).wf(),
        ensures
            final(self).wf(),
            final(self).prices@.len() == old(self).prices@.len(),
            forall|j: int|
                0 <= j < RESOURCE_COUNT ==> drift_step(
                    old(self).prices@[j] as int,
                    #[trigger] final(self).prices@[j] as int,
                ),
    {
        let mut i: usize = 0;
        while i < RESOURCE_COUNT
            invariant
                self.wf(),
                i <= RESOURCE_COUNT,
                self.prices@.len() == old(self).prices@.len(),
                forall|j: int|
                    0 <= j < i ==> drift_step(
                        old(self).prices@[j] as int,
                        #[trigger] self.prices@[j] as int,
                    ),
                forall|j: int|
                    i <= j < RESOURCE_COUNT ==> #[trigger] self.prices@[j] == old(self).prices@[j],
            decreases RESOURCE_COUNT - i,
        {
            let roll = rand_below(1000);
            if roll < 650 {
                let p = self.prices[i];
                let base = Resource::from_index(i).base_price();
                let pratio: u128 = (p as u128) * 1000 / (base as u128);
                // The mean pull in milli: (1 - price/base) * 0.02.  Above
                // base it is negative; its magnitude is clamped far past
                // the point where the positivity floor takes over anyway.
                let pull_up: bool = pratio <= 1000;
                let avg_abs_raw: u128 = if pull_up {
                    (1000 - pratio) * 20 / 1000
                } else {
                    (pratio - 1000) * 20 / 1000
                };
                proof {
                    assert((p as u128) * 1000 <= u64::MAX as u128 * 1000) by (nonlinear_arith)
                        requires
                            p <= u64::MAX,
                    ;
                    vstd::arithmetic::div_mod::lemma_div_is_ordered(
                        0,
                        pratio as int,
                        base as int,
                    );
                }
                let avg_abs: u64 = if avg_abs_raw > 10000000 {
                    10000000
                } else {
                    avg_abs_raw as u64
                };
                let sdev: u64 = avg_abs + 20;
                let z = std_normal_milli();
                let zmag: u64 = if z >= 0 {
                    z as u64
                } else {
                    (-z) as u64
                };
                proof {
                    assert(sdev as int * zmag <= 10000020 * 6000) by (nonlinear_arith)
                        requires
                            sdev <= 10000020,
                            zmag <= 6000,
                    ;
                }
                let delta: u64 = sdev * zmag / 1000;
                let signed_avg: i64 = if pull_up {
                    avg_abs as i64
                } else {
                    -(avg_abs as i64)
                };
                let mut change: i64 = if z >= 0 {
                    signed_avg + (delta as i64)
                } else {
                    signed_avg - (delta as i64)
                };
                if change > 1000000 {
                    change = 1000000;
                }
                let newp: u64 = if change <= -1000 {
                    1
                } else {
                    let factor: u128 = (1000 + change) as u128;
                    proof {
                        assert((p as u128) * factor <= u64::MAX as u128 * 1001000)
                            by (nonlinear_arith)
                            requires
                                p <= u64::MAX,
                                factor <= 1001000,
                        ;
                    }
                    let scaled: u128 = (p as u128) * factor / 1000;
                    if scaled < 1 {
                        1
                    } else if scaled > u64::MAX as u128 {
                        u64::MAX
                    } else {
                        scaled as u64
                    }
                };
                proof {
                    if change > -1000 {
                        assert(price_scaled(p as int, change as int) == newp);
                        assert(drift_step(p as int, newp as int));
                    }
                }
                let slot = &mut self.prices[i];
                *slot = newp;
            }
            i = i + 1;
        }
    }

    /// Buy `amnt` micro-units: the full value leaves the buyer, the
    /// quantity net of the fee arrives, and the price takes a bump of
    /// between three quarters of `value / 50000` and that bound itself.
    pub fn buy(&mut self, trader: &CrewMember, r: &Resource, amnt: u64) -> (tx: MarketTx)
        requires
            old(self).wf(),
            trader.wf(),
            1 <= amnt,
        ensures
            final(self).wf(),
            final(self).prices@.len() == old(self).prices@.len(),
            forall|j: int|
                0 <= j < RESOURCE_COUNT && j != r.index_spec() ==> final(self).prices@[j] == old(self).prices@[j],
            final(self).price_spec(*r) >= old(self).price_spec(*r),
            tx.removed_cargo is None,
            tx.added_money is None,
            tx.added_cargo == Some((*r, (amnt - amnt * fee_rate_spec(trader.rank as int) / 1000) as u64)),
            tx.added_cargo->Some_0.1 <= amnt,
            tx.removed_money == Some(qty_value_milli(amnt as int, old(self).price_spec(*r)) as u64),
            tx.fees == qty_value_milli(amnt as int, old(self).price_spec(*r)) - qty_value_milli(
                amnt - amnt * fee_rate_spec(trader.rank as int) / 1000,
                old(self).price_spec(*r),
            ),
            tx.removed_money->Some_0 == qty_value_milli(
                tx.added_cargo->Some_0.1 as int,
                old(self).price_spec(*r),
            ) + tx.fees,
    {
        let fee = fee_rate(trader.rank);
        let idx = r.index();
        let price = self.prices[idx];
        let fee_qty = mul_div_sat(amnt, fee, 1000);
        proof {
            assert(amnt * fee <= amnt * 200) by (nonlinear_arith)
                requires
                    fee <= 200,
                    amnt >= 0,
            ;
            assert(amnt * 200 / 1000 < amnt) by (nonlinear_arith)
                requires
                    amnt >= 1,
            ;
            vstd::arithmetic::div_mod::lemma_div_is_ordered(
                amnt as int * fee as int,
                amnt as int * 200,
                1000,
            );
        }
        let kept = amnt - fee_qty;
        let removed = mul_div_sat(amnt, price, 1000000);
        let kept_value = mul_div_sat(kept, price, 1000000);
        proof {
            vstd::arithmetic::mul::lemma_mul_inequality(kept as int, amnt as int, price as int);
            vstd::arithmetic::div_mod::lemma_div_is_ordered(
                kept as int * price as int,
                amnt as int * price as int,
                1000000,
            );
        }
        let fees = removed - kept_value;
        let inc_max = removed / PRICE_INC_DIV;
        let inc_min = inc_max / 4 * 3;
        let u = inc_min + rand_below(inc_max - inc_min + 1);
        proof {
            vstd::arithmetic::div_mod::lemma_div_is_ordered(
                removed as int,
                u64::MAX as int,
                PRICE_INC_DIV as int,
            );
        }
        let newp = bump_up(price, u);
        let slot = &mut self.prices[idx];
        *slot = newp;
        MarketTx {
            added_cargo: Some((*r, kept)),
            removed_cargo: None,
            added_money: None,
            removed_money: Some(removed),
            fees,
        }
    }

    /// Sell `amnt` micro-units: the quantity leaves in full, the value
    /// net of the fee arrives, and the price drops the way a buy bumps.
    pub fn sell(&mut self, trader: &CrewMember, r: &Resource, amnt: u64) -> (tx: MarketTx)
        requires
            old(self).wf(),
            trader.wf(),
            1 <= amnt,
        ensures
            final(self).wf(),
            final(self).prices@.len() == old(self).prices@.len(),
            forall|j: int|
                0 <= j < RESOURCE_COUNT && j != r.index_spec() ==> final(self).prices@[j] == old(self).prices@[j],
            final(self).price_spec(*r) <= old(self).price_spec(*r),
            final(self).price_spec(*r) >= 1,
            tx.added_cargo is None,
            tx.removed_money is None,
            tx.removed_cargo == Some((*r, amnt)),
            tx.fees == qty_value_milli(amnt as int, old(self).price_spec(*r)) * fee_rate_spec(
                trader.rank as int,
            ) / 1000,
            tx.added_money == Some(
                (qty_value_milli(amnt as int, old(self).price_spec(*r)) - tx.fees) as u64,
            ),
            tx.added_money->Some_0 + tx.fees == qty_value_milli(
                amnt as int,
                old(self).price_spec(*r),
            ),
    {
        let fee = fee_rate(trader.rank);
        let idx = r.index();
        let price = self.prices[idx];
        let cost = mul_div_sat(amnt, price, 1000000);
        let fees = mul_div_sat(cost, fee, 1000);
        proof {
            assert(cost * fee <= cost * 200) by (nonlinear_arith)
                requires
                    fee <= 200,
                    cost >= 0,
            ;
            assert(cost * 200 / 1000 <= cost) by (nonlinear_arith)
                requires
                    cost >= 0,
            ;
            vstd::arithmetic::div_mod::lemma_div_is_ordered(
                cost as int * fee as int,
                cost as int * 200,
                1000,
            );
        }
        let credit = cost - fees;
        let dec_max = cost / PRICE_INC_DIV;
        let dec_min = dec_max / 4 * 3;
        let d = dec_min + rand_below(dec_max - dec_min + 1);
        let newp = bump_down(price, d);
        let slot = &mut self.prices[idx];
        *slot = newp;
        MarketTx {
            added_cargo: None,
            removed_cargo: Some((*r, amnt)),
            added_money: Some(credit),
            removed_money: None,
            fees,
        }
    }
}

/// Raise `price` by the milli-rate `u`, clamped to the 64-bit range and
/// never below the old price.
fn bump_up(price: u64, u: u64) -> (newp: u64)
    requires
        1 <= price,
        u <= 1000000000000000,
    ensures
        price <= newp,
        1 <= newp,
{
    let factor: u128 = 1000 + (u as u128);
    proof {
        assert((price as u128) * factor <= u64::MAX as u128 * 1000001000000000)
            by (nonlinear_arith)
            requires
                price <= u64::MAX,
                factor <= 1000001000000000,
        ;
        let p = price as int;
        let f = 1000 + u as int;
        vstd::arithmetic::mul::lemma_mul_left_inequality(p, 1000, f);
        vstd::arithmetic::div_mod::lemma_div_is_ordered(p * 1000, p * f, 1000);
        assert(p * 1000 / 1000 == p) by {
            vstd::arithmetic::div_mod::lemma_div_multiples_vanish(p, 1000);
            assert(p * 1000 == 1000 * p) by (nonlinear_arith);
        }
    }
    let scaled: u128 = (price as u128) * factor / 1000;
    if scaled > u64::MAX as u128 {
        u64::MAX
    } else {
        scaled as u64
    }
}

/// Lower `price` by the milli-rate `d`, flooring at one milli.
fn bump_down(price: u64, d: u64) -> (newp: u64)
    requires
        1 <= price,
    ensures
        1 <= newp <= price,
{
    if d >= 1000 {
        1
    } else {
        let exact = mul_div_sat(price, 1000 - d, 1000);
        proof {
            let p = price as int;
            vstd::arithmetic::mul::lemma_mul_inequality(1000 - d as int, 1000, p);
            assert(p * (1000 - d as int) == (1000 - d as int) * p) by (nonlinear_arith);
            assert(p * 1000 == 1000 * p) by (nonlinear_arith);
            vstd::arithmetic::div_mod::lemma_div_is_ordered(p * (1000 - d as int), p * 1000, 1000);
            assert(p * 1000 / 1000 == p) by {
                vstd::arithmetic::div_mod::lemma_div_multiples_vanish(p, 1000);
            }
        }
        if exact < 1 {
            1
        } else {
            exact
        }
    }
}

/// The positivity law: however the drift and the trades move a
/// well-formed market, every price stays strictly positive.
pub proof fn lemma_market_positive(m: Market, r: Resource)
    requires
        m.wf(),
    ensures
        m.price_spec(r) >= 1,
{
    assert(0 <= r.index_spec() < RESOURCE_COUNT);
}

} // verus!
