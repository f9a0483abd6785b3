//! The deterministic formulas: wages, fees, module prices, and the
//! money accounting of market trades.

use simeis::crew::CrewMember;
use simeis::crew::CrewMemberType;
use simeis::market::fee_rate;
use simeis::market::Market;
use simeis::module::ShipModule;
use simeis::module::ShipModuleType;
use simeis::resources::Resource;
use simeis::upgrade::ShipUpgrade;

#[test]
fn rank_one_wages_are_exact() {
    let pilot = CrewMember::recruit(CrewMemberType::Pilot);
    assert_eq!(pilot.wage(), 5_000);
    assert_eq!(pilot.price_next_rank(), 7_500_000);
    let operator = CrewMember::recruit(CrewMemberType::Operator);
    assert_eq!(operator.wage(), 500);
    let trader = CrewMember::recruit(CrewMemberType::Trader);
    assert_eq!(trader.wage(), 2_500);
    let soldier = CrewMember::recruit(CrewMemberType::Soldier);
    assert_eq!(soldier.wage(), 1_500);
}

#[test]
fn wage_grows_with_rank() {
    // 5 * 2^2 * 2^(1/5): the fifth root of 2 is 1.148698... so the
    // milli-scaled factor floors to 1148.
    let pilot = CrewMember { member_type: CrewMemberType::Pilot, rank: 2 };
    assert_eq!(pilot.wage(), 22_960);
    let mut last = CrewMember { member_type: CrewMemberType::Pilot, rank: 1 }.wage();
    for rank in 2..=30u8 {
        let w = CrewMember { member_type: CrewMemberType::Pilot, rank }.wage();
        assert!(w > last, "wage dropped at rank {}", rank);
        last = w;
    }
}

#[test]
fn fee_rate_decreases_with_rank() {
    assert_eq!(fee_rate(1), 200);
    assert_eq!(fee_rate(2), 81);
    let mut previous = fee_rate(1);
    for rank in 2..=20u8 {
        let f = fee_rate(rank);
        assert!(f <= previous, "fee rose at rank {}", rank);
        previous = f;
    }
}

#[test]
fn module_prices() {
    assert_eq!(ShipModuleType::Miner.get_price_buy(), 2_000_000);
    assert_eq!(ShipModuleType::GasSucker.get_price_buy(), 2_000_000);
    let fresh = ShipModuleType::Miner.new_module();
    assert_eq!(fresh.price_next_rank(), 5_000_000);
    let upgraded = ShipModule { rank: 2, ..fresh };
    assert!(upgraded.price_next_rank() > fresh.price_next_rank());
}

#[test]
fn upgrade_prices() {
    assert_eq!(ShipUpgrade::CargoExpansion.get_price(), 1_000_000);
    assert_eq!(ShipUpgrade::ReactorUpgrade.get_price(), 300_000);
    assert_eq!(ShipUpgrade::HullUpgrade.get_price(), 500_000);
}

#[test]
fn market_opens_on_base_prices() {
    let market = Market::init();
    assert_eq!(market.price_of(&Resource::Stone), 3_500);
    assert_eq!(market.price_of(&Resource::Iron), 7_000);
    assert_eq!(market.price_of(&Resource::Helium), 3_500);
    assert_eq!(market.price_of(&Resource::Ozone), 7_000);
    assert_eq!(market.price_of(&Resource::Fuel), 5_000);
    assert_eq!(market.price_of(&Resource::HullPlate), 3_500);
}

#[test]
fn buy_accounting_balances() {
    let mut market = Market::init();
    let trader = CrewMember::recruit(CrewMemberType::Trader);
    let before = market.price_of(&Resource::Stone);
    let tx = market.buy(&trader, &Resource::Stone, 1_000_000);
    // One unit at 3.5 costs 3.5; the 20% fee keeps 0.2 units out.
    assert_eq!(tx.removed_money, Some(3_500));
    let (res, kept) = tx.added_cargo.unwrap();
    assert_eq!(res, Resource::Stone);
    assert_eq!(kept, 800_000);
    // What was paid equals the received value plus the fees.
    let kept_value = (kept as u128 * before as u128 / 1_000_000) as u64;
    assert_eq!(tx.removed_money.unwrap(), kept_value + tx.fees);
    assert!(market.price_of(&Resource::Stone) >= before);
}

#[test]
fn sell_accounting_balances() {
    let mut market = Market::init();
    let trader = CrewMember::recruit(CrewMemberType::Trader);
    let before = market.price_of(&Resource::Iron);
    let tx = market.sell(&trader, &Resource::Iron, 1_000_000);
    assert_eq!(tx.removed_cargo, Some((Resource::Iron, 1_000_000)));
    assert_eq!(tx.fees, 1_400);
    assert_eq!(tx.added_money, Some(5_600));
    assert_eq!(tx.added_money.unwrap() + tx.fees, 7_000);
    let after = market.price_of(&Resource::Iron);
    assert!(after <= before && after >= 1);
}

#[test]
fn drift_keeps_prices_positive_and_tame() {
    // A millennium of forced drift rolls: prices stay strictly
    // positive and never leave a hundredfold of their base.
    let mut market = Market::init();
    for _ in 0..1000 {
        market.update_prices();
        for r in [
            Resource::Stone,
            Resource::Iron,
            Resource::Helium,
            Resource::Ozone,
            Resource::Fuel,
            Resource::HullPlate,
        ] {
            let p = market.price_of(&r);
            assert!(p >= 1);
            assert!(p <= 100 * r.base_price());
        }
    }
}
