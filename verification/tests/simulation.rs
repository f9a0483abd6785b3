//! End-to-end runs of the world: buying ships, billing wages, flying,
//! extracting, dying, and the stickiness of a lost game.

use simeis::cargo::ShipCargo;
use simeis::crew::Crew;
use simeis::crew::CrewMember;
use simeis::crew::CrewMemberType;
use simeis::errors::Errcode;
use simeis::galaxy::get_distance;
use simeis::galaxy::Galaxy;
use simeis::game::Game;
use simeis::market::Market;
use simeis::module::ShipModule;
use simeis::module::ShipModuleType;
use simeis::planet::Planet;
use simeis::player::Player;
use simeis::resources::ExtractionInfo;
use simeis::resources::Resource;
use simeis::ship::Ship;
use simeis::ship::ShipState;
use simeis::shipstats::ShipStats;
use simeis::syslog::SyslogEvent;
use simeis::syslog::SyslogFifos;

/// A bare hull for hand-built scenarios.
fn test_ship(id: u64) -> Ship {
    Ship {
        id,
        reactor_power: 1,
        fuel_tank_capacity: 1_000_000_000,
        hull_decay_capacity: 3_000_000_000,
        modules: Vec::new(),
        next_module_id: 1,
        position: (0, 0, 0),
        crew: Crew(Vec::new()),
        cargo: ShipCargo::with_capacity(500_000_000_000),
        fuel_tank: 1_000_000_000,
        hull_decay: 0,
        pilot: None,
        state: ShipState::Idle,
        stats: ShipStats { speed: 0, fuel_consumption: 0, hull_usage_rate: 0 },
    }
}

fn with_pilot(mut ship: Ship) -> Ship {
    ship.crew = Crew(vec![(1, CrewMember { member_type: CrewMemberType::Pilot, rank: 1 })]);
    ship.pilot = Some(1);
    ship.update_perf_stats();
    ship
}

fn bare_game(player: Player) -> Game {
    Game {
        players: vec![player],
        galaxy: Galaxy::init(),
        market: Market::init(),
        fifos: SyslogFifos::new(),
        market_elapsed_ms: 0,
        now_ms: 0,
    }
}

fn test_player(id: u16, lost: bool) -> Player {
    Player {
        id,
        key: vec![7u8; 128],
        lost,
        name: "subject".to_string(),
        money: 30_000_000,
        costs: 0,
        stations: Vec::new(),
        ships: Vec::new(),
    }
}

#[test]
fn buy_first_ship() {
    let mut g = Game::init();
    let (_, _) = g.new_player("pioneer".to_string()).unwrap();
    let key = g.players[0].key.clone();
    let (station_id, coord) = g.players[0].stations[0];
    let k = (0..g.galaxy.stations.len())
        .find(|&i| g.galaxy.stations[i].position == coord)
        .unwrap();
    let hull = &g.galaxy.stations[k].shipyard[0];
    let ship_id = hull.id;
    assert_eq!(hull.compute_price(), 23_300_000);
    let bought = g.buy_ship(&key, station_id, ship_id).unwrap();
    assert_eq!(bought, ship_id);
    assert_eq!(g.players[0].money, 6_700_000);
    assert_eq!(g.galaxy.stations[k].shipyard.len(), 3);
    assert_eq!(g.players[0].ships.len(), 1);
    let ship = &g.players[0].ships[0];
    assert_eq!(ship.id, ship_id);
    assert_eq!(ship.fuel_tank, ship.fuel_tank_capacity);
    assert_eq!(ship.fuel_tank, 1_000_000_000);
    // The yard restocked with a random hull drawn from the catalogue
    // ranges.
    let fresh = &g.galaxy.stations[k].shipyard[2];
    assert!((1..=9).contains(&fresh.reactor_power));
    assert!((1_000_000..=9_999_000_000).contains(&fresh.fuel_tank_capacity));
    assert!((100_000_000_000..=9_999_000_000_000).contains(&fresh.cargo.capacity));
    assert!((1_000_000_000..=49_999_000_000).contains(&fresh.hull_decay_capacity));
}

#[test]
fn player_ids_hash_the_name() {
    let mut g1 = Game::init();
    let (pid, key_str) = g1.new_player("pioneer".to_string()).unwrap();
    // A fresh 128-byte key encodes to 172 characters of base64.
    assert_eq!(key_str.len(), 172);
    assert_ne!(key_str.as_bytes(), &g1.players[0].key[..]);
    // The id is the FNV-1a hash of the name, reduced modulo u16::MAX.
    let mut h: u64 = 0xcbf29ce484222325;
    for b in "pioneer".bytes() {
        h ^= b as u64;
        h = h.wrapping_mul(0x100000001b3);
    }
    assert_eq!(pid, (h % 0xFFFF) as u16);
    let mut g2 = Game::init();
    let (pid2, _) = g2.new_player("pioneer".to_string()).unwrap();
    assert_eq!(pid, pid2);
}

#[test]
fn wages_bill_exactly() {
    let mut g = Game::init();
    g.new_player("foreman".to_string()).unwrap();
    let key = g.players[0].key.clone();
    let (station_id, _) = g.players[0].stations[0];
    g.hire(&key, station_id, CrewMemberType::Pilot).unwrap();
    assert_eq!(g.players[0].costs, 5_000);
    let before = g.players[0].money;
    for _ in 0..20 {
        g.tick(50);
    }
    assert_eq!(before - g.players[0].money, 5_000);
    let events = g.syslogs(&key).unwrap();
    for (_, ev) in events {
        assert!(
            !matches!(ev, SyslogEvent::LowFunds(_)),
            "no funds warning while money is plentiful"
        );
    }
}

#[test]
fn extraction_rates_and_fill_time() {
    let planet = Planet { position: (5, 5, 5), temperature: 0, solid: true };
    let module = ShipModule {
        operator: Some(9),
        modtype: ShipModuleType::Miner,
        rank: 1,
        totalcost: 0,
    };
    assert_eq!(module.extraction_rate(&Resource::Stone, 1, 3000), 37_500_000);

    let crew = Crew(vec![(9, CrewMember { member_type: CrewMemberType::Operator, rank: 1 })]);
    let rates = module.can_extract(&crew, &planet);
    assert_eq!(rates.len(), 1, "a rank-1 operator may only mine Stone");
    assert_eq!(rates[0].0, Resource::Stone);
    assert_eq!(rates[0].1, 37_500_000);

    let mut ship = test_ship(1);
    ship.crew = crew;
    ship.modules = vec![(1, module)];
    ship.next_module_id = 2;
    ship.position = (5, 5, 5);
    let info = ExtractionInfo::create(&ship, &planet);
    assert_eq!(info.0.len(), 1);
    assert_eq!(info.0[0], (Resource::Stone, 37_500_000));
    // 500 units of hold at 37.5 Stone (0.85 volume) per second.
    assert_eq!(info.time_before_cargo_full(500_000_000_000), 15_686);

    let mut cargo = ShipCargo::with_capacity(500_000_000_000);
    let full = info.update_cargo(&mut cargo, 1000);
    assert!(!full);
    assert_eq!(cargo.amount_of(&Resource::Stone), 37_500_000);

    let mut ticks = 1u64;
    while !info.update_cargo(&mut cargo, 50) {
        ticks += 1;
        assert!(ticks < 1000, "the hold must fill");
    }
    // 15,686 ms of filling, in 1,000 ms plus 50 ms steps.
    assert_eq!(1000 + 50 * ticks, 15_700);
    assert!(cargo.is_full());
}

#[test]
fn veteran_operators_reach_the_rare_ores() {
    let planet = Planet { position: (5, 5, 5), temperature: 0, solid: true };
    let module = ShipModule {
        operator: Some(9),
        modtype: ShipModuleType::Miner,
        rank: 1,
        totalcost: 0,
    };
    let crew = Crew(vec![(9, CrewMember { member_type: CrewMemberType::Operator, rank: 4 })]);
    let rates = module.can_extract(&crew, &planet);
    assert_eq!(rates.len(), 2, "rank four unlocks Iron next to Stone");
    assert_eq!(rates[0].0, Resource::Stone);
    assert_eq!(rates[1].0, Resource::Iron);
    // Iron: density 1, difficulty 2, rank 4: base rate 2 units a second.
    assert_eq!(rates[1].1, 2_000_000);

    let gas = Planet { position: (5, 5, 5), temperature: 0, solid: false };
    let sucker = ShipModule {
        operator: Some(9),
        modtype: ShipModuleType::GasSucker,
        rank: 1,
        totalcost: 0,
    };
    let rates = sucker.can_extract(&crew, &gas);
    assert_eq!(rates.len(), 2, "gas worlds offer Helium and Ozone");
    assert_eq!(rates[0].0, Resource::Helium);
    assert_eq!(rates[1].0, Resource::Ozone);
    // A miner finds nothing to dig in an atmosphere.
    assert_eq!(module.can_extract(&crew, &gas).len(), 0);
}

#[test]
fn finished_flight_lands_on_destination() {
    let mut ship = with_pilot(test_ship(1));
    let cost = ship.set_travel((1000, 0, 0)).unwrap();
    assert_eq!(cost.distance, 1_000_000);
    assert_eq!(cost.duration_ms, 20_000);
    let mut guard = 0u64;
    loop {
        if ship.update_flight(50) {
            break;
        }
        guard += 1;
        assert!(guard < 10_000);
    }
    assert_eq!(ship.position, (1000, 0, 0));
    assert!(ship.fuel_tank > 0);
    assert!(ship.hull_decay < ship.hull_decay_capacity);
}

#[test]
fn hull_exhaustion_destroys_mid_flight() {
    let mut ship = with_pilot(test_ship(11));
    // A sliver of hull left, facing a trip that costs far more.
    ship.hull_decay = ship.hull_decay_capacity - 1;
    let dist = get_distance(&(0, 0, 0), &(100_000, 0, 0));
    ship.state = ShipState::InFlight(simeis::navigation::FlightData {
        start: (0, 0, 0),
        destination: (100_000, 0, 0),
        dist_done: 0,
        dist_tot: dist,
    });
    let mut player = test_player(42, false);
    player.ships = vec![ship];
    let mut g = bare_game(player);
    g.tick(50);
    assert_eq!(g.players[0].ships.len(), 0, "the wreck leaves the roster");
    let events = g.fifos.drain(42);
    assert!(events
        .iter()
        .any(|(_, ev)| matches!(ev, SyslogEvent::ShipDestroyed(11))));
}

#[test]
fn lost_players_stay_locked_out() {
    let mut g = bare_game(test_player(9, true));
    let key = vec![7u8; 128];
    assert!(matches!(g.buy_ship(&key, 1, 1), Err(Errcode::PlayerLost)));
    assert!(matches!(
        g.hire(&key, 1, CrewMemberType::Pilot),
        Err(Errcode::PlayerLost)
    ));
    assert!(matches!(g.navigate(&key, 1, (1, 2, 3)), Err(Errcode::PlayerLost)));
    assert!(matches!(
        g.market_buy(&key, 1, Resource::Fuel, 1_000_000),
        Err(Errcode::PlayerLost)
    ));
    assert!(matches!(
        g.market_sell(&key, 1, Resource::Fuel, 1_000_000),
        Err(Errcode::PlayerLost)
    ));
    assert!(matches!(g.buy_cargo(&key, 1, 5), Err(Errcode::PlayerLost)));
    assert!(matches!(g.start_extraction(&key, 1), Err(Errcode::PlayerLost)));
    assert!(matches!(g.stop_extraction(&key, 1), Err(Errcode::PlayerLost)));
    assert!(matches!(g.unload(&key, 1, Resource::Fuel, 1), Err(Errcode::PlayerLost)));
    assert!(matches!(g.refuel(&key, 1, 1), Err(Errcode::PlayerLost)));
    assert!(matches!(g.repair(&key, 1, 1), Err(Errcode::PlayerLost)));
    assert!(matches!(g.upgrade_trader(&key, 1), Err(Errcode::PlayerLost)));
    assert!(matches!(g.syslogs(&key), Err(Errcode::PlayerLost)));
}

#[test]
fn going_broke_loses_the_game() {
    let mut player = test_player(3, false);
    player.money = 100;
    player.costs = 1_000_000;
    let mut g = bare_game(player);
    g.tick(50);
    assert!(g.players[0].lost);
    let events = g.fifos.drain(3);
    assert!(events.iter().any(|(_, ev)| matches!(ev, SyslogEvent::GameLost)));
    // Once lost, always lost.
    g.tick(50);
    assert!(g.players[0].lost);
}

#[test]
fn low_funds_warning_fires_once_below_a_minute() {
    let mut player = test_player(4, false);
    // Just above a minute of runway at 1 currency per second; the
    // first tick crosses the threshold.
    player.money = 60_020;
    player.costs = 1_000;
    let mut g = bare_game(player);
    g.tick(50);
    let events = g.fifos.drain(4);
    assert!(events.iter().any(|(_, ev)| matches!(ev, SyslogEvent::LowFunds(_))));
}

#[test]
fn command_errors_name_their_cause() {
    let mut g = Game::init();
    g.new_player("errant".to_string()).unwrap();
    let key = g.players[0].key.clone();
    let (station_id, _) = g.players[0].stations[0];

    let wrong_key = vec![1u8; 128];
    assert!(matches!(
        g.buy_ship(&wrong_key, station_id, 1),
        Err(Errcode::NoPlayerWithKey)
    ));
    assert!(matches!(
        g.buy_ship(&key, station_id.wrapping_add(1), 1),
        Err(Errcode::NoSuchStation(_))
    ));
    assert!(matches!(g.navigate(&key, 77, (1, 1, 1)), Err(Errcode::ShipNotFound(77))));
    assert!(matches!(
        g.market_buy(&key, station_id, Resource::Fuel, 1_000_000),
        Err(Errcode::NoTraderAssigned)
    ));
    assert!(matches!(g.stop_extraction(&key, 77), Err(Errcode::ShipNotFound(77))));
    assert!(matches!(
        g.new_player("errant".to_string()),
        Err(Errcode::PlayerAlreadyExists(_, _))
    ));

    // The heavy hull is out of a starter's budget.
    let coord = g.players[0].stations[0].1;
    let k = (0..g.galaxy.stations.len())
        .find(|&i| g.galaxy.stations[i].position == coord)
        .unwrap();
    let heavy_id = g.galaxy.stations[k].shipyard[2].id;
    assert!(matches!(
        g.buy_ship(&key, station_id, heavy_id),
        Err(Errcode::NotEnoughMoney(_, _))
    ));
}

#[test]
fn dockside_crew_flow() {
    let mut g = Game::init();
    g.new_player("harbour".to_string()).unwrap();
    let key = g.players[0].key.clone();
    let (station_id, coord) = g.players[0].stations[0];
    let k = (0..g.galaxy.stations.len())
        .find(|&i| g.galaxy.stations[i].position == coord)
        .unwrap();

    // A trader at the desk enables the market; an empty hold still
    // cannot sell.
    let trader_id = g.hire(&key, station_id, CrewMemberType::Trader).unwrap();
    g.assign_trader(&key, station_id, trader_id).unwrap();
    assert_eq!(g.fee_rate_of(&key, station_id).unwrap(), 200);
    assert!(matches!(
        g.market_sell(&key, station_id, Resource::Stone, 1_000_000),
        Err(Errcode::SellNothing)
    ));

    // Buying stock moves money and fills the station hold.
    let before = g.players[0].money;
    let tx = g.market_buy(&key, station_id, Resource::Fuel, 2_000_000).unwrap();
    assert_eq!(tx.removed_money, Some(10_000));
    assert_eq!(before - g.players[0].money, 10_000);
    let held = g.galaxy.stations[k].cargo.amount_of(&Resource::Fuel);
    assert_eq!(held, 1_600_000);

    // A pilot boards a bought ship; an operator is refused the helm.
    let light_id = g.galaxy.stations[k].shipyard[0].id;
    g.buy_ship(&key, station_id, light_id).unwrap();
    let op_id = g.hire(&key, station_id, CrewMemberType::Operator).unwrap();
    assert!(matches!(
        g.assign_pilot(&key, station_id, op_id, light_id),
        Err(Errcode::WrongCrewType(_))
    ));
    let pilot_id = g.hire(&key, station_id, CrewMemberType::Pilot).unwrap();
    g.assign_pilot(&key, station_id, pilot_id, light_id).unwrap();
    assert_eq!(g.players[0].ships[0].pilot, Some(pilot_id));

    // Refuelling from the bought stock tops the tank up.
    g.players[0].ships[0].fuel_tank = 0;
    let moved = g.refuel(&key, station_id, light_id).unwrap();
    assert_eq!(moved, 1_600_000);
    assert_eq!(g.players[0].ships[0].fuel_tank, 1_600_000);

    // Promoting the trader strictly raises the wage bill.
    let costs_before = g.players[0].costs;
    let (price, rank) = g.upgrade_trader(&key, station_id).unwrap();
    assert_eq!(price, 3_750_000);
    assert_eq!(rank, 2);
    assert!(g.players[0].costs > costs_before);
}
