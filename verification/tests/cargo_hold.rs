//! Cargo holds: capacity clamping and exact volume accounting.
//!
//! Quantities are micro-units, capacities nano-volume: one unit of
//! Stone (volume 0.85) takes 850,000,000 nano of hold.

use simeis::cargo::ShipCargo;
use simeis::resources::Resource;

#[test]
fn test_cargo_overflow() {
    // A hold sized for exactly 100 units of Stone.
    let mut cargo = ShipCargo::with_capacity(100 * 850_000_000);
    let added = cargo.add_resource(&Resource::Stone, 95_000_000);
    assert_eq!(added, 95_000_000);

    let added = cargo.add_resource(&Resource::Stone, 10_000_000);
    assert_eq!(added, 5_000_000);
    assert_eq!(cargo.usage, cargo.capacity);
}

#[test]
fn full_hold_takes_nothing_more() {
    let mut cargo = ShipCargo::with_capacity(2_000_000_000);
    let added = cargo.add_resource(&Resource::Fuel, 1_000_000);
    assert_eq!(added, 1_000_000);
    assert!(cargo.is_full());
    assert_eq!(cargo.add_resource(&Resource::HullPlate, 1), 0);
}

#[test]
fn usage_tracks_stored_volume() {
    let mut cargo = ShipCargo::with_capacity(1_000_000_000_000);
    cargo.add_resource(&Resource::Iron, 4_000_000);
    assert_eq!(cargo.usage, 4_000_000 * 300);
    cargo.add_resource(&Resource::Helium, 2_000_000);
    assert_eq!(cargo.usage, 4_000_000 * 300 + 2_000_000 * 850);
    let removed = cargo.unload(&Resource::Iron, 10_000_000);
    assert_eq!(removed, 4_000_000);
    assert_eq!(cargo.usage, 2_000_000 * 850);
    assert_eq!(cargo.amount_of(&Resource::Iron), 0);
}

#[test]
fn space_for_uses_the_unit_volume() {
    let cargo = ShipCargo::with_capacity(850_000_000);
    assert_eq!(cargo.space_for(&Resource::Stone), 1_000_000);
    assert_eq!(cargo.space_for(&Resource::Fuel), 425_000);
    assert_eq!(cargo.space_for(&Resource::HullPlate), 17_000_000);
}

#[test]
fn expansion_keeps_contents() {
    let mut cargo = ShipCargo::with_capacity(850_000_000);
    cargo.add_resource(&Resource::Stone, 1_000_000);
    assert!(cargo.is_full());
    cargo.expand(850_000_000);
    assert!(!cargo.is_full());
    assert_eq!(cargo.amount_of(&Resource::Stone), 1_000_000);
    let added = cargo.add_resource(&Resource::Stone, 1_000_000);
    assert_eq!(added, 1_000_000);
}
