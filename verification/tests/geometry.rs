//! Integer space geometry: distances, sectors, and scan results.

use simeis::galaxy::compute_sector;
use simeis::galaxy::get_delta;
use simeis::galaxy::get_distance;
use simeis::galaxy::sectors_around;
use simeis::galaxy::translation;
use simeis::planet::PlanetInfo;
use simeis::scan::ScanResult;

#[test]
fn distances_floor_at_milli_scale() {
    // A 3-4-5 triangle lands exactly; a unit diagonal floors.
    assert_eq!(get_distance(&(0, 0, 0), &(3, 4, 0)), 5_000);
    assert_eq!(get_distance(&(0, 0, 0), &(1, 1, 0)), 1_414);
    assert_eq!(get_distance(&(7, 7, 7), &(7, 7, 7)), 0);
    assert_eq!(get_distance(&(0, 0, 0), &(1000, 0, 0)), 1_000_000);
    assert_eq!(get_delta(&(2, 5, 9), &(1, 7, 9)), (-1, 2, 0));
}

#[test]
fn interpolation_ends_on_the_destination() {
    let start = (10, 20, 30);
    let dest = (1010, 520, 30);
    let tot = get_distance(&start, &dest);
    assert_eq!(translation(start, dest, 0, tot), start);
    assert_eq!(translation(start, dest, tot, tot), dest);
    let mid = translation(start, dest, tot / 2, tot);
    assert!(mid.0 >= start.0 && mid.0 <= dest.0);
    assert!(mid.1 >= start.1 && mid.1 <= dest.1);
    assert_eq!(mid.2, 30);
}

#[test]
fn sectors_align_on_the_grid() {
    let sec = compute_sector(2345, 999, 1000);
    assert_eq!(sec.0, (2000, 3000));
    assert_eq!(sec.1, (0, 1000));
    assert_eq!(sec.2, (1000, 2000));
    // The ceiling clamps instead of wrapping.
    let top = compute_sector(u32::MAX, 0, 0);
    assert_eq!(top.0.1, u32::MAX);

    assert_eq!(sectors_around(&(500, 500, 500), 0).len(), 1);
    assert_eq!(sectors_around(&(5000, 5000, 5000), 1).len(), 27);
}

#[test]
fn closest_planet_is_by_distance_then_order() {
    let mut scan = ScanResult::empty();
    scan.add_planet(PlanetInfo { position: (100, 0, 0), temperature: 1, solid: true });
    scan.add_planet(PlanetInfo { position: (10, 0, 0), temperature: 2, solid: false });
    scan.add_planet(PlanetInfo { position: (0, 10, 0), temperature: 3, solid: true });
    let closest = scan.get_closest_planet(&(0, 0, 0)).unwrap();
    // Two planets tie at distance ten; the earlier one wins.
    assert_eq!(closest.temperature, 2);
    assert!(ScanResult::empty().get_closest_planet(&(0, 0, 0)).is_none());
}
