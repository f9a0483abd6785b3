//! The galaxy: integer coordinates, sector geometry, and the object map.
//!
//! Distances are milli-scaled: `get_distance` returns the floor of
//! `1000 * |b - a|`, so positions interpolate exactly and a finished
//! flight lands on its destination coordinate.

use vstd::prelude::*;

verus! {

use vstd::arithmetic::power::pow;
use crate::fixed::floor_root;
use crate::fixed::is_floor_root;
use crate::fixed::iroot;
use crate::fixed::lemma_pow_base_le;
use crate::planet::Planet;
use crate::rng::rand_below;
use crate::station::Station;
use crate::station::StationId;
use crate::errors::Errcode;

pub type SpaceUnit = u32;

pub type SpaceCoord = (SpaceUnit, SpaceUnit, SpaceUnit);

/// An axis-aligned box: inclusive starts, exclusive-or-clamped ends.
pub type GalaxySector = ((SpaceUnit, SpaceUnit), (SpaceUnit, SpaceUnit), (SpaceUnit, SpaceUnit));

/// Side of a sector cube, in space units.
pub const SECTOR_SIZE: u32 = 1000;

/// Squared Euclidean distance between two coordinates.
pub open spec fn dist2_spec(a: SpaceCoord, b: SpaceCoord) -> int {
    (b.0 - a.0) * (b.0 - a.0) + (b.1 - a.1) * (b.1 - a.1) + (b.2 - a.2) * (b.2 - a.2)
}

/// Distance at milli scale: the floor of `1000 * |b - a|`.
pub open spec fn distance_milli_spec(a: SpaceCoord, b: SpaceCoord) -> int {
    floor_root(1000000 * dist2_spec(a, b), 2)
}

/// Coordinate deltas `b - a`, per axis.
pub fn get_delta(a: &SpaceCoord, b: &SpaceCoord) -> (d: (i64, i64, i64))
    ensures
        d.0 == b.0 - a.0,
        d.1 == b.1 - a.1,
        d.2 == b.2 - a.2,
{
    (
        (b.0 as i64) - (a.0 as i64),
        (b.1 as i64) - (a.1 as i64),
        (b.2 as i64) - (a.2 as i64),
    )
}

/// Absolute difference on one axis.
fn axis_abs(a: u32, b: u32) -> (d: u64)
    ensures
        d == if b >= a {
            b - a
        } else {
            a - b
        },
        d as int * d as int == (b - a) * (b - a),
{
    let d: u64 = if b >= a {
        (b - a) as u64
    } else {
        (a - b) as u64
    };
    proof {
        assert(d as int * d as int == (b - a) * (b - a)) by (nonlinear_arith)
            requires
                d == b - a || d == a - b,
        ;
    }
    d
}

/// Distance between two coordinates, in milli-units.
pub fn get_distance(a: &SpaceCoord, b: &SpaceCoord) -> (d: u64)
    ensures
        d == distance_milli_spec(*a, *b),
        is_floor_root(d as int, 1000000 * dist2_spec(*a, *b), 2),
        (d == 0) <==> (*a == *b),
        d < 8000000000000,
{
    let dx = axis_abs(a.0, b.0);
    let dy = axis_abs(a.1, b.1);
    let dz = axis_abs(a.2, b.2);
    proof {
        assert(dx * dx <= 0xFFFFFFFFu64 * 0xFFFFFFFFu64 && dy * dy <= 0xFFFFFFFFu64
            * 0xFFFFFFFFu64 && dz * dz <= 0xFFFFFFFFu64 * 0xFFFFFFFFu64) by (nonlinear_arith)
            requires
                dx <= 0xFFFFFFFFu64,
                dy <= 0xFFFFFFFFu64,
                dz <= 0xFFFFFFFFu64,
        ;
    }
    let s: u128 = (dx as u128) * (dx as u128) + (dy as u128) * (dy as u128) + (dz as u128) * (
    dz as u128);
    let r = iroot(s * 1000000, 2);
    proof {
        vstd::arithmetic::power::lemma_square_is_pow2(r as int);
        if r > u64::MAX as u128 {
            vstd::arithmetic::mul::lemma_mul_inequality(
                u64::MAX as int + 1,
                r as int,
                r as int,
            );
            vstd::arithmetic::mul::lemma_mul_left_inequality(
                u64::MAX as int + 1,
                u64::MAX as int + 1,
                r as int,
            );
            assert(false);
        }
        vstd::arithmetic::power::lemma_square_is_pow2(1);
        vstd::arithmetic::power::lemma_square_is_pow2(r as int + 1);
        if r >= 8000000000000 {
            assert(r as int * r as int >= 8000000000000int * 8000000000000) by (nonlinear_arith)
                requires
                    r >= 8000000000000,
            ;
            assert(false);
        }
        if s == 0 {
            assert(dx == 0 && dy == 0 && dz == 0) by (nonlinear_arith)
                requires
                    dx as int * dx as int + dy as int * dy as int + dz as int * dz as int == 0,
                    dx >= 0,
                    dy >= 0,
                    dz >= 0,
            ;
            assert(r == 0) by (nonlinear_arith)
                requires
                    r as int * r as int <= 0,
                    r >= 0,
            ;
            assert(a.0 == b.0 && a.1 == b.1 && a.2 == b.2);
            assert(*a == *b);
        } else {
            assert(s * 1000000 >= 1000000);
            if r == 0 {
                assert(s * 1000000 < (r as int + 1) * (r as int + 1));
                assert(false);
            }
            if *a == *b {
                assert(dx == 0 && dy == 0 && dz == 0);
                assert(dx as int * dx as int == 0) by (nonlinear_arith)
                    requires
                        dx == 0,
                ;
                assert(dy as int * dy as int == 0) by (nonlinear_arith)
                    requires
                        dy == 0,
                ;
                assert(dz as int * dz as int == 0) by (nonlinear_arith)
                    requires
                        dz == 0,
                ;
                assert(false);
            }
        }
    }
    r as u64
}

/// The sector cube that contains a point; ends clamp at the coordinate
/// ceiling instead of wrapping.
pub fn compute_sector(x: SpaceUnit, y: SpaceUnit, z: SpaceUnit) -> (sec: GalaxySector)
    ensures
        sec.0.0 == x - (x as int % (SECTOR_SIZE as int)),
        sec.1.0 == y - (y as int % (SECTOR_SIZE as int)),
        sec.2.0 == z - (z as int % (SECTOR_SIZE as int)),
        sec.0.0 <= x < sec.0.1 || sec.0.1 == u32::MAX,
        sec.1.0 <= y < sec.1.1 || sec.1.1 == u32::MAX,
        sec.2.0 <= z < sec.2.1 || sec.2.1 == u32::MAX,
        sec.0.0 <= sec.0.1 && sec.1.0 <= sec.1.1 && sec.2.0 <= sec.2.1,
{
    let sx = x - x % SECTOR_SIZE;
    let sy = y - y % SECTOR_SIZE;
    let sz = z - z % SECTOR_SIZE;
    let ex = if sx > u32::MAX - SECTOR_SIZE {
        u32::MAX
    } else {
        sx + SECTOR_SIZE
    };
    let ey = if sy > u32::MAX - SECTOR_SIZE {
        u32::MAX
    } else {
        sy + SECTOR_SIZE
    };
    let ez = if sz > u32::MAX - SECTOR_SIZE {
        u32::MAX
    } else {
        sz + SECTOR_SIZE
    };
    ((sx, ex), (sy, ey), (sz, ez))
}

/// Linear interpolation on one axis: `done / tot` of the way from `s`
/// to `d`, rounded toward `s`.
pub open spec fn axis_interp_spec(s: int, d: int, done: int, tot: int) -> int {
    if d >= s {
        s + (d - s) * done / tot
    } else {
        s - (s - d) * done / tot
    }
}

fn axis_interp(s: u32, d: u32, done: u64, tot: u64) -> (r: u32)
    requires
        done <= tot,
        1 <= tot,
    ensures
        r == axis_interp_spec(s as int, d as int, done as int, tot as int),
        done == tot ==> r == d,
        done == 0 ==> r == s,
{
    let diff: u64 = if d >= s {
        (d - s) as u64
    } else {
        (s - d) as u64
    };
    proof {
        let df = diff as int;
        let dn = done as int;
        let tt = tot as int;
        assert(df * dn <= 0xFFFFFFFFint * 0xFFFFFFFFFFFFFFFF) by (nonlinear_arith)
            requires
                0 <= df <= 0xFFFFFFFF,
                0 <= dn <= 0xFFFFFFFFFFFFFFFF,
        ;
        assert(df * tt / tt == df) by {
            vstd::arithmetic::div_mod::lemma_div_multiples_vanish(df, tt);
            assert(df * tt == tt * df) by (nonlinear_arith);
        }
        if df > 0 {
            vstd::arithmetic::mul::lemma_mul_left_inequality(df, dn, tt);
            vstd::arithmetic::div_mod::lemma_div_is_ordered(df * dn, df * tt, tt);
        } else {
            assert(df * dn == 0) by (nonlinear_arith)
                requires
                    df == 0,
            ;
        }
        if done == 0 {
            assert(df * 0 == 0) by (nonlinear_arith);
            vstd::arithmetic::div_mod::lemma_div_of0(tt);
        }
    }
    let step128: u128 = (diff as u128) * (done as u128) / (tot as u128);
    let step: u32 = step128 as u32;
    if d >= s {
        s + step
    } else {
        s - step
    }
}

/// Position after covering `done` of `tot` milli-units from `start`
/// toward `dest`; at `done == tot` it is exactly `dest`.
pub fn translation(start: SpaceCoord, dest: SpaceCoord, done: u64, tot: u64) -> (r: SpaceCoord)
    requires
        done <= tot,
        1 <= tot,
    ensures
        r.0 == axis_interp_spec(start.0 as int, dest.0 as int, done as int, tot as int),
        r.1 == axis_interp_spec(start.1 as int, dest.1 as int, done as int, tot as int),
        r.2 == axis_interp_spec(start.2 as int, dest.2 as int, done as int, tot as int),
        done == tot ==> r == dest,
        done == 0 ==> r == start,
{
    let x = axis_interp(start.0, dest.0, done, tot);
    let y = axis_interp(start.1, dest.1, done, tot);
    let z = axis_interp(start.2, dest.2, done, tot);
    (x, y, z)
}

/// A sector with ordered bounds.
pub open spec fn sector_wf(s: GalaxySector) -> bool {
    s.0.0 <= s.0.1 && s.1.0 <= s.1.1 && s.2.0 <= s.2.1
}

/// The sectors within `radius` sectors of the one around `center`,
/// clamped to the galaxy bounds.
pub fn sectors_around(center: &SpaceCoord, radius: u32) -> (secs: Vec<GalaxySector>)
    requires
        radius <= 254,
    ensures
        forall|k: int| 0 <= k < secs@.len() ==> sector_wf(#[trigger] secs@[k]),
        secs@.len() >= 1,
        ({
            let n = 2 * radius + 1;
            let cx = center.0 - center.0 as int % 1000;
            let cy = center.1 - center.1 as int % 1000;
            let cz = center.2 - center.2 as int % 1000;
            let sx0 = if cx > radius * 1000 {
                cx - radius * 1000
            } else {
                0
            };
            let sy0 = if cy > radius * 1000 {
                cy - radius * 1000
            } else {
                0
            };
            let sz0 = if cz > radius * 1000 {
                cz - radius * 1000
            } else {
                0
            };
            &&& secs@.len() == n * n * n
            &&& forall|ix: int, iy: int, iz: int|
                0 <= ix < n && 0 <= iy < n && 0 <= iz < n ==> #[trigger] secs@[ix * n * n
                    + iy * n + iz] == grid_box_spec(sx0, sy0, sz0, ix, iy, iz)
        }),
{
    let centersec = compute_sector(center.0, center.1, center.2);
    let span = radius * SECTOR_SIZE;
    let sx0 = if centersec.0.0 > span {
        centersec.0.0 - span
    } else {
        0
    };
    let sy0 = if centersec.1.0 > span {
        centersec.1.0 - span
    } else {
        0
    };
    let sz0 = if centersec.2.0 > span {
        centersec.2.0 - span
    } else {
        0
    };
    let n: u32 = 2 * radius + 1;
    let mut secs: Vec<GalaxySector> = Vec::new();
    let mut ix: u32 = 0;
    while ix < n
        invariant
            forall|k: int| 0 <= k < secs@.len() ==> sector_wf(#[trigger] secs@[k]),
            n <= 509,
            ix <= n,
            secs@.len() == ix * n * n,
            forall|k: int|
                0 <= k < secs@.len() ==> #[trigger] secs@[k] == grid_box_spec(
                    sx0 as int,
                    sy0 as int,
                    sz0 as int,
                    k / (n * n) as int,
                    (k / n as int) % (n as int),
                    k % (n as int),
                ),
        decreases n - ix,
    {
        let bx = sector_start(sx0, ix);
        let ex = clamp_end(bx);
        let mut iy: u32 = 0;
        while iy < n
            invariant
                forall|k: int| 0 <= k < secs@.len() ==> sector_wf(#[trigger] secs@[k]),
                n <= 509,
                ix < n,
                bx == sector_start_spec(sx0 as int, ix as int),
                ex == clamp_end_spec(bx as int),
                bx <= ex,
                iy <= n,
                secs@.len() == ix * n * n + iy * n,
                forall|k: int|
                    0 <= k < secs@.len() ==> #[trigger] secs@[k] == grid_box_spec(
                        sx0 as int,
                        sy0 as int,
                        sz0 as int,
                        k / (n * n) as int,
                        (k / n as int) % (n as int),
                        k % (n as int),
                    ),
            decreases n - iy,
        {
            let by = sector_start(sy0, iy);
            let ey = clamp_end(by);
            let mut iz: u32 = 0;
            while iz < n
                invariant
                    forall|k: int| 0 <= k < secs@.len() ==> sector_wf(#[trigger] secs@[k]),
                    n <= 509,
                    ix < n,
                    iy < n,
                    bx == sector_start_spec(sx0 as int, ix as int),
                    ex == clamp_end_spec(bx as int),
                    by == sector_start_spec(sy0 as int, iy as int),
                    ey == clamp_end_spec(by as int),
                    bx <= ex,
                    by <= ey,
                    iz <= n,
                    secs@.len() == ix * n * n + iy * n + iz,
                    forall|k: int|
                        0 <= k < secs@.len() ==> #[trigger] secs@[k] == grid_box_spec(
                            sx0 as int,
                            sy0 as int,
                            sz0 as int,
                            k / (n * n) as int,
                            (k / n as int) % (n as int),
                            k % (n as int),
                        ),
                decreases n - iz,
            {
                let bz = sector_start(sz0, iz);
                let ez = clamp_end(bz);
                secs.push(((bx, ex), (by, ey), (bz, ez)));
                proof {
                    lemma_grid_decode(n as int, ix as int, iy as int, iz as int);
                    assert(secs@[secs@.len() - 1] == grid_box_spec(
                        sx0 as int,
                        sy0 as int,
                        sz0 as int,
                        ix as int,
                        iy as int,
                        iz as int,
                    ));
                }
                iz = iz + 1;
            }
            proof {
                assert((iy + 1) * n == iy * n + n) by (nonlinear_arith);
            }
            iy = iy + 1;
        }
        proof {
            assert((ix + 1) * n * n == ix * n * n + n * n) by (nonlinear_arith);
        }
        ix = ix + 1;
    }
    proof {
        assert(n * n * n >= 1) by (nonlinear_arith)
            requires
                n >= 1,
        ;
        assert forall|jx: int, jy: int, jz: int|
            0 <= jx < n && 0 <= jy < n && 0 <= jz < n implies #[trigger] secs@[jx * n * n + jy
            * n + jz] == grid_box_spec(sx0 as int, sy0 as int, sz0 as int, jx, jy, jz) by {
            lemma_grid_decode(n as int, jx, jy, jz);
        }
    }
    secs
}

/// Decoding a flattened grid index recovers its three coordinates.
proof fn lemma_grid_decode(n: int, ix: int, iy: int, iz: int)
    requires
        1 <= n,
        0 <= ix < n,
        0 <= iy < n,
        0 <= iz < n,
    ensures
        (ix * n * n + iy * n + iz) / (n * n) == ix,
        ((ix * n * n + iy * n + iz) / n) % n == iy,
        (ix * n * n + iy * n + iz) % n == iz,
        0 <= ix * n * n + iy * n + iz < n * n * n,
{
    let rem = iy * n + iz;
    let k = ix * n * n + iy * n + iz;
    assert(0 <= rem < n * n) by (nonlinear_arith)
        requires
            rem == iy * n + iz,
            0 <= iy < n,
            0 <= iz < n,
    ;
    assert(k == (n * n) * ix + rem) by (nonlinear_arith)
        requires
            k == ix * n * n + iy * n + iz,
            rem == iy * n + iz,
    ;
    assert(k / (n * n) == ix) by {
        vstd::arithmetic::div_mod::lemma_div_multiples_vanish_fancy(ix, rem, n * n);
    }
    assert(k == n * (ix * n + iy) + iz) by (nonlinear_arith)
        requires
            k == ix * n * n + iy * n + iz,
    ;
    assert(k / n == ix * n + iy) by {
        vstd::arithmetic::div_mod::lemma_div_multiples_vanish_fancy(ix * n + iy, iz, n);
    }
    assert((ix * n + iy) % n == iy) by {
        vstd::arithmetic::div_mod::lemma_mod_multiples_vanish(ix, iy, n);
        vstd::arithmetic::div_mod::lemma_small_mod(iy as nat, n as nat);
        assert(ix * n + iy == n * ix + iy) by (nonlinear_arith);
    }
    assert(k % n == iz) by {
        vstd::arithmetic::div_mod::lemma_mod_multiples_vanish(ix * n + iy, iz, n);
        vstd::arithmetic::div_mod::lemma_small_mod(iz as nat, n as nat);
        assert(k == n * (ix * n + iy) + iz) by (nonlinear_arith)
            requires
                k == ix * n * n + iy * n + iz,
        ;
    }
    assert(k < n * n * n) by (nonlinear_arith)
        requires
            k == ix * n * n + iy * n + iz,
            0 <= ix < n,
            0 <= iy < n,
            0 <= iz < n,
    ;
    assert(0 <= k) by (nonlinear_arith)
        requires
            k == ix * n * n + iy * n + iz,
            0 <= ix,
            0 <= iy,
            0 <= iz,
            1 <= n,
    ;
}

/// The grid cell of a clamped sector lattice.
pub open spec fn grid_box_spec(sx0: int, sy0: int, sz0: int, ix: int, iy: int, iz: int)
    -> GalaxySector {
    (
        (
            sector_start_spec(sx0, ix) as u32,
            clamp_end_spec(sector_start_spec(sx0, ix)) as u32,
        ),
        (
            sector_start_spec(sy0, iy) as u32,
            clamp_end_spec(sector_start_spec(sy0, iy)) as u32,
        ),
        (
            sector_start_spec(sz0, iz) as u32,
            clamp_end_spec(sector_start_spec(sz0, iz)) as u32,
        ),
    )
}

/// Start of the `i`-th sector after `base`, clamped to the ceiling.
fn sector_start(base: u32, i: u32) -> (b: u32)
    requires
        i <= 509,
    ensures
        base <= b,
        b == sector_start_spec(base as int, i as int),
{
    proof {
        assert(i as int * SECTOR_SIZE as int <= 509 * 1000) by (nonlinear_arith)
            requires
                i <= 509,
        ;
    }
    let off: u64 = (i as u64) * (SECTOR_SIZE as u64);
    let b64: u64 = (base as u64) + off;
    if b64 > u32::MAX as u64 {
        u32::MAX
    } else {
        b64 as u32
    }
}

/// Start of the `i`-th sector after `base`, at spec level.
pub open spec fn sector_start_spec(base: int, i: int) -> int {
    if base + i * 1000 > u32::MAX as int {
        u32::MAX as int
    } else {
        base + i * 1000
    }
}

/// End of a sector box, at spec level.
pub open spec fn clamp_end_spec(b: int) -> int {
    if b + 1000 > u32::MAX as int {
        u32::MAX as int
    } else {
        b + 1000
    }
}

/// End of a sector that starts at `b`, clamped to the ceiling.
fn clamp_end(b: u32) -> (e: u32)
    ensures
        b <= e,
        e == clamp_end_spec(b as int),
{
    if b > u32::MAX - SECTOR_SIZE {
        u32::MAX
    } else {
        b + SECTOR_SIZE
    }
}

/// Whether a coordinate lies inside a sector box (inclusive bounds, as
/// the scan walks them).
pub open spec fn in_sector(c: SpaceCoord, s: GalaxySector) -> bool {
    s.0.0 <= c.0 <= s.0.1 && s.1.0 <= c.1 <= s.1.1 && s.2.0 <= c.2 <= s.2.1
}

/// What can sit at a coordinate: a station (by its slot in the
/// galaxy's arena) or a planet.
#[derive(Clone, Copy, Debug)]
pub enum SpaceObject {
    BaseStation(usize),
    Planet(Planet),
}

/// The object grid and the list of generated sectors.
#[derive(Debug)]
pub struct GalaxyMap {
    pub objects: Vec<(SpaceCoord, SpaceObject)>,
    pub discovered: Vec<GalaxySector>,
}

impl GalaxyMap {
    pub open spec fn contains_coord(self, coord: SpaceCoord) -> bool {
        exists|i: int| 0 <= i < self.objects@.len() && self.objects@[i].0 == coord
    }

    pub open spec fn wf(self) -> bool {
        forall|i: int, j: int|
            0 <= i < j < self.objects@.len() ==> self.objects@[i].0 != self.objects@[j].0
    }

    pub fn empty() -> (m: GalaxyMap)
        ensures
            m.wf(),
            m.objects@.len() == 0,
            m.discovered@.len() == 0,
    {
        GalaxyMap { objects: Vec::new(), discovered: Vec::new() }
    }

    fn find(&self, coord: &SpaceCoord) -> (r: Option<usize>)
        ensures
            match r {
                Some(i) => i < self.objects@.len() && self.objects@[i as int].0 == *coord,
                None => !self.contains_coord(*coord),
            },
    {
        let mut i: usize = 0;
        while i < self.objects.len()
            invariant
                i <= self.objects@.len(),
                forall|j: int| 0 <= j < i ==> (#[trigger] self.objects@[j]).0 != *coord,
            decreases self.objects@.len() - i,
        {
            let c = self.objects[i].0;
            if c.0 == coord.0 && c.1 == coord.1 && c.2 == coord.2 {
                proof {
                    assert(self.objects@[i as int].0 == *coord);
                }
                return Some(i);
            }
            proof {
                assert(self.objects@[i as int].0 != *coord);
            }
            i = i + 1;
        }
        None
    }

    /// The object at a coordinate, if any.
    pub fn get(&self, coord: &SpaceCoord) -> (r: Option<&SpaceObject>)
        ensures
            match r {
                Some(o) => exists|i: int|
                    0 <= i < self.objects@.len() && self.objects@[i] == (*coord, *o),
                None => !self.contains_coord(*coord),
            },
    {
        match self.find(coord) {
            Some(i) => Some(&self.objects[i].1),
            None => None,
        }
    }

    /// Claim a coordinate; taken coordinates are refused.
    pub fn insert(&mut self, coord: &SpaceCoord, obj: SpaceObject) -> (r: Result<(), ()>)
        requires
            old(self).wf(),
        ensures
            final(self).wf(),
            match r {
                Ok(()) => !old(self).contains_coord(*coord) && final(self).objects@ == old(self).objects@.push((*coord, obj)) && final(self).discovered@ == old(self).discovered@,
                Err(()) => old(self).contains_coord(*coord) && *final(self) == *old(self),
            },
    {
        if self.find(coord).is_some() {
            return Err(());
        }
        self.objects.push((*coord, obj));
        Ok(())
    }

    /// Whether the sector holding this coordinate was generated.
    pub fn is_discovered(&self, coord: &SpaceCoord) -> (b: bool)
        ensures
            b == exists|i: int|
                0 <= i < self.discovered@.len() && in_sector(*coord, #[trigger] self.discovered@[i]),
    {
        let mut i: usize = 0;
        while i < self.discovered.len()
            invariant
                i <= self.discovered@.len(),
                forall|j: int|
                    0 <= j < i ==> !in_sector(*coord, #[trigger] self.discovered@[j]),
            decreases self.discovered@.len() - i,
        {
            let ((sx, ex), (sy, ey), (sz, ez)) = self.discovered[i];
            if coord.0 >= sx && coord.0 <= ex && coord.1 >= sy && coord.1 <= ey && coord.2 >= sz
                && coord.2 <= ez {
                proof {
                    assert(in_sector(*coord, self.discovered@[i as int]));
                }
                return true;
            }
            i = i + 1;
        }
        false
    }

    /// Populate the sector around `coord` with up to ten random
    /// planets, and mark it generated.
    pub fn generate_sector(&mut self, coord: &SpaceCoord)
        requires
            old(self).wf(),
        ensures
            final(self).wf(),
            final(self).discovered@.len() == old(self).discovered@.len() + 1,
            final(self).objects@.len() >= old(self).objects@.len(),
            forall|j: int|
                0 <= j < old(self).objects@.len() ==> #[trigger] final(self).objects@[j] == old(self).objects@[j],
            final(self).objects@.len() <= old(self).objects@.len() + 10,
            forall|j: int|
                old(self).objects@.len() <= j < final(self).objects@.len() ==> ((#[trigger] final(self).objects@[j]).1 matches SpaceObject::Planet(p) && p.position == final(self).objects@[j].0),
            forall|j: int|
                old(self).objects@.len() <= j < final(self).objects@.len() ==> in_sector(
                    (#[trigger] final(self).objects@[j]).0,
                    final(self).discovered@.last(),
                ),
    {
        let sec = compute_sector(coord.0, coord.1, coord.2);
        self.discovered.push(sec);
        let mut n: usize = 0;
        while n < 10
            invariant
                self.wf(),
                sec.0.0 <= sec.0.1 && sec.1.0 <= sec.1.1 && sec.2.0 <= sec.2.1,
                self.discovered@.len() == old(self).discovered@.len() + 1,
                self.discovered@.last() == sec,
                self.objects@.len() >= old(self).objects@.len(),
                self.objects@.len() <= old(self).objects@.len() + n,
                n <= 10,
                forall|j: int|
                    0 <= j < old(self).objects@.len() ==> #[trigger] self.objects@[j] == old(self).objects@[j],
                forall|j: int|
                    old(self).objects@.len() <= j < self.objects@.len() ==> ((
                    #[trigger] self.objects@[j]).1 matches SpaceObject::Planet(p) && p.position
                        == self.objects@[j].0),
                forall|j: int|
                    old(self).objects@.len() <= j < self.objects@.len() ==> in_sector(
                        (#[trigger] self.objects@[j]).0,
                        sec,
                    ),
            decreases 10 - n,
        {
            let x = sector_point(sec.0.0, sec.0.1);
            let y = sector_point(sec.1.0, sec.1.1);
            let z = sector_point(sec.2.0, sec.2.1);
            let planet = Planet::random((x, y, z));
            let _ = self.insert(&(x, y, z), SpaceObject::Planet(planet));
            n = n + 1;
        }
    }

    /// Every listed object is one of the map's values.
    pub open spec fn values_include(self, out: Seq<SpaceObject>) -> bool {
        forall|k: int|
            0 <= k < out.len() ==> exists|i: int|
                0 <= i < self.objects@.len() && (#[trigger] out[k]) == self.objects@[i].1
    }

    /// Copies of every object inside the sector box.
    pub fn list_objects_in_sector(&self, sector: &GalaxySector) -> (out: Vec<SpaceObject>)
        ensures
            self.values_include(out@),
    {
        let mut out: Vec<SpaceObject> = Vec::new();
        let mut i: usize = 0;
        while i < self.objects.len()
            invariant
                i <= self.objects@.len(),
                self.values_include(out@),
            decreases self.objects@.len() - i,
        {
            let (c, o) = self.objects[i];
            let ghost out0 = out@;
            if c.0 >= sector.0.0 && c.0 <= sector.0.1 && c.1 >= sector.1.0 && c.1 <= sector.1.1
                && c.2 >= sector.2.0 && c.2 <= sector.2.1 {
                out.push(o);
                proof {
                    assert forall|k: int| 0 <= k < out@.len() implies exists|q: int|
                        0 <= q < self.objects@.len() && (#[trigger] out@[k])
                            == self.objects@[q].1 by {
                        if k < out0.len() {
                            assert(out0[k] == out@[k]);
                            let q = choose|q: int|
                                0 <= q < self.objects@.len() && out0[k]
                                    == self.objects@[q].1;
                            assert(out@[k] == self.objects@[q].1);
                        } else {
                            assert(out@[k] == self.objects@[i as int].1);
                        }
                    }
                }
            }
            i = i + 1;
        }
        out
    }
}

/// A uniformly random point of `[lo, hi)`, or `lo` on a degenerate box.
fn sector_point(lo: u32, hi: u32) -> (p: u32)
    requires
        lo <= hi,
    ensures
        lo <= p,
        p <= hi,
{
    if hi == lo {
        lo
    } else {
        let span = (hi - lo) as u64;
        lo + (rand_below(span) as u32)
    }
}

/// The galaxy: the object grid plus the arena of stations the grid's
/// station entries point into.
#[derive(Debug)]
pub struct Galaxy {
    pub map: GalaxyMap,
    pub stations: Vec<Station>,
}

impl Galaxy {
    pub open spec fn wf(self) -> bool {
        &&& self.map.wf()
        &&& forall|i: int|
            0 <= i < self.map.objects@.len() ==> match (#[trigger] self.map.objects@[i]).1 {
                SpaceObject::BaseStation(k) => k < self.stations@.len()
                    && self.stations@[k as int].position == self.map.objects@[i].0,
                SpaceObject::Planet(p) => p.position == self.map.objects@[i].0,
            }
        &&& forall|k: int|
            0 <= k < self.stations@.len() ==> (#[trigger] self.stations@[k]).wf()
    }

    /// Whether a planet sits at this coordinate.
    pub open spec fn planet_at(self, coord: SpaceCoord) -> bool {
        exists|i: int|
            0 <= i < self.map.objects@.len() && (#[trigger] self.map.objects@[i]).0 == coord
                && self.map.objects@[i].1 is Planet
    }

    /// The arena slot of the station at this coordinate, if any.
    pub open spec fn station_idx_at(self, coord: SpaceCoord) -> Option<int> {
        if exists|i: int|
            0 <= i < self.map.objects@.len() && (#[trigger] self.map.objects@[i]).0 == coord
                && self.map.objects@[i].1 is BaseStation {
            let i = choose|i: int|
                0 <= i < self.map.objects@.len() && (#[trigger] self.map.objects@[i]).0 == coord
                    && self.map.objects@[i].1 is BaseStation;
            Some(self.map.objects@[i].1->BaseStation_0 as int)
        } else {
            None
        }
    }

    pub fn init() -> (g: Galaxy)
        ensures
            g.wf(),
            g.map.objects@.len() == 0,
            g.stations@.len() == 0,
    {
        Galaxy { map: GalaxyMap::empty(), stations: Vec::new() }
    }

    /// The arena slot of the station at `coord`.
    pub fn get_station(&self, coord: &SpaceCoord) -> (r: Option<usize>)
        requires
            self.wf(),
        ensures
            match r {
                Some(k) => self.station_idx_at(*coord) == Some(k as int) && k
                    < self.stations@.len() && self.stations@[k as int].position == *coord,
                None => self.station_idx_at(*coord) is None,
            },
    {
        match self.map.get(coord) {
            Some(obj) => {
                match obj {
                    SpaceObject::BaseStation(k) => {
                        let kk = *k;
                        proof {
                            let i = choose|i: int|
                                0 <= i < self.map.objects@.len() && self.map.objects@[i] == (
                                *coord,
                                SpaceObject::BaseStation(kk),
                                );
                            assert(self.map.objects@[i].0 == *coord && self.map.objects@[i].1
                                is BaseStation);
                            let j = choose|j: int|
                                0 <= j < self.map.objects@.len() && (#[trigger] self.map.objects@[
                                j]).0 == *coord && self.map.objects@[j].1 is BaseStation;
                            if i < j {
                                assert(self.map.objects@[i].0 != self.map.objects@[j].0);
                            } else if j < i {
                                assert(self.map.objects@[j].0 != self.map.objects@[i].0);
                            }
                        }
                        Some(kk)
                    },
                    SpaceObject::Planet(_) => {
                        proof {
                            lemma_unique_coord_object(self, *coord);
                        }
                        None
                    },
                }
            },
            None => {
                proof {
                    if self.station_idx_at(*coord) is Some {
                        let i = choose|i: int|
                            0 <= i < self.map.objects@.len() && (#[trigger] self.map.objects@[
                            i]).0 == *coord && self.map.objects@[i].1 is BaseStation;
                        assert(self.map.contains_coord(*coord));
                    }
                }
                None
            },
        }
    }

    /// The planet at `coord`.
    pub fn get_planet(&self, coord: &SpaceCoord) -> (r: Option<&Planet>)
        requires
            self.wf(),
        ensures
            match r {
                Some(p) => self.planet_at(*coord) && p.position == *coord,
                None => !self.planet_at(*coord),
            },
    {
        match self.map.get(coord) {
            Some(obj) => {
                match obj {
                    SpaceObject::Planet(p) => {
                        proof {
                            let i = choose|i: int|
                                0 <= i < self.map.objects@.len() && self.map.objects@[i] == (
                                *coord,
                                SpaceObject::Planet(*p),
                                );
                            assert(self.map.objects@[i].0 == *coord && self.map.objects@[i].1
                                is Planet);
                        }
                        Some(p)
                    },
                    SpaceObject::BaseStation(_) => {
                        proof {
                            lemma_unique_coord_object(self, *coord);
                        }
                        None
                    },
                }
            },
            None => {
                proof {
                    if self.planet_at(*coord) {
                        assert(self.map.contains_coord(*coord));
                    }
                }
                None
            },
        }
    }

    /// Found a new station at a free random coordinate, generate its
    /// sector on first discovery, and return its id and place.  Fails
    /// only if no free coordinate turns up after many draws.
    pub fn init_new_station(&mut self) -> (r: Result<(StationId, SpaceCoord), Errcode>)
        requires
            old(self).wf(),
        ensures
            final(self).wf(),
            match r {
                Ok((id, coord)) => final(self).station_idx_at(coord) is Some,
                Err(e) => e is InvalidArgument,
            },
    {
        let mut tries: usize = 0;
        while tries < 64
            invariant
                self.wf(),
            decreases 64 - tries,
        {
            let coord: SpaceCoord = (
                rand_below(4294967296) as u32,
                rand_below(4294967296) as u32,
                rand_below(4294967296) as u32,
            );
            if self.map.get(&coord).is_none() {
                let id = rand_below(65536) as StationId;
                let station = Station::init(id, coord);
                let ghost base = *self;
                let k = self.stations.len();
                self.stations.push(station);
                let ghost pre = *self;
                proof {
                    assert(pre.map == base.map);
                    assert(pre.stations@ == base.stations@.push(station));
                    assert(pre.wf()) by {
                        assert forall|i: int|
                            0 <= i < pre.map.objects@.len() implies match (
                        #[trigger] pre.map.objects@[i]).1 {
                            SpaceObject::BaseStation(q) => q < pre.stations@.len()
                                && pre.stations@[q as int].position == pre.map.objects@[i].0,
                            SpaceObject::Planet(p) => p.position == pre.map.objects@[i].0,
                        } by {
                            assert(base.wf());
                            match pre.map.objects@[i].1 {
                                SpaceObject::BaseStation(q) => {
                                    assert(q < base.stations@.len());
                                    assert(pre.stations@[q as int] == base.stations@[
                                    q as int]);
                                },
                                SpaceObject::Planet(_) => {},
                            }
                        }
                    }
                }
                let ins = self.map.insert(&coord, SpaceObject::BaseStation(k));
                match ins {
                    Ok(()) => {},
                    Err(()) => {
                        return Err(Errcode::InvalidArgument("coordinate"));
                    },
                }
                let ghost mid = *self;
                proof {
                    let last = mid.map.objects@.len() - 1;
                    assert(mid.map.objects@[last].0 == coord && mid.map.objects@[last].1
                        is BaseStation);
                    assert(mid.wf()) by {
                        assert forall|i: int|
                            0 <= i < mid.map.objects@.len() implies match (
                        #[trigger] mid.map.objects@[i]).1 {
                            SpaceObject::BaseStation(q) => q < mid.stations@.len()
                                && mid.stations@[q as int].position == mid.map.objects@[i].0,
                            SpaceObject::Planet(p) => p.position == mid.map.objects@[i].0,
                        } by {
                            if i < last {
                                assert(mid.map.objects@[i] == pre.map.objects@[i]);
                            } else {
                                assert(mid.stations@[k as int].position == coord);
                            }
                        }
                    }
                }
                if !self.map.is_discovered(&coord) {
                    self.map.generate_sector(&coord);
                }
                proof {
                    let last = mid.map.objects@.len() - 1;
                    assert(self.map.objects@[last] == mid.map.objects@[last]);
                    assert(self.wf()) by {
                        assert forall|i: int|
                            0 <= i < self.map.objects@.len() implies match (
                        #[trigger] self.map.objects@[i]).1 {
                            SpaceObject::BaseStation(q) => q < self.stations@.len()
                                && self.stations@[q as int].position == self.map.objects@[i].0,
                            SpaceObject::Planet(p) => p.position == self.map.objects@[i].0,
                        } by {
                            if i < mid.map.objects@.len() {
                                assert(self.map.objects@[i] == mid.map.objects@[i]);
                            }
                        }
                    }
                    if !(self.station_idx_at(coord) is Some) {
                        assert(self.map.objects@[last].0 == coord && self.map.objects@[last].1
                            is BaseStation);
                        assert(false);
                    }
                }
                return Ok((id, coord));
            }
            tries = tries + 1;
        }
        Err(Errcode::InvalidArgument("coordinate"))
    }

    /// Scan the sectors within `rank - 1` of `center` and report every
    /// object found.
    pub fn scan_sector(&self, rank: u8, center: &SpaceCoord) -> (r: crate::scan::ScanResult)
        requires
            self.wf(),
            1 <= rank,
    {
        let radius = (rank - 1) as u32;
        let sectors = sectors_around(center, if radius > 254 {
            254
        } else {
            radius
        });
        let mut results = crate::scan::ScanResult::empty();
        let mut si: usize = 0;
        while si < sectors.len()
            invariant
                self.wf(),
            decreases sectors@.len() - si,
        {
            let objs = self.map.list_objects_in_sector(&sectors[si]);
            let mut oi: usize = 0;
            while oi < objs.len()
                invariant
                    self.wf(),
                    self.map.values_include(objs@),
                decreases objs@.len() - oi,
            {
                let obj = objs[oi];
                proof {
                    if obj is BaseStation {
                        assert(exists|q: int|
                            0 <= q < self.map.objects@.len() && objs@[oi as int]
                                == self.map.objects@[q].1);
                        let q = choose|q: int|
                            0 <= q < self.map.objects@.len() && objs@[oi as int]
                                == self.map.objects@[q].1;
                        assert(self.map.objects@[q].1 is BaseStation);
                    }
                }
                results.add(rank, &obj, &self.stations);
                oi = oi + 1;
            }
            si = si + 1;
        }
        results
    }
}

/// With unique coordinates, the object found at a coordinate is the
/// only one there: a planet there rules out a station and conversely.
proof fn lemma_unique_coord_object(g: &Galaxy, coord: SpaceCoord)
    requires
        g.map.wf(),
    ensures
        !(exists|i: int|
            0 <= i < g.map.objects@.len() && (#[trigger] g.map.objects@[i]).0 == coord
                && g.map.objects@[i].1 is Planet) || !(exists|i: int|
            0 <= i < g.map.objects@.len() && (#[trigger] g.map.objects@[i]).0 == coord
                && g.map.objects@[i].1 is BaseStation),
{
    if (exists|i: int|
        0 <= i < g.map.objects@.len() && (#[trigger] g.map.objects@[i]).0 == coord
            && g.map.objects@[i].1 is Planet) && (exists|i: int|
        0 <= i < g.map.objects@.len() && (#[trigger] g.map.objects@[i]).0 == coord
            && g.map.objects@[i].1 is BaseStation) {
        let i = choose|i: int|
            0 <= i < g.map.objects@.len() && (#[trigger] g.map.objects@[i]).0 == coord
                && g.map.objects@[i].1 is Planet;
        let j = choose|j: int|
            0 <= j < g.map.objects@.len() && (#[trigger] g.map.objects@[j]).0 == coord
                && g.map.objects@[j].1 is BaseStation;
        if i < j {
            assert(g.map.objects@[i].0 != g.map.objects@[j].0);
        } else if j < i {
            assert(g.map.objects@[j].0 != g.map.objects@[i].0);
        }
    }
}

} // verus!
