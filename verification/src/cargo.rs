//! Bounded multi-resource containers with exact volume accounting.
//!
//! Quantities are micro-units, capacity and usage are nano-volume, so
//! `volume * quantity` is exact.  `usage` equals the stored volume except
//! right after a deposit filled the container: there `usage` sits on
//! `capacity` and overshoots the stored volume by less than one unit's
//! volume (at most `2000` nano, far within a thousandth of a volume unit).

use vstd::prelude::*;

verus! {

use crate::resources::RESOURCE_COUNT;
use crate::resources::Resource;

/// The largest per-unit volume in the catalogue, in milli-volume.
pub const MAX_UNIT_VOLUME: u64 = 2000;

/// Volume of the first `n` catalogue entries of `s`, in nano-volume.
pub open spec fn stored_volume(s: Seq<u64>, n: int) -> int
    decreases n,
{
    if n <= 0 {
        0
    } else {
        stored_volume(s, n - 1) + Resource::from_index_spec(n - 1).volume_spec() * s[n - 1]
    }
}

/// Each catalogue term is non-negative and bounded by the whole sum.
pub proof fn lemma_stored_volume_nonneg(s: Seq<u64>, n: int)
    requires
        n <= s.len(),
    ensures
        0 <= stored_volume(s, n),
        forall|i: int|
            0 <= i < n ==> Resource::from_index_spec(i).volume_spec() * s[i] <= stored_volume(
                s,
                n,
            ),
    decreases n,
{
    if n > 0 {
        lemma_stored_volume_nonneg(s, n - 1);
        let r = Resource::from_index_spec(n - 1);
        vstd::arithmetic::mul::lemma_mul_inequality(0, s[n - 1] as int, r.volume_spec());
        assert(0 * r.volume_spec() == 0) by (nonlinear_arith);
        assert(r.volume_spec() * s[n - 1] >= 0) by (nonlinear_arith)
            requires
                s[n - 1] >= 0,
        ;
    }
}

/// Changing one slot changes the sum by the volume of the difference.
pub proof fn lemma_stored_volume_update(s: Seq<u64>, i: int, v: u64, n: int)
    requires
        0 <= i < s.len(),
        n <= s.len(),
    ensures
        stored_volume(s.update(i, v), n) == if i < n {
            stored_volume(s, n) - Resource::from_index_spec(i).volume_spec() * s[i]
                + Resource::from_index_spec(i).volume_spec() * v
        } else {
            stored_volume(s, n)
        },
    decreases n,
{
    if n > 0 {
        lemma_stored_volume_update(s, i, v, n - 1);
        assert(s.update(i, v).len() == s.len());
        if i == n - 1 {
            assert(s.update(i, v)[n - 1] == v);
        } else {
            assert(s.update(i, v)[n - 1] == s[n - 1]);
        }
    }
}

/// Quantity a deposit actually adds: everything while it fits, the
/// remaining volume's worth when it would overflow, nothing when full.
pub open spec fn add_qty_spec(cap: int, usage: int, vol: int, q: int) -> int {
    if usage == cap {
        0
    } else if vol * q <= cap - usage {
        q
    } else {
        (cap - usage) / vol
    }
}

/// Usage after a deposit: grown by the added volume, clamped onto the
/// capacity when the deposit overflows.
pub open spec fn usage_after_spec(cap: int, usage: int, vol: int, q: int) -> int {
    if usage == cap {
        usage
    } else if vol * q <= cap - usage {
        usage + vol * q
    } else {
        cap
    }
}

/// A sequence of zeroes stores no volume.
pub proof fn lemma_stored_volume_zero(s: Seq<u64>, n: int)
    requires
        n <= s.len(),
        forall|i: int| 0 <= i < n ==> s[i] == 0,
    ensures
        stored_volume(s, n) == 0,
    decreases n,
{
    if n > 0 {
        lemma_stored_volume_zero(s, n - 1);
        assert(Resource::from_index_spec(n - 1).volume_spec() * 0 == 0) by (nonlinear_arith);
    }
}

#[derive(Clone, Debug)]
pub struct ShipCargo {
    /// Total volume the container can hold, in nano-volume.
    pub capacity: u64,
    /// Volume currently accounted for, in nano-volume.
    pub usage: u64,
    /// Quantity of each catalogue entry, in micro-units.
    pub resources: Vec<u64>,
}

impl ShipCargo {
    /// Stored volume of the whole catalogue, in nano-volume.
    pub open spec fn stored_spec(self) -> int {
        stored_volume(self.resources@, RESOURCE_COUNT as int)
    }

    pub open spec fn wf(self) -> bool {
        &&& self.resources@.len() == RESOURCE_COUNT
        &&& self.usage <= self.capacity
        &&& self.stored_spec() <= self.usage as int
        &&& self.usage - self.stored_spec() < MAX_UNIT_VOLUME
        &&& (self.usage < self.capacity ==> self.usage == self.stored_spec())
    }

    pub open spec fn amount_spec(self, r: Resource) -> int {
        self.resources@[r.index_spec()] as int
    }

    pub open spec fn is_full_spec(self) -> bool {
        self.usage == self.capacity
    }

    /// An empty container of the given capacity (nano-volume).
    pub fn with_capacity(cap: u64) -> (c: ShipCargo)
        ensures
            c.wf(),
            c.capacity == cap,
            c.usage == 0,
            forall|i: int| 0 <= i < RESOURCE_COUNT ==> c.resources@[i] == 0,
    {
        let mut resources: Vec<u64> = Vec::new();
        let mut i: usize = 0;
        while i < RESOURCE_COUNT
            invariant
                resources@.len() == i,
                i <= RESOURCE_COUNT,
                forall|j: int| 0 <= j < i ==> resources@[j] == 0,
            decreases RESOURCE_COUNT - i,
        {
            resources.push(0);
            i = i + 1;
        }
        proof {
            lemma_stored_volume_zero(resources@, RESOURCE_COUNT as int);
        }
        ShipCargo { capacity: cap, usage: 0, resources }
    }

    /// Reserved hook: cargo does not slow the ship down yet.
    pub fn slowing_ratio(&self) -> (r: u64)
        ensures
            r == 0,
    {
        0
    }

    pub fn is_full(&self) -> (b: bool)
        ensures
            b == self.is_full_spec(),
    {
        self.usage == self.capacity
    }

    /// Quantity of `resource` on board, in micro-units.
    pub fn amount_of(&self, resource: &Resource) -> (q: u64)
        requires
            self.wf(),
        ensures
            q == self.amount_spec(*resource),
    {
        let idx = resource.index();
        self.resources[idx]
    }

    /// How many micro-units of `resource` still fit.
    pub fn space_for(&self, resource: &Resource) -> (q: u64)
        requires
            self.wf(),
        ensures
            q == (self.capacity - self.usage) / resource.volume_spec(),
    {
        let vol = resource.volume();
        (self.capacity - self.usage) / vol
    }

    /// Deposit up to `amnt` micro-units; the part that fits is added and
    /// returned.  A deposit that would overflow fills the container
    /// exactly and truncates the quantity to the remaining volume.
    pub fn add_resource(&mut self, res: &Resource, amnt: u64) -> (added: u64)
        requires
            old(self).wf(),
        ensures
            final(self).wf(),
            final(self).capacity == old(self).capacity,
            added <= amnt,
            final(self).resources@ == old(self).resources@.update(
                res.index_spec(),
                (old(self).amount_spec(*res) + added) as u64,
            ),
            final(self).amount_spec(*res) == old(self).amount_spec(*res) + added,
            added == add_qty_spec(
                old(self).capacity as int,
                old(self).usage as int,
                res.volume_spec(),
                amnt as int,
            ),
            final(self).usage == usage_after_spec(
                old(self).capacity as int,
                old(self).usage as int,
                res.volume_spec(),
                amnt as int,
            ),
    {
        let idx = res.index();
        proof {
            lemma_stored_volume_nonneg(self.resources@, RESOURCE_COUNT as int);
        }
        if self.usage == self.capacity {
            proof {
                assert(self.resources@ =~= self.resources@.update(
                    idx as int,
                    self.resources@[idx as int],
                ));
                lemma_stored_volume_update(
                    self.resources@,
                    idx as int,
                    self.resources@[idx as int],
                    RESOURCE_COUNT as int,
                );
            }
            return 0;
        }
        let vol = res.volume();
        let headroom = self.capacity - self.usage;
        proof {
            assert(vol as int * amnt as int <= 2000 * 0xFFFFFFFFFFFFFFFFu64) by (nonlinear_arith)
                requires
                    vol <= 2000,
                    amnt <= 0xFFFFFFFFFFFFFFFFu64,
            ;
        }
        let need = (vol as u128) * (amnt as u128);
        let ghost oldres = self.resources@;
        if need <= headroom as u128 {
            let add_nano = (need) as u64;
            let cur = self.resources[idx];
            proof {
                lemma_stored_volume_update(
                    oldres,
                    idx as int,
                    (cur + amnt) as u64,
                    RESOURCE_COUNT as int,
                );
                assert(vol as int * (cur + amnt) == vol as int * cur + vol as int * amnt)
                    by (nonlinear_arith);
            }
            self.usage = self.usage + add_nano;
            let slot = &mut self.resources[idx];
            *slot = cur + amnt;
            amnt
        } else {
            let added = headroom / vol;
            let cur = self.resources[idx];
            proof {
                assert(vol as int * added <= headroom) by {
                    vstd::arithmetic::div_mod::lemma_fundamental_div_mod(
                        headroom as int,
                        vol as int,
                    );
                    vstd::arithmetic::div_mod::lemma_mod_division_less_than_divisor(
                        headroom as int,
                        vol as int,
                    );
                }
                assert(added < amnt) by {
                    if added >= amnt {
                        vstd::arithmetic::mul::lemma_mul_inequality(
                            amnt as int,
                            added as int,
                            vol as int,
                        );
                    }
                }
                lemma_stored_volume_update(
                    oldres,
                    idx as int,
                    (cur + added) as u64,
                    RESOURCE_COUNT as int,
                );
                assert(vol as int * (cur + added) == vol as int * cur + vol as int * added)
                    by (nonlinear_arith);
                assert(headroom - vol as int * added < vol) by {
                    vstd::arithmetic::div_mod::lemma_fundamental_div_mod(
                        headroom as int,
                        vol as int,
                    );
                    vstd::arithmetic::div_mod::lemma_mod_division_less_than_divisor(
                        headroom as int,
                        vol as int,
                    );
                }
            }
            self.usage = self.capacity;
            let slot = &mut self.resources[idx];
            *slot = cur + added;
            added
        }
    }

    /// Withdraw up to `amnt` micro-units; afterwards `usage` is the exact
    /// stored volume again.
    pub fn unload(&mut self, resource: &Resource, amnt: u64) -> (unloaded: u64)
        requires
            old(self).wf(),
        ensures
            final(self).wf(),
            final(self).capacity == old(self).capacity,
            unloaded == if amnt <= old(self).amount_spec(*resource) {
                amnt as int
            } else {
                old(self).amount_spec(*resource)
            },
            final(self).resources@ == old(self).resources@.update(
                resource.index_spec(),
                (old(self).amount_spec(*resource) - unloaded) as u64,
            ),
            final(self).amount_spec(*resource) == old(self).amount_spec(*resource) - unloaded,
            final(self).usage == final(self).stored_spec(),
    {
        let idx = resource.index();
        let cur = self.resources[idx];
        let unloaded = if amnt <= cur {
            amnt
        } else {
            cur
        };
        let ghost oldres = self.resources@;
        proof {
            lemma_stored_volume_nonneg(oldres, RESOURCE_COUNT as int);
            lemma_stored_volume_update(
                oldres,
                idx as int,
                (cur - unloaded) as u64,
                RESOURCE_COUNT as int,
            );
            assert(resource.volume_spec() * ((cur - unloaded) as u64) <= resource.volume_spec()
                * cur) by (nonlinear_arith)
                requires
                    0 <= cur - unloaded <= cur,
                    resource.volume_spec() >= 0,
            ;
            lemma_stored_volume_nonneg(
                oldres.update(idx as int, (cur - unloaded) as u64),
                RESOURCE_COUNT as int,
            );
        }
        let slot = &mut self.resources[idx];
        *slot = cur - unloaded;
        let total = self.stored_total();
        self.usage = total;
        unloaded
    }

    /// A field-for-field copy.
    pub fn duplicate(&self) -> (c: ShipCargo)
        ensures
            c.capacity == self.capacity,
            c.usage == self.usage,
            c.resources@ == self.resources@,
    {
        let mut resources: Vec<u64> = Vec::new();
        let mut i: usize = 0;
        while i < self.resources.len()
            invariant
                i <= self.resources@.len(),
                resources@ == self.resources@.take(i as int),
            decreases self.resources@.len() - i,
        {
            resources.push(self.resources[i]);
            proof {
                assert(resources@ =~= self.resources@.take(i + 1));
            }
            i = i + 1;
        }
        proof {
            assert(self.resources@.take(self.resources@.len() as int) =~= self.resources@);
        }
        ShipCargo { capacity: self.capacity, usage: self.usage, resources }
    }

    /// Grow the capacity, clamped to 64 bits; `usage` resynchronises
    /// to the exact stored volume.
    pub fn expand(&mut self, add: u64)
        requires
            old(self).wf(),
        ensures
            final(self).wf(),
            final(self).capacity == crate::fixed::cap64(old(self).capacity + add),
            final(self).capacity >= old(self).capacity,
            final(self).resources@ == old(self).resources@,
            final(self).usage == final(self).stored_spec(),
    {
        let total = self.stored_total();
        self.usage = total;
        self.capacity = if self.capacity > u64::MAX - add {
            u64::MAX
        } else {
            self.capacity + add
        };
    }

    /// The exact stored volume, in nano-volume.
    fn stored_total(&self) -> (t: u64)
        requires
            self.resources@.len() == RESOURCE_COUNT,
            stored_volume(self.resources@, RESOURCE_COUNT as int) <= u64::MAX,
        ensures
            t == stored_volume(self.resources@, RESOURCE_COUNT as int),
    {
        let mut acc: u64 = 0;
        let mut i: usize = 0;
        proof {
            lemma_stored_volume_nonneg(self.resources@, RESOURCE_COUNT as int);
        }
        while i < RESOURCE_COUNT
            invariant
                self.resources@.len() == RESOURCE_COUNT,
                i <= RESOURCE_COUNT,
                acc == stored_volume(self.resources@, i as int),
                stored_volume(self.resources@, RESOURCE_COUNT as int) <= u64::MAX,
            decreases RESOURCE_COUNT - i,
        {
            let r = Resource::from_index(i);
            let vol = r.volume();
            let q = self.resources[i];
            proof {
                lemma_stored_volume_prefix(self.resources@, i + 1, RESOURCE_COUNT as int);
                lemma_stored_volume_nonneg(self.resources@, i + 1);
            }
            let term = (vol as u128) * (q as u128);
            acc = acc + (term as u64);
            i = i + 1;
        }
        acc
    }
}

/// Sums over longer prefixes only grow.
pub proof fn lemma_stored_volume_prefix(s: Seq<u64>, n: int, m: int)
    requires
        0 <= n <= m <= s.len(),
    ensures
        stored_volume(s, n) <= stored_volume(s, m),
    decreases m,
{
    if n < m {
        lemma_stored_volume_prefix(s, n, m - 1);
        assert(Resource::from_index_spec(m - 1).volume_spec() * s[m - 1] >= 0)
            by (nonlinear_arith)
            requires
                s[m - 1] >= 0,
        ;
    }
}

/// The accounting law: usage never exceeds capacity and tracks the
/// stored volume to within one unit's volume (under two millionths
/// of a volume unit, far inside a thousandth).
pub proof fn lemma_cargo_accounting(c: ShipCargo)
    requires
        c.wf(),
    ensures
        0 <= c.usage <= c.capacity,
        c.stored_spec() <= c.usage as int,
        c.usage - c.stored_spec() < MAX_UNIT_VOLUME,
{
}

} // verus!
