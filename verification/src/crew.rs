//! Crew members, their wages, and ordered crew rosters.
//!
//! A wage is `base(type) * rank^2.2` currency per second; at milli scale
//! the fractional power `rank^0.2` is the floor of the fifth root of
//! `rank * 10^15`, so the wage of a rank-1 member is exact.

use vstd::prelude::*;

verus! {

use vstd::arithmetic::power::pow;
use crate::fixed::cap64;
use crate::fixed::floor_root;
use crate::fixed::is_floor_root;
use crate::fixed::iroot;
use crate::fixed::lemma_floor_root_exists;
use crate::fixed::lemma_floor_root_is;
use crate::fixed::lemma_floor_root_monotone;
use crate::fixed::lemma_pow_base_le;

pub type CrewId = u32;

/// Price of the next rank is this many times the current wage.
pub const RANK_PRICE_WAGE_MULT: u64 = 1500;

#[derive(Clone, Copy, Debug, PartialEq, Eq, Structural)]
pub enum CrewMemberType {
    Pilot,
    Operator,
    Trader,
    Soldier,
}

/// Wage of a rank-1 member, in milli-currency per second.
pub open spec fn wage_base_milli(t: CrewMemberType) -> int {
    match t {
        CrewMemberType::Pilot => 5000,
        CrewMemberType::Operator => 500,
        CrewMemberType::Trader => 2500,
        CrewMemberType::Soldier => 1500,
    }
}

/// `1000 * rank^(1/5)`, rounded down.
pub open spec fn rank_root5_milli(rank: int) -> int {
    floor_root(rank * 1000000000000000, 5)
}

/// Wage in milli-currency per second: `base * rank^2 * rank^(1/5)`.
pub open spec fn wage_milli_spec(t: CrewMemberType, rank: int) -> int {
    wage_base_milli(t) * rank * rank * rank_root5_milli(rank) / 1000
}

#[derive(Clone, Copy, Debug)]
pub struct CrewMember {
    pub member_type: CrewMemberType,
    pub rank: u8,
}

impl CrewMember {
    /// Ranks start at one and never leave `[1, 255]`.
    pub open spec fn wf(self) -> bool {
        1 <= self.rank
    }

    pub open spec fn wage_spec(self) -> int {
        wage_milli_spec(self.member_type, self.rank as int)
    }

    /// A fresh hire of the given trade, at rank one.
    pub fn recruit(member_type: CrewMemberType) -> (m: CrewMember)
        ensures
            m.member_type == member_type,
            m.rank == 1,
            m.wf(),
    {
        CrewMember { member_type, rank: 1 }
    }

    /// Current wage, in milli-currency per second.
    pub fn wage(&self) -> (w: u64)
        requires
            self.wf(),
        ensures
            w == self.wage_spec(),
            500 <= w <= 2000000000,
    {
        let base: u64 = match self.member_type {
            CrewMemberType::Pilot => 5000,
            CrewMemberType::Operator => 500,
            CrewMemberType::Trader => 2500,
            CrewMemberType::Soldier => 1500,
        };
        let r: u64 = self.rank as u64;
        let t5u = iroot((r as u128) * 1000000000000000, 5);
        proof {
            assert(pow(4000, 5) == 1024000000000000000) by {
                reveal_with_fuel(pow, 6);
            }
            if t5u >= 4000 {
                lemma_pow_base_le(4000, t5u as int, 5);
            }
            assert(pow(1000, 5) == 1000000000000000) by {
                reveal_with_fuel(pow, 6);
            }
            if t5u < 1000 {
                lemma_pow_base_le(t5u as int + 1, 1000, 5);
            }
        }
        let t5: u64 = t5u as u64;
        proof {
            assert(base * r <= 5000 * 255 && base * r * r <= 5000 * 255 * 255 && base * r * r
                * t5 <= 5000 * 255 * 255 * 4000) by (nonlinear_arith)
                requires
                    base <= 5000,
                    r <= 255,
                    t5 <= 4000,
            ;
            assert(base * r * r * t5 >= 500 * 1000) by (nonlinear_arith)
                requires
                    base >= 500,
                    r >= 1,
                    t5 >= 1000,
            ;
        }
        let w = base * r * r * t5 / 1000;
        w
    }

    /// Price to raise this member to the next rank.
    pub fn price_next_rank(&self) -> (p: u64)
        requires
            self.wf(),
        ensures
            p == RANK_PRICE_WAGE_MULT * self.wage_spec(),
    {
        let w = self.wage();
        RANK_PRICE_WAGE_MULT * w
    }
}

/// Raising a rank strictly raises the wage.
pub proof fn lemma_wage_strictly_increases(t: CrewMemberType, rank: int)
    requires
        1 <= rank < 255,
    ensures
        wage_milli_spec(t, rank + 1) > wage_milli_spec(t, rank),
{
    let scale: int = 1000000000000000;
    lemma_floor_root_exists((rank * scale) as nat, 5);
    lemma_floor_root_exists(((rank + 1) * scale) as nat, 5);
    lemma_floor_root_monotone(rank * scale, (rank + 1) * scale, 5);
    let t1 = rank_root5_milli(rank);
    let t2 = rank_root5_milli(rank + 1);
    assert(pow(1000, 5) == 1000000000000000) by {
        reveal_with_fuel(pow, 6);
    }
    if t1 < 1000 {
        lemma_pow_base_le(t1 + 1, 1000, 5);
        assert(false);
    }
    let b = wage_base_milli(t);
    let lowage = b * rank * rank * t1;
    let hiwage = b * (rank + 1) * (rank + 1) * t2;
    assert(hiwage >= lowage + 1500000) by (nonlinear_arith)
        requires
            t2 >= t1,
            t1 >= 1000,
            b >= 500,
            rank >= 1,
            lowage == b * rank * rank * t1,
            hiwage == b * (rank + 1) * (rank + 1) * t2,
    ;
    assert(lowage / 1000 + 1500 == (lowage + 1500 * 1000) / 1000) by {
        vstd::arithmetic::div_mod::lemma_hoist_over_denominator(lowage, 1500, 1000);
    }
    assert((lowage + 1500000) / 1000 <= hiwage / 1000) by {
        vstd::arithmetic::div_mod::lemma_div_is_ordered(lowage + 1500000, hiwage, 1000);
    }
}

/// Every wage is worth at least the cheapest rank-1 hire.
pub proof fn lemma_wage_positive(t: CrewMemberType, rank: int)
    requires
        1 <= rank <= 255,
    ensures
        wage_milli_spec(t, rank) >= 500,
{
    let scale: int = 1000000000000000;
    lemma_floor_root_exists((rank * scale) as nat, 5);
    let t5 = rank_root5_milli(rank);
    assert(pow(1000, 5) == 1000000000000000) by {
        reveal_with_fuel(pow, 6);
    }
    if t5 < 1000 {
        lemma_pow_base_le(t5 + 1, 1000, 5);
        assert(false);
    }
    let b = wage_base_milli(t);
    assert(b * rank * rank * t5 >= 500 * 1000) by (nonlinear_arith)
        requires
            b >= 500,
            rank >= 1,
            t5 >= 1000,
    ;
    assert(500int * 1000 / 1000 == 500int);
    vstd::arithmetic::div_mod::lemma_div_is_ordered(500int * 1000, b * rank * rank * t5, 1000);
}

/// An ordered roster of crew members with distinct ids.
#[derive(Debug)]
pub struct Crew(pub Vec<(CrewId, CrewMember)>);

/// Sum of the wages of a roster, clamped to the 64-bit range.
pub open spec fn sum_wages_seq(s: Seq<(CrewId, CrewMember)>) -> int
    decreases s.len(),
{
    if s.len() == 0 {
        0
    } else {
        cap64(sum_wages_seq(s.drop_last()) + s.last().1.wage_spec())
    }
}

/// A wage sum of a well-formed roster never leaves the 64-bit range.
pub proof fn lemma_sum_wages_in_range(s: Seq<(CrewId, CrewMember)>)
    requires
        forall|j: int| 0 <= j < s.len() ==> (#[trigger] s[j]).1.wf(),
    ensures
        0 <= sum_wages_seq(s) <= u64::MAX,
    decreases s.len(),
{
    if s.len() > 0 {
        assert(forall|j: int|
            0 <= j < s.drop_last().len() ==> (#[trigger] s.drop_last()[j]).1.wf());
        lemma_sum_wages_in_range(s.drop_last());
        assert(s[s.len() - 1].1.wf());
        lemma_wage_positive(s.last().1.member_type, s.last().1.rank as int);
    }
}

/// Replacing one member with a better-paid one strictly raises the
/// roster's wage bill, as long as the larger bill does not saturate.
pub proof fn lemma_sum_wages_update_increases(
    s: Seq<(CrewId, CrewMember)>,
    i: int,
    m2: CrewMember,
)
    requires
        0 <= i < s.len(),
        forall|j: int| 0 <= j < s.len() ==> (#[trigger] s[j]).1.wf(),
        m2.wf(),
        m2.wage_spec() > s[i].1.wage_spec(),
        sum_wages_seq(s.update(i, (s[i].0, m2))) < u64::MAX,
    ensures
        sum_wages_seq(s.update(i, (s[i].0, m2))) > sum_wages_seq(s),
    decreases s.len(),
{
    let s2 = s.update(i, (s[i].0, m2));
    lemma_sum_wages_in_range(s.drop_last());
    lemma_sum_wages_in_range(s2.drop_last());
    assert(s[s.len() - 1].1.wf());
    lemma_wage_positive(s.last().1.member_type, s.last().1.rank as int);
    lemma_wage_positive(s2.last().1.member_type, s2.last().1.rank as int);
    if i == s.len() - 1 {
        assert(s2.drop_last() =~= s.drop_last());
        assert(s2.last() == (s[i].0, m2));
    } else {
        assert(s2.drop_last() =~= s.drop_last().update(i, (s[i].0, m2)));
        assert(s2.last() == s.last());
        assert(sum_wages_seq(s2.drop_last()) < u64::MAX) by {
            if sum_wages_seq(s2.drop_last()) >= u64::MAX {
                assert(sum_wages_seq(s2) == u64::MAX);
            }
        }
        lemma_sum_wages_update_increases(s.drop_last(), i, m2);
    }
}

/// The wage law: raising one member's rank strictly raises the
/// roster's wage bill, as long as the larger bill does not saturate
/// the 64-bit range.
pub proof fn lemma_rank_up_increases_sum(s: Seq<(CrewId, CrewMember)>, i: int)
    requires
        0 <= i < s.len(),
        forall|j: int| 0 <= j < s.len() ==> (#[trigger] s[j]).1.wf(),
        s[i].1.rank < 255,
        sum_wages_seq(
            s.update(
                i,
                (
                    s[i].0,
                    CrewMember {
                        member_type: s[i].1.member_type,
                        rank: (s[i].1.rank + 1) as u8,
                    },
                ),
            ),
        ) < u64::MAX,
    ensures
        sum_wages_seq(
            s.update(
                i,
                (
                    s[i].0,
                    CrewMember {
                        member_type: s[i].1.member_type,
                        rank: (s[i].1.rank + 1) as u8,
                    },
                ),
            ),
        ) > sum_wages_seq(s),
{
    let m2 = CrewMember { member_type: s[i].1.member_type, rank: (s[i].1.rank + 1) as u8 };
    assert(s[i].1.wf());
    lemma_wage_strictly_increases(s[i].1.member_type, s[i].1.rank as int);
    lemma_sum_wages_update_increases(s, i, m2);
}

impl Crew {
    pub open spec fn contains_id(self, id: CrewId) -> bool {
        exists|i: int| 0 <= i < self.0@.len() && self.0@[i].0 == id
    }

    pub open spec fn wf(self) -> bool {
        &&& forall|i: int, j: int|
            0 <= i < j < self.0@.len() ==> self.0@[i].0 != self.0@[j].0
        &&& forall|i: int| 0 <= i < self.0@.len() ==> (#[trigger] self.0@[i]).1.wf()
    }

    pub open spec fn sum_wages_spec(self) -> int {
        sum_wages_seq(self.0@)
    }

    /// Position of the member with this id; meaningful when `contains_id`.
    pub open spec fn idx_of(self, id: CrewId) -> int {
        choose|i: int| 0 <= i < self.0@.len() && self.0@[i].0 == id
    }

    /// The member filed under this id; meaningful when `contains_id`.
    pub open spec fn member_spec(self, id: CrewId) -> CrewMember {
        self.0@[self.idx_of(id)].1
    }

    pub fn new() -> (c: Crew)
        ensures
            c.wf(),
            c.0@.len() == 0,
    {
        Crew(Vec::new())
    }

    /// Whoever was on the roster is still there after a fresh id is
    /// appended, filed under the same member.
    pub proof fn lemma_member_after_push(c0: Crew, c1: Crew, newid: CrewId, m: CrewMember,
        pid: CrewId)
        requires
            c0.wf(),
            c1.wf(),
            c1.0@ == c0.0@.push((newid, m)),
            c0.contains_id(pid),
            pid != newid,
        ensures
            c1.contains_id(pid),
            c1.member_spec(pid) == c0.member_spec(pid),
    {
        let j = c0.idx_of(pid);
        assert(0 <= j < c0.0@.len() && c0.0@[j].0 == pid);
        assert(c1.0@[j].0 == pid);
        let j1 = c1.idx_of(pid);
        assert(0 <= j1 < c1.0@.len() && c1.0@[j1].0 == pid);
        if j1 < j {
            assert(c1.0@[j1].0 != c1.0@[j].0);
        } else if j < j1 {
            assert(c1.0@[j].0 != c1.0@[j1].0);
        }
        assert(c1.0@[j] == c0.0@[j]);
        let j0 = c0.idx_of(pid);
        if j0 < j {
            assert(c0.0@[j0].0 != c0.0@[j].0);
        } else if j < j0 {
            assert(c0.0@[j].0 != c0.0@[j0].0);
        }
    }

    /// Replacing the member at one slot leaves every other member in
    /// place, filed under the same id.
    pub proof fn lemma_member_after_update(c0: Crew, c1: Crew, i: int, id: CrewId,
        m: CrewMember, pid: CrewId)
        requires
            c0.wf(),
            c1.wf(),
            0 <= i < c0.0@.len(),
            c0.0@[i].0 == id,
            c1.0@ == c0.0@.update(i, (id, m)),
            c0.contains_id(pid),
        ensures
            c1.contains_id(pid),
            pid != id ==> c1.member_spec(pid) == c0.member_spec(pid),
            pid == id ==> c1.member_spec(pid) == m,
    {
        let j = c0.idx_of(pid);
        assert(0 <= j < c0.0@.len() && c0.0@[j].0 == pid);
        if pid == id {
            if j < i {
                assert(c0.0@[j].0 != c0.0@[i].0);
            } else if i < j {
                assert(c0.0@[i].0 != c0.0@[j].0);
            }
        }
        assert(c1.0@[j].0 == pid);
        let j1 = c1.idx_of(pid);
        assert(0 <= j1 < c1.0@.len() && c1.0@[j1].0 == pid);
        if j1 < j {
            assert(c1.0@[j1].0 != c1.0@[j].0);
        } else if j < j1 {
            assert(c1.0@[j].0 != c1.0@[j1].0);
        }
    }

    /// Index of the member with this id, if any.
    fn find(&self, id: CrewId) -> (r: Option<usize>)
        ensures
            match r {
                Some(i) => i < self.0@.len() && self.0@[i as int].0 == id,
                None => !self.contains_id(id),
            },
    {
        let mut i: usize = 0;
        while i < self.0.len()
            invariant
                i <= self.0@.len(),
                forall|j: int| 0 <= j < i ==> self.0@[j].0 != id,
            decreases self.0@.len() - i,
        {
            if self.0[i].0 == id {
                return Some(i);
            }
            i = i + 1;
        }
        None
    }

    pub fn get(&self, id: CrewId) -> (r: Option<&CrewMember>)
        requires
            self.wf(),
        ensures
            match r {
                Some(m) => self.contains_id(id) && *m == self.member_spec(id),
                None => !self.contains_id(id),
            },
    {
        match self.find(id) {
            Some(i) => {
                proof {
                    assert(self.contains_id(id));
                    let j = self.idx_of(id);
                    assert(0 <= j < self.0@.len() && self.0@[j].0 == id);
                    if j < i {
                        assert(self.0@[j].0 != self.0@[i as int].0);
                    } else if i < j {
                        assert(self.0@[i as int].0 != self.0@[j].0);
                    }
                }
                Some(&self.0[i].1)
            },
            None => None,
        }
    }

    /// Add a member under a fresh id at the end of the roster.
    pub fn insert(&mut self, id: CrewId, m: CrewMember)
        requires
            old(self).wf(),
            m.wf(),
            !old(self).contains_id(id),
        ensures
            final(self).wf(),
            final(self).0@ == old(self).0@.push((id, m)),
            final(self).contains_id(id),
    {
        self.0.push((id, m));
        proof {
            assert(self.0@[self.0@.len() - 1].0 == id);
        }
    }

    /// Raise the rank of the member with this id by one.
    pub fn rank_up(&mut self, id: CrewId) -> (r: Option<u8>)
        requires
            old(self).wf(),
        ensures
            final(self).wf(),
            match r {
                Some(newrank) => {
                    &&& old(self).contains_id(id)
                    &&& old(self).member_spec(id).rank < 255
                    &&& newrank == old(self).member_spec(id).rank + 1
                    &&& final(self).contains_id(id)
                    &&& final(self).member_spec(id) == (CrewMember {
                        member_type: old(self).member_spec(id).member_type,
                        rank: newrank,
                    })
                    &&& exists|i: int|
                        {
                            &&& 0 <= i < old(self).0@.len()
                            &&& old(self).0@[i].0 == id
                            &&& old(self).0@[i].1.rank < 255
                            &&& newrank == old(self).0@[i].1.rank + 1
                            &&& final(self).0@ == old(self).0@.update(
                                i,
                                (
                                    id,
                                    CrewMember {
                                        member_type: old(self).0@[i].1.member_type,
                                        rank: newrank,
                                    },
                                ),
                            )
                        }
                },
                None => {
                    &&& *final(self) == *old(self)
                    &&& (!old(self).contains_id(id) || old(self).member_spec(id).rank == 255)
                },
            },
    {
        match self.find(id) {
            Some(i) => {
                proof {
                    let j = self.idx_of(id);
                    assert(0 <= j < self.0@.len() && self.0@[j].0 == id);
                    if j < i {
                        assert(self.0@[j].0 != self.0@[i as int].0);
                    } else if i < j {
                        assert(self.0@[i as int].0 != self.0@[j].0);
                    }
                }
                let m = self.0[i].1;
                if m.rank == 255 {
                    return None;
                }
                let upgraded = CrewMember { member_type: m.member_type, rank: m.rank + 1 };
                let slot = &mut self.0[i];
                *slot = (id, upgraded);
                proof {
                    Self::lemma_member_after_update(*old(self), *self, i as int, id, upgraded, id);
                }
                Some(m.rank + 1)
            },
            None => None,
        }
    }

    /// Remove the member with this id, keeping the others in order.
    pub fn remove(&mut self, id: CrewId) -> (r: Option<CrewMember>)
        requires
            old(self).wf(),
        ensures
            final(self).wf(),
            match r {
                Some(m) => {
                    &&& m.wf()
                    &&& old(self).contains_id(id)
                    &&& m == old(self).member_spec(id)
                    &&& exists|i: int|
                        {
                            &&& 0 <= i < old(self).0@.len()
                            &&& old(self).0@[i] == (id, m)
                            &&& final(self).0@ == old(self).0@.remove(i)
                        }
                },
                None => !old(self).contains_id(id) && *final(self) == *old(self),
            },
    {
        match self.find(id) {
            Some(i) => {
                proof {
                    let j = self.idx_of(id);
                    assert(0 <= j < self.0@.len() && self.0@[j].0 == id);
                    if j < i {
                        assert(self.0@[j].0 != self.0@[i as int].0);
                    } else if i < j {
                        assert(self.0@[i as int].0 != self.0@[j].0);
                    }
                }
                let (_, m) = self.0.remove(i);
                Some(m)
            },
            None => None,
        }
    }

    /// Total wages of the roster, clamped to the 64-bit range.
    pub fn sum_wages(&self) -> (w: u64)
        requires
            self.wf(),
        ensures
            w == self.sum_wages_spec(),
    {
        let mut acc: u64 = 0;
        let mut i: usize = 0;
        while i < self.0.len()
            invariant
                self.wf(),
                i <= self.0@.len(),
                acc == sum_wages_seq(self.0@.take(i as int)),
            decreases self.0@.len() - i,
        {
            let w = self.0[i].1.wage();
            acc = if acc > u64::MAX - w {
                u64::MAX
            } else {
                acc + w
            };
            proof {
                assert(self.0@.take(i + 1).drop_last() =~= self.0@.take(i as int));
                assert(self.0@.take(i + 1).last() == self.0@[i as int]);
            }
            i = i + 1;
        }
        proof {
            assert(self.0@.take(self.0@.len() as int) =~= self.0@);
        }
        acc
    }
}

} // verus!
