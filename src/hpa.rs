//! The HPA scale-number policy: keep the mean memory use rate of a function's
//! containers near a target.
use std::collections::HashMap;

use vstd::prelude::*;

use crate::fn_dag::{FnId, SCALE};

verus! {

/// Consecutive ticks a lower count must be asked for before the filter lets it through.
pub const CAREFUL_DOWN_TICKS: usize = 5;

/// Holds back decreases until they have been asked for several ticks in a row.
pub struct CarefulScaleDownFilter {
    /// Per function, how many ticks in a row a lower count has been asked for.
    pub down_ticks: HashMap<FnId, usize>,
}

impl CarefulScaleDownFilter {
    pub fn new() -> (r: CarefulScaleDownFilter)
        ensures
            r.down_ticks@ == Map::<FnId, usize>::empty(),
    {
        CarefulScaleDownFilter { down_ticks: HashMap::new() }
    }

    /// The count to use: `desired` unless it is below `current` and has not yet been
    /// asked for `CAREFUL_DOWN_TICKS` ticks in a row, in which case `current`.
    pub fn filter_desired(&mut self, fnid: FnId, desired: usize, current: usize) -> (r: usize)
        ensures
            r == filter_result(old(self).down_ticks@, fnid, desired, current),
            final(self).down_ticks@ == old(self).down_ticks@.insert(
                fnid,
                filter_ticks(old(self).down_ticks@, fnid, desired, current),
            ),
    {
        if desired >= current {
            self.down_ticks.insert(fnid, 0);
            return desired;
        }
        let ticks: usize = match self.down_ticks.get(&fnid) {
            Some(t) => if *t < CAREFUL_DOWN_TICKS { *t + 1 } else { CAREFUL_DOWN_TICKS },
            None => 1,
        };
        if ticks >= CAREFUL_DOWN_TICKS {
            self.down_ticks.insert(fnid, 0);
            desired
        } else {
            self.down_ticks.insert(fnid, ticks);
            current
        }
    }
}

/// How many ticks in a row a lower count will have been asked for.
pub open spec fn next_ticks(m: Map<FnId, usize>, fnid: FnId) -> int {
    if m.contains_key(fnid) {
        m[fnid] + 1
    } else {
        1
    }
}

/// The count the careful filter lets through.
pub open spec fn filter_result(m: Map<FnId, usize>, fnid: FnId, desired: usize, current: usize) -> usize {
    if desired >= current || next_ticks(m, fnid) >= CAREFUL_DOWN_TICKS {
        desired
    } else {
        current
    }
}

/// The tick count the careful filter keeps for `fnid` afterwards.
pub open spec fn filter_ticks(m: Map<FnId, usize>, fnid: FnId, desired: usize, current: usize) -> usize {
    if desired >= current || next_ticks(m, fnid) >= CAREFUL_DOWN_TICKS {
        0
    } else {
        next_ticks(m, fnid) as usize
    }
}

/// The mean use rate `sum / (cnt * SCALE)` lies within `tol` (in units) of `target`
/// as a ratio: `1 - tol <= (sum / cnt) / target <= 1 + tol`.
pub open spec fn in_band(sum: int, cnt: int, target: int, tol: int) -> bool {
    (SCALE - tol) * cnt * target <= SCALE * sum && SCALE * sum <= (SCALE + tol) * cnt * target
}

/// `ceil(n / d)`.
pub open spec fn ceil_div(n: int, d: int) -> int {
    (n + d - 1) / d
}

/// The counts and filter ticks that HPA holds after deciding for `fnid` from the rates
/// of its containers and its waiting requests (see `HpaScaleNum::scale_for_fn`).
pub open spec fn hpa_decide(
    counts: Map<FnId, usize>,
    ticks: Map<FnId, usize>,
    target: u64,
    tol: u64,
    fnid: FnId,
    rates: Seq<u64>,
    unsche_req_cnt: usize,
) -> (Map<FnId, usize>, Map<FnId, usize>) {
    let cnt = rates.len() as int;
    let sum = rate_sum(rates);
    let skip = cnt > 0 && in_band(sum, cnt, target as int, tol as int);
    let q = if cnt == 0 { 0 } else { ceil_div(sum, cnt * target) };
    let raw = if q > usize::MAX { usize::MAX as int } else { q };
    let desired = if unsche_req_cnt > 0 && raw < 1 { 1 } else { raw };
    if skip {
        (counts, ticks)
    } else {
        (
            counts.insert(fnid, filter_result(ticks, fnid, desired as usize, cnt as usize)),
            ticks.insert(fnid, filter_ticks(ticks, fnid, desired as usize, cnt as usize)),
        )
    }
}

/// The HPA scale-number policy. Its target names a CPU rate but is held against the
/// memory use rate of the nodes the containers run on.
pub struct HpaScaleNum {
    /// Target use rate, in units of `SCALE` (0.5).
    pub target: u64,
    /// Tolerance around a ratio of 1, in units of `SCALE` (0.1).
    pub target_tolerance: u64,
    pub scale_down_policy: CarefulScaleDownFilter,
    pub fn_sche_container_count: HashMap<FnId, usize>,
}

impl HpaScaleNum {
    pub open spec fn wf(&self) -> bool {
        0 < self.target <= SCALE && self.target_tolerance <= SCALE
    }

    pub fn new() -> (r: HpaScaleNum)
        ensures
            r.wf(),
            r.target == SCALE / 2,
            r.target_tolerance == SCALE / 10,
            r.fn_sche_container_count@ == Map::<FnId, usize>::empty(),
            r.scale_down_policy.down_ticks@ == Map::<FnId, usize>::empty(),
    {
        HpaScaleNum {
            target: SCALE / 2,
            target_tolerance: SCALE / 10,
            scale_down_policy: CarefulScaleDownFilter::new(),
            fn_sche_container_count: HashMap::new(),
        }
    }

    /// The container count last decided for `fnid`, zero before any.
    pub fn fn_available_count(&self, fnid: FnId) -> (r: usize)
        ensures
            self.fn_sche_container_count@.contains_key(fnid) ==> r == self.fn_sche_container_count@[fnid],
            !self.fn_sche_container_count@.contains_key(fnid) ==> r == 0,
    {
        match self.fn_sche_container_count.get(&fnid) {
            Some(c) => *c,
            None => 0,
        }
    }

    /// Decides the container count of `fnid` from the memory use rates (in units of
    /// `SCALE`) of the nodes that host its containers, one per container, and from how
    /// many of its requests wait unscheduled. Within the tolerance band nothing changes;
    /// otherwise the desired count is `ceil(mean rate / target)` (saturating), at least one while
    /// requests wait, passed through the careful scale-down filter.
    pub fn scale_for_fn(&mut self, fnid: FnId, mem_use_rates: &Vec<u64>, unsche_req_cnt: usize) -> (r: (u64, bool))
        requires
            old(self).wf(),
            mem_use_rates@.len() <= u32::MAX,
        ensures
            final(self).wf(),
            r == (0u64, false),
            final(self).target == old(self).target,
            final(self).target_tolerance == old(self).target_tolerance,
            (final(self).fn_sche_container_count@, final(self).scale_down_policy.down_ticks@) == hpa_decide(
                old(self).fn_sche_container_count@,
                old(self).scale_down_policy.down_ticks@,
                old(self).target,
                old(self).target_tolerance,
                fnid,
                mem_use_rates@,
                unsche_req_cnt,
            ),
            ({
                let cnt = mem_use_rates@.len() as int;
                let sum = rate_sum(mem_use_rates@);
                let skip = cnt > 0 && in_band(sum, cnt, old(self).target as int, old(self).target_tolerance as int);
                let q = if cnt == 0 { 0 } else { ceil_div(sum, cnt * old(self).target) };
                let raw = if q > usize::MAX { usize::MAX as int } else { q };
                let desired = if unsche_req_cnt > 0 && raw < 1 { 1 } else { raw };
                &&& skip ==> final(self).fn_sche_container_count@ == old(self).fn_sche_container_count@
                    && final(self).scale_down_policy.down_ticks@ == old(self).scale_down_policy.down_ticks@
                &&& !skip ==> final(self).fn_sche_container_count@ == old(self).fn_sche_container_count@.insert(
                    fnid,
                    filter_result(old(self).scale_down_policy.down_ticks@, fnid, desired as usize, cnt as usize),
                )
                &&& !skip ==> final(self).scale_down_policy.down_ticks@ == old(self).scale_down_policy.down_ticks@.insert(
                    fnid,
                    filter_ticks(old(self).scale_down_policy.down_ticks@, fnid, desired as usize, cnt as usize),
                )
            }),
    {
        let cnt = mem_use_rates.len();
        let mut sum: u128 = 0;
        let mut i: usize = 0;
        while i < cnt
            invariant
                cnt == mem_use_rates@.len(),
                cnt <= u32::MAX,
                i <= cnt,
                sum == rate_sum(mem_use_rates@.take(i as int)),
                sum <= i * 0x1_0000_0000_0000_0000,
            decreases cnt - i,
        {
            assert(mem_use_rates@.take(i as int + 1).drop_last() =~= mem_use_rates@.take(i as int));
            sum = sum + mem_use_rates[i] as u128;
            i = i + 1;
        }
        assert(mem_use_rates@.take(cnt as int) =~= mem_use_rates@);
        let mut desired: usize = 0;
        if cnt != 0 {
            proof {
                assert((cnt as int) * (self.target as int) <= 0x1_0000_0000 * 0x2_0000) by (nonlinear_arith)
                    requires cnt <= u32::MAX, self.target <= SCALE;
            }
            let per = (cnt as u128) * (self.target as u128);
            proof {
                assert(((SCALE - self.target_tolerance) as int) * per <= 0x2_0000 * 0x2_0000_0000_0000) by (nonlinear_arith)
                    requires self.target_tolerance <= SCALE, 0 <= per <= 0x2_0000_0000_0000;
                assert(((SCALE + self.target_tolerance) as int) * per <= 0x4_0000 * 0x2_0000_0000_0000) by (nonlinear_arith)
                    requires self.target_tolerance <= SCALE, 0 <= per <= 0x2_0000_0000_0000;
                assert(sum <= 0x1_0000_0000 * 0x1_0000_0000_0000_0000) by (nonlinear_arith)
                    requires sum <= cnt * 0x1_0000_0000_0000_0000, cnt <= u32::MAX;
            }
            let lo = ((SCALE - self.target_tolerance) as u128) * per;
            let hi = ((SCALE + self.target_tolerance) as u128) * per;
            proof {
                assert((SCALE as int) * sum <= 0x2_0000 * (0x1_0000_0000 * 0x1_0000_0000_0000_0000)) by (nonlinear_arith)
                    requires 0 <= sum <= 0x1_0000_0000 * 0x1_0000_0000_0000_0000;
            }
            let scaled = (SCALE as u128) * sum;
            if lo <= scaled && scaled <= hi {
                proof {
                    assert((SCALE - self.target_tolerance) * (cnt as int) * (self.target as int)
                        == ((SCALE - self.target_tolerance) as int) * ((cnt as int) * (self.target as int))) by (nonlinear_arith);
                    assert((SCALE + self.target_tolerance) * (cnt as int) * (self.target as int)
                        == ((SCALE + self.target_tolerance) as int) * ((cnt as int) * (self.target as int))) by (nonlinear_arith);
                }
                return (0, false);
            }
            proof {
                assert((SCALE - self.target_tolerance) * (cnt as int) * (self.target as int)
                    == ((SCALE - self.target_tolerance) as int) * ((cnt as int) * (self.target as int))) by (nonlinear_arith);
                assert((SCALE + self.target_tolerance) * (cnt as int) * (self.target as int)
                    == ((SCALE + self.target_tolerance) as int) * ((cnt as int) * (self.target as int))) by (nonlinear_arith);
                assert(per >= 1) by (nonlinear_arith)
                    requires cnt >= 1, self.target >= 1, per == (cnt as int) * (self.target as int);
                assert((sum as int + per as int - 1) / (per as int) <= sum as int + per as int) by (nonlinear_arith)
                    requires per as int >= 1, sum as int >= 0;
            }
            let q = (sum + per - 1) / per;
            desired = if q > usize::MAX as u128 { usize::MAX } else { q as usize };
        }
        if unsche_req_cnt > 0 && desired < 1 {
            desired = 1;
        }
        let c = self.scale_down_policy.filter_desired(fnid, desired, cnt);
        self.fn_sche_container_count.insert(fnid, c);
        (0, false)
    }
}

pub open spec fn rate_sum(s: Seq<u64>) -> int
    decreases s.len(),
{
    if s.len() == 0 {
        0
    } else {
        rate_sum(s.drop_last()) + s.last()
    }
}

} // verus!
