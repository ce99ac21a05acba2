//! The XP curve: how much experience each level costs, and the cumulative
//! experience needed to reach a level from zero.
//!
//! The per-level cost is quadratic, `5*(level-1)^2 + 50*(level-1) + 100`,
//! and saturates at `LEVEL_CAP`: levels past the cap cost exactly what the
//! cap costs, and the cumulative curve stops summing there.

use vstd::prelude::*;

verus! {

/// The highest level the curve distinguishes; beyond it both curves saturate.
pub const LEVEL_CAP: i32 = 100;

/// Largest per-level cost, reached at `LEVEL_CAP`.
pub const MAX_STEP_XP: i32 = 54055;

/// XP required to advance from `level - 1` to `level`; zero at or below
/// level 0, saturated above `LEVEL_CAP`.
pub open spec fn spec_xp_to_level(level: int) -> int {
    if level <= 0 {
        0
    } else {
        let l = (if level > LEVEL_CAP { LEVEL_CAP as int } else { level }) - 1;
        5 * l * l + 50 * l + 100
    }
}

/// Cumulative XP: the sum of `spec_xp_to_level(1..=level)`.
pub open spec fn cum_xp(level: int) -> int
    decreases level,
{
    if level <= 0 {
        0
    } else {
        cum_xp(level - 1) + spec_xp_to_level(level)
    }
}

/// Cumulative XP needed to reach `level` from zero, saturated at the cap.
pub open spec fn spec_xp_at_level(level: int) -> int {
    if level > LEVEL_CAP {
        cum_xp(LEVEL_CAP as int)
    } else {
        cum_xp(level)
    }
}

/// Every level on the curve costs between 100 and `MAX_STEP_XP` XP.
pub proof fn lemma_xp_to_level_bounds(level: int)
    requires
        1 <= level,
    ensures
        100 <= spec_xp_to_level(level) <= MAX_STEP_XP,
{
    let l = (if level > LEVEL_CAP { LEVEL_CAP as int } else { level }) - 1;
    assert(0 <= l <= 99);
    assert(0 <= 5 * l * l <= 49005 && 0 <= 50 * l <= 4950) by (nonlinear_arith)
        requires
            0 <= l <= 99,
    ;
}

/// The cumulative curve is non-negative and at most `level * MAX_STEP_XP`.
pub proof fn lemma_cum_xp_bounds(level: int)
    requires
        0 <= level <= LEVEL_CAP,
    ensures
        0 <= cum_xp(level) <= level * MAX_STEP_XP,
    decreases level,
{
    if level > 0 {
        lemma_cum_xp_bounds(level - 1);
        lemma_xp_to_level_bounds(level);
    }
}

/// The cumulative curve never decreases as the level grows.
pub proof fn lemma_cum_xp_monotonic(a: int, b: int)
    requires
        a <= b,
    ensures
        cum_xp(a) <= cum_xp(b),
    decreases b - a,
{
    if a < b {
        lemma_cum_xp_monotonic(a, b - 1);
        if b > 0 {
            lemma_xp_to_level_bounds(b);
        }
    }
}

/// Cumulative cost strictly increases with each level up to the cap:
/// for all `1 <= level <= LEVEL_CAP`,
/// `spec_xp_at_level(level) > spec_xp_at_level(level - 1)`.
pub proof fn lemma_xp_at_level_strictly_increases(level: int)
    requires
        1 <= level <= LEVEL_CAP,
    ensures
        spec_xp_at_level(level) > spec_xp_at_level(level - 1),
{
    lemma_xp_to_level_bounds(level);
}

/// The saturated cumulative curve never decreases either.
pub proof fn lemma_xp_at_level_monotonic(a: int, b: int)
    requires
        a <= b,
    ensures
        spec_xp_at_level(a) <= spec_xp_at_level(b),
{
    if a > LEVEL_CAP {
        // both saturate
    } else if b > LEVEL_CAP {
        lemma_cum_xp_monotonic(a, LEVEL_CAP as int);
    } else {
        lemma_cum_xp_monotonic(a, b);
    }
}

/// XP required to advance from `level - 1` to `level`.
pub fn xp_to_level(level: i32) -> (r: i32)
    ensures
        r == spec_xp_to_level(level as int),
{
    if level <= 0 {
        return 0;
    }
    let l: i32 = if level > LEVEL_CAP {
        LEVEL_CAP - 1
    } else {
        level - 1
    };
    proof {
        assert(0 <= 5 * l * l <= 49005 && 0 <= 50 * l <= 4950) by (nonlinear_arith)
            requires
                0 <= l <= 99,
        ;
    }
    5 * l * l + 50 * l + 100
}

/// Cumulative XP needed to reach `level` from zero.
pub fn xp_at_level(level: i32) -> (r: i32)
    ensures
        r == spec_xp_at_level(level as int),
{
    if level <= 0 {
        return 0;
    }
    let cap: i32 = if level > LEVEL_CAP {
        LEVEL_CAP
    } else {
        level
    };
    let mut sum: i32 = 0;
    let mut i: i32 = 0;
    while i < cap
        invariant
            0 <= i <= cap <= LEVEL_CAP,
            sum == cum_xp(i as int),
            0 <= sum <= i * MAX_STEP_XP,
        decreases cap - i,
    {
        i = i + 1;
        proof {
            lemma_xp_to_level_bounds(i as int);
        }
        sum = sum + xp_to_level(i);
    }
    sum
}

/// Both curves, precomputed for every level up to the cap, so that the
/// per-event paths read a table instead of re-summing the series.
pub struct XpCurve {
    pub to_level: Vec<i32>,
    pub at_level: Vec<i32>,
}

impl XpCurve {
    /// Both tables hold exactly the curve values for levels `0..=LEVEL_CAP`.
    pub open spec fn wf(&self) -> bool {
        &&& self.to_level@.len() == LEVEL_CAP + 1
        &&& self.at_level@.len() == LEVEL_CAP + 1
        &&& forall|i: int|
            0 <= i <= LEVEL_CAP ==> #[trigger] self.to_level@[i] == spec_xp_to_level(i)
        &&& forall|i: int|
            0 <= i <= LEVEL_CAP ==> #[trigger] self.at_level@[i] == spec_xp_at_level(i)
    }

    /// Precompute both tables.
    pub fn new() -> (r: XpCurve)
        ensures
            r.wf(),
    {
        let mut to_level: Vec<i32> = Vec::new();
        let mut at_level: Vec<i32> = Vec::new();
        let mut i: i32 = 0;
        while i <= LEVEL_CAP
            invariant
                0 <= i <= LEVEL_CAP + 1,
                to_level@.len() == i,
                at_level@.len() == i,
                forall|j: int| 0 <= j < i ==> #[trigger] to_level@[j] == spec_xp_to_level(j),
                forall|j: int| 0 <= j < i ==> #[trigger] at_level@[j] == spec_xp_at_level(j),
            decreases LEVEL_CAP + 1 - i,
        {
            to_level.push(xp_to_level(i));
            at_level.push(xp_at_level(i));
            i = i + 1;
        }
        XpCurve { to_level, at_level }
    }

    /// Table-backed reading of `spec_xp_to_level`.
    pub fn xp_to_level(&self, level: i32) -> (r: i32)
        requires
            self.wf(),
        ensures
            r == spec_xp_to_level(level as int),
    {
        if level <= 0 {
            0
        } else if level > LEVEL_CAP {
            self.to_level[LEVEL_CAP as usize]
        } else {
            self.to_level[level as usize]
        }
    }

    /// Table-backed reading of `spec_xp_at_level`.
    pub fn xp_at_level(&self, level: i32) -> (r: i32)
        requires
            self.wf(),
        ensures
            r == spec_xp_at_level(level as int),
    {
        if level <= 0 {
            0
        } else if level > LEVEL_CAP {
            self.at_level[LEVEL_CAP as usize]
        } else {
            self.at_level[level as usize]
        }
    }
}

} // verus!
