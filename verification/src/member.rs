//! The member record: the one row of mutable numeric state per platform
//! user, and its core consistency condition tying `xp` to `level`.

use vstd::prelude::*;

use crate::curve::{spec_xp_at_level, xp_at_level, LEVEL_CAP};

verus! {

/// Balance every member starts with, in minor units (cents).
pub const DEFAULT_BALANCE: i64 = 100_000_000_000;

/// One platform user's persistent numeric state.
pub struct Member {
    /// Platform-issued identifier (decimal form of a 64-bit snowflake).
    pub id: String,
    /// Currency in minor units; transfers check before debiting, but the
    /// value is not otherwise constrained at rest.
    pub balance: i64,
    /// Cumulative experience.
    pub xp: i32,
    /// Current level, kept consistent with `xp` by the transition code.
    pub level: i32,
    /// Elevated-permission flag; positive means admin.
    pub permissions: i32,
}

impl Member {
    /// The core consistency invariant of the XP subsystem: the member sits
    /// exactly on the level its XP earns, or at the cap once past it.
    pub open spec fn well_leveled(&self) -> bool {
        &&& 0 <= self.level <= LEVEL_CAP
        &&& spec_xp_at_level(self.level as int) <= self.xp as int
        &&& (self.level == LEVEL_CAP || (self.xp as int) < spec_xp_at_level(self.level + 1))
    }

    /// A fresh record, created lazily on first reference, with every field
    /// at its default.
    pub fn new(id: String) -> (r: Member)
        ensures
            r.id@ == id@,
            r.balance == DEFAULT_BALANCE,
            r.xp == 0,
            r.level == 0,
            r.permissions == 0,
            r.well_leveled(),
    {
        Member { id, balance: DEFAULT_BALANCE, xp: 0, level: 0, permissions: 0 }
    }

    /// XP already earned inside the current level, and the cumulative XP
    /// the next level asks for; the progress line shown to users.
    pub fn progress(&self) -> (r: (i32, i32))
        requires
            self.well_leveled(),
        ensures
            r.0 == self.xp - spec_xp_at_level(self.level as int),
            r.1 == spec_xp_at_level(self.level + 1),
    {
        proof {
            crate::curve::lemma_cum_xp_bounds(LEVEL_CAP as int);
            crate::curve::lemma_xp_at_level_monotonic(self.level + 1, LEVEL_CAP as int + 1);
            crate::curve::lemma_xp_at_level_monotonic(0, self.level as int);
        }
        let into_level = self.xp - xp_at_level(self.level);
        let next = xp_at_level(self.level + 1);
        (into_level, next)
    }
}

} // verus!
