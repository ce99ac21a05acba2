//! The level-transition state machine: converting an XP delta into zero or
//! more level crossings, and the direct level overrides used by admin
//! commands.
//!
//! This module performs no I/O and cannot fail; validating a removal
//! against the member's current XP or level is the caller's duty, and the
//! `remove_*` entry points do exactly that check.

use vstd::prelude::*;

use crate::curve::{
    cum_xp, lemma_cum_xp_bounds, lemma_xp_at_level_monotonic, lemma_xp_to_level_bounds,
    spec_xp_at_level, xp_at_level, LEVEL_CAP,
};
use crate::eligibility::{lemma_alnum_count_bounds, spec_xp_from_message, xp_from_message};
use crate::member::Member;

verus! {

/// Why an XP or level removal was rejected.
#[derive(Clone, Copy, Debug, PartialEq, Eq, Structural)]
pub enum XpError {
    /// The member holds less XP than the amount to remove.
    InsufficientXp,
    /// The member holds fewer levels than the amount to remove.
    InsufficientLevels,
}

/// Two well-leveled members with the same XP sit on the same level: the
/// consistency invariant pins the level uniquely.
pub proof fn lemma_level_determined(a: Member, b: Member)
    requires
        a.well_leveled(),
        b.well_leveled(),
        a.xp == b.xp,
    ensures
        a.level == b.level,
{
    if a.level < b.level {
        lemma_xp_at_level_monotonic(a.level + 1, b.level as int);
        assert(false);
    }
    if b.level < a.level {
        lemma_xp_at_level_monotonic(b.level + 1, a.level as int);
        assert(false);
    }
}

/// Apply an XP delta and walk the member's level to match: the transition
/// of the state machine.  Returns whether any level changed and the
/// ordered list of crossed levels — ascending levels entered on a gain,
/// descending levels vacated on a loss — for role synchronisation.
pub fn apply_delta(member: &mut Member, delta: i32) -> (r: (bool, Vec<i32>))
    requires
        old(member).well_leveled(),
        0 <= old(member).xp + delta <= i32::MAX,
    ensures
        final(member).xp == old(member).xp + delta,
        final(member).id@ == old(member).id@,
        final(member).balance == old(member).balance,
        final(member).permissions == old(member).permissions,
        final(member).well_leveled(),
        delta >= 0 ==> final(member).level >= old(member).level,
        delta <= 0 ==> final(member).level <= old(member).level,
        delta == 0 ==> final(member).level == old(member).level,
        r.0 == (final(member).level != old(member).level),
        final(member).level >= old(member).level ==> r.1@.len() == final(member).level
            - old(member).level && (forall|i: int|
            0 <= i < r.1@.len() ==> #[trigger] r.1@[i] == old(member).level + 1 + i),
        final(member).level < old(member).level ==> r.1@.len() == old(member).level
            - final(member).level && (forall|i: int|
            0 <= i < r.1@.len() ==> #[trigger] r.1@[i] == old(member).level - i),
{
    let ghost start = *old(member);
    member.xp = member.xp + delta;
    let mut crossed: Vec<i32> = Vec::new();

    // Level-up crossings: climb while the next threshold is met.
    while member.level < LEVEL_CAP && member.xp >= xp_at_level(member.level + 1)
        invariant
            start.level <= member.level <= LEVEL_CAP,
            member.xp == start.xp + delta,
            member.id@ == start.id@,
            member.balance == start.balance,
            member.permissions == start.permissions,
            member.level > start.level ==> spec_xp_at_level(member.level as int)
                <= member.xp as int,
            member.level == start.level ==> spec_xp_at_level(member.level as int)
                <= start.xp as int,
            crossed@.len() == member.level - start.level,
            forall|i: int|
                0 <= i < crossed@.len() ==> #[trigger] crossed@[i] == start.level + 1 + i,
        decreases LEVEL_CAP - member.level,
    {
        member.level = member.level + 1;
        crossed.push(member.level);
    }
    let ghost mid = member.level;
    proof {
        // If the climb moved at all, the member now sits at or above its
        // level's threshold, so the descent below cannot run.
        assert(mid > start.level ==> spec_xp_at_level(mid as int) <= member.xp as int);
        // The climb's exit condition, stated over values the descent
        // leaves untouched.
        assert(mid == LEVEL_CAP || (start.xp + delta) < spec_xp_at_level(mid as int + 1));
    }

    // Level-down crossings: descend while below the current threshold.
    while member.level > 0 && member.xp < xp_at_level(member.level)
        invariant
            0 <= member.level <= mid <= LEVEL_CAP,
            member.xp == start.xp + delta,
            member.id@ == start.id@,
            member.balance == start.balance,
            member.permissions == start.permissions,
            start.level <= mid,
            mid > start.level ==> member.level == mid && spec_xp_at_level(mid as int)
                <= member.xp as int,
            mid == start.level ==> crossed@.len() == start.level - member.level && (forall|i: int|
                0 <= i < crossed@.len() ==> #[trigger] crossed@[i] == start.level - i),
            mid > start.level ==> crossed@.len() == mid - start.level && (forall|i: int|
                0 <= i < crossed@.len() ==> #[trigger] crossed@[i] == start.level + 1 + i),
            member.level < mid ==> (member.xp as int) < spec_xp_at_level(member.level + 1),
        decreases member.level,
    {
        crossed.push(member.level);
        member.level = member.level - 1;
    }

    proof {
        // XP only moves the level in its own direction: a descent below
        // the starting level contradicts a non-negative delta, and a climb
        // above it contradicts a non-positive one.
        if delta >= 0 && member.level < start.level {
            lemma_xp_at_level_monotonic(member.level + 1, start.level as int);
            assert(false);
        }
        if delta <= 0 && member.level > start.level {
            lemma_xp_at_level_monotonic(start.level + 1, mid as int);
            assert(false);
        }
    }
    let changed = crossed.len() > 0;
    (changed, crossed)
}

/// Set the member's level directly and snap its XP to exactly that
/// level's threshold, discarding fractional progress.
pub fn set_level(member: &mut Member, new_level: i32)
    requires
        new_level >= 0,
    ensures
        final(member).level == new_level,
        final(member).xp == spec_xp_at_level(new_level as int),
        final(member).id@ == old(member).id@,
        final(member).balance == old(member).balance,
        final(member).permissions == old(member).permissions,
        new_level <= LEVEL_CAP ==> final(member).well_leveled(),
{
    proof {
        lemma_cum_xp_bounds(LEVEL_CAP as int);
        lemma_xp_at_level_monotonic(0, new_level as int);
        if new_level <= LEVEL_CAP {
            lemma_xp_at_level_monotonic(new_level as int, LEVEL_CAP as int);
        }
        assert(spec_xp_at_level(new_level as int) <= cum_xp(LEVEL_CAP as int));
        if new_level < LEVEL_CAP {
            lemma_xp_to_level_bounds(new_level + 1);
        }
    }
    member.level = new_level;
    member.xp = xp_at_level(new_level);
}

/// Raise the member's level by `count` and, when `count > 0`, snap its XP
/// to the new level's threshold.
pub fn add_levels(member: &mut Member, count: i32)
    requires
        old(member).level >= 0,
        count >= 0,
        old(member).level + count <= i32::MAX,
    ensures
        final(member).level == old(member).level + count,
        final(member).id@ == old(member).id@,
        final(member).balance == old(member).balance,
        final(member).permissions == old(member).permissions,
        count > 0 ==> final(member).xp == spec_xp_at_level(old(member).level + count),
        count == 0 ==> final(member).xp == old(member).xp,
        count > 0 && old(member).level + count <= LEVEL_CAP ==> final(member).well_leveled(),
{
    if count > 0 {
        set_level(member, member.level + count);
    }
}

/// Lower the member's level by `count`, rejecting removals past level 0;
/// on success with `count > 0` the XP snaps to the new level's threshold.
pub fn remove_levels(member: &mut Member, count: i32) -> (r: Result<(), XpError>)
    requires
        count >= 0,
    ensures
        r is Err <==> count > old(member).level,
        r is Err ==> r == Result::<(), XpError>::Err(XpError::InsufficientLevels) && *final(member)
            == *old(member),
        r is Ok ==> final(member).level == old(member).level - count,
        r is Ok ==> final(member).id@ == old(member).id@ && final(member).balance
            == old(member).balance && final(member).permissions == old(member).permissions,
        r is Ok && count > 0 ==> final(member).xp == spec_xp_at_level(old(member).level - count),
        r is Ok && count == 0 ==> final(member).xp == old(member).xp,
        r is Ok && count > 0 && old(member).level <= LEVEL_CAP ==> final(member).well_leveled(),
{
    if member.level < count {
        return Err(XpError::InsufficientLevels);
    }
    if count > 0 {
        set_level(member, member.level - count);
    }
    Ok(())
}

/// Remove `amount` XP, rejecting removals past zero; on success the level
/// walks down through every vacated threshold, as `apply_delta` does.
pub fn remove_xp(member: &mut Member, amount: i32) -> (r: Result<(bool, Vec<i32>), XpError>)
    requires
        old(member).well_leveled(),
        amount >= 0,
    ensures
        r is Err <==> amount > old(member).xp,
        r is Err ==> r == Result::<(bool, Vec<i32>), XpError>::Err(XpError::InsufficientXp)
            && *final(member) == *old(member),
        r is Ok ==> {
            &&& final(member).xp == old(member).xp - amount
            &&& final(member).id@ == old(member).id@
            &&& final(member).balance == old(member).balance
            &&& final(member).permissions == old(member).permissions
            &&& final(member).well_leveled()
            &&& final(member).level <= old(member).level
            &&& r->Ok_0.0 == (final(member).level != old(member).level)
            &&& r->Ok_0.1@.len() == old(member).level - final(member).level
            &&& (forall|i: int|
                0 <= i < r->Ok_0.1@.len() ==> #[trigger] r->Ok_0.1@[i] == old(member).level - i)
        },
{
    if member.xp < amount {
        return Err(XpError::InsufficientXp);
    }
    let r = apply_delta(member, -amount);
    Ok(r)
}

/// What one eligible message did to a member: the XP it awarded and the
/// level crossings that caused, in ascending order, for role
/// synchronisation.
pub struct MessageAward {
    /// XP the message awarded.
    pub xp: i32,
    /// Whether any level was gained.
    pub leveled_up: bool,
    /// The levels entered, ascending.
    pub crossed: Vec<i32>,
}

/// The message-event path: compute the message's XP award and apply it.
/// Returns `None`, changing nothing, only when the award would push the
/// member's XP past the machine limit.
pub fn award_message_xp(member: &mut Member, message: &str) -> (r: Option<MessageAward>)
    requires
        old(member).well_leveled(),
        message@.len() < i32::MAX,
    ensures
        r is None <==> old(member).xp + spec_xp_from_message(message@) > i32::MAX,
        r is None ==> *final(member) == *old(member),
        r matches Some(a) ==> {
            &&& a.xp == spec_xp_from_message(message@)
            &&& final(member).xp == old(member).xp + a.xp
            &&& final(member).id@ == old(member).id@
            &&& final(member).balance == old(member).balance
            &&& final(member).permissions == old(member).permissions
            &&& final(member).well_leveled()
            &&& final(member).level >= old(member).level
            &&& a.leveled_up == (final(member).level != old(member).level)
            &&& a.crossed@.len() == final(member).level - old(member).level
            &&& (forall|i: int|
                0 <= i < a.crossed@.len() ==> #[trigger] a.crossed@[i] == old(member).level + 1
                    + i)
        },
{
    proof {
        lemma_alnum_count_bounds(message@);
        lemma_xp_at_level_monotonic(0, old(member).level as int);
    }
    let xp = xp_from_message(message);
    if member.xp > i32::MAX - xp {
        return None;
    }
    let (leveled_up, crossed) = apply_delta(member, xp);
    Some(MessageAward { xp, leveled_up, crossed })
}

} // verus!
