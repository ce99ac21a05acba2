//! Leaderboard ranking: a member's rank is one more than the number of
//! members holding strictly more XP, so ties share a rank.

use vstd::prelude::*;

use crate::member::Member;

verus! {

/// How many of `members` hold strictly more than `xp` experience.
pub open spec fn count_with_more_xp(members: Seq<Member>, xp: int) -> int
    decreases members.len(),
{
    if members.len() == 0 {
        0
    } else {
        count_with_more_xp(members.drop_last(), xp) + if members.last().xp > xp {
            1int
        } else {
            0int
        }
    }
}

/// The count never exceeds the number of members.
pub proof fn lemma_count_with_more_xp_bounds(members: Seq<Member>, xp: int)
    ensures
        0 <= count_with_more_xp(members, xp) <= members.len(),
    decreases members.len(),
{
    if members.len() > 0 {
        lemma_count_with_more_xp_bounds(members.drop_last(), xp);
    }
}

/// Leaderboard rank of a member holding `xp` experience among `members`:
/// the count of members strictly above, plus one; equal scores do not
/// raise each other's rank.
pub fn rank_of(members: &Vec<Member>, xp: i32) -> (r: usize)
    requires
        members@.len() < usize::MAX,
    ensures
        r == count_with_more_xp(members@, xp as int) + 1,
{
    proof {
        lemma_count_with_more_xp_bounds(members@, xp as int);
    }
    let mut count: usize = 0;
    let mut i: usize = 0;
    while i < members.len()
        invariant
            members@.len() < usize::MAX,
            0 <= i <= members@.len(),
            0 <= count <= i,
            count == count_with_more_xp(members@.subrange(0, i as int), xp as int),
        decreases members@.len() - i,
    {
        proof {
            assert(members@.subrange(0, i + 1).drop_last() =~= members@.subrange(0, i as int));
            assert(members@.subrange(0, i + 1).last() == members@[i as int]);
        }
        if members[i].xp > xp {
            count = count + 1;
        }
        i = i + 1;
    }
    proof {
        assert(members@.subrange(0, members@.len() as int) =~= members@);
    }
    count + 1
}

} // verus!
