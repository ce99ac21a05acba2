//! Permission rules: the fixed owner allow-list, the admin flag, and the
//! admin grant/revoke transitions.

use vstd::prelude::*;

use crate::member::Member;
use crate::text::eq_str;

verus! {

/// Why an admin change was rejected.
#[derive(Clone, Copy, Debug, PartialEq, Eq, Structural)]
pub enum AdminError {
    /// The member is already an admin.
    AlreadyAdmin,
    /// The member is not an admin.
    NotAdmin,
}

/// The fixed owner identifiers, which bypass the permission flag.
pub open spec fn spec_is_owner(id: Seq<char>) -> bool {
    id == "1136467589879582780"@ || id == "258298021266063360"@
}

/// Whether `id` belongs to one of the bot's owners.
pub fn is_owner(id: &str) -> (r: bool)
    ensures
        r == spec_is_owner(id@),
{
    eq_str(id, "1136467589879582780") || eq_str(id, "258298021266063360")
}

/// Whether the member holds elevated permissions.
pub open spec fn spec_is_admin(m: Member) -> bool {
    m.permissions > 0 || spec_is_owner(m.id@)
}

/// Whether the member is an admin: a positive permission flag, or an
/// owner identifier.
pub fn is_admin(member: &Member) -> (r: bool)
    ensures
        r == spec_is_admin(*member),
{
    member.permissions > 0 || is_owner(member.id.as_str())
}

/// Set the member's admin flag; rejected when it is already set.
pub fn grant_admin(member: &mut Member) -> (r: Result<(), AdminError>)
    ensures
        r is Err <==> old(member).permissions == 1,
        r is Err ==> r == Result::<(), AdminError>::Err(AdminError::AlreadyAdmin)
            && *final(member) == *old(member),
        r is Ok ==> final(member).permissions == 1,
        r is Ok ==> final(member).id@ == old(member).id@ && final(member).balance
            == old(member).balance && final(member).xp == old(member).xp && final(member).level
            == old(member).level,
{
    if member.permissions == 1 {
        return Err(AdminError::AlreadyAdmin);
    }
    member.permissions = 1;
    Ok(())
}

/// Clear the member's admin flag; rejected when it is already clear.
pub fn revoke_admin(member: &mut Member) -> (r: Result<(), AdminError>)
    ensures
        r is Err <==> old(member).permissions == 0,
        r is Err ==> r == Result::<(), AdminError>::Err(AdminError::NotAdmin) && *final(member)
            == *old(member),
        r is Ok ==> final(member).permissions == 0,
        r is Ok ==> final(member).id@ == old(member).id@ && final(member).balance
            == old(member).balance && final(member).xp == old(member).xp && final(member).level
            == old(member).level,
{
    if member.permissions == 0 {
        return Err(AdminError::NotAdmin);
    }
    member.permissions = 0;
    Ok(())
}

/// Identifiers of the members whose permission flag is set, in record
/// order.
pub open spec fn admin_ids(members: Seq<Member>) -> Seq<Seq<char>>
    decreases members.len(),
{
    if members.len() == 0 {
        Seq::empty()
    } else if members.last().permissions >= 1 {
        admin_ids(members.drop_last()).push(members.last().id@)
    } else {
        admin_ids(members.drop_last())
    }
}

/// The members listed by the admin roster: exactly those with the flag
/// set, in record order.
pub fn admins_of(members: &Vec<Member>) -> (r: Vec<String>)
    ensures
        r@.map_values(|s: String| s@) == admin_ids(members@),
{
    let mut out: Vec<String> = Vec::new();
    let mut i: usize = 0;
    while i < members.len()
        invariant
            0 <= i <= members@.len(),
            out@.map_values(|s: String| s@) == admin_ids(members@.subrange(0, i as int)),
        decreases members@.len() - i,
    {
        proof {
            assert(members@.subrange(0, i + 1).drop_last() =~= members@.subrange(0, i as int));
            assert(members@.subrange(0, i + 1).last() == members@[i as int]);
        }
        if members[i].permissions >= 1 {
            out.push(members[i].id.clone());
            proof {
                assert(out@.map_values(|s: String| s@) =~= out@.drop_last().map_values(
                    |s: String| s@,
                ).push(out@.last()@));
            }
        }
        i = i + 1;
    }
    proof {
        assert(members@.subrange(0, members@.len() as int) =~= members@);
    }
    out
}

} // verus!
