//! The economy rules: credits, pre-validated debits, and transfers on a
//! member's balance, in minor currency units.

use vstd::prelude::*;

use crate::member::Member;

verus! {

/// Amount credited to every member by the daily income job, in minor
/// units.
pub const DAILY_INCOME: i64 = 10_000_000_000;

/// Why a balance change was rejected.
#[derive(Clone, Copy, Debug, PartialEq, Eq, Structural)]
pub enum EconomyError {
    /// The balance is smaller than the amount to take from it.
    InsufficientFunds,
}

/// Add `amount` to the member's balance unconditionally; external credits
/// are not validated against the balance at rest.
pub fn credit(member: &mut Member, amount: i64)
    requires
        amount >= 0,
        old(member).balance + amount <= i64::MAX,
    ensures
        final(member).balance == old(member).balance + amount,
        final(member).id@ == old(member).id@,
        final(member).xp == old(member).xp,
        final(member).level == old(member).level,
        final(member).permissions == old(member).permissions,
{
    member.balance = member.balance + amount;
}

/// Take `amount` from the member's balance, rejected — with no state
/// change — whenever the balance does not cover it.
pub fn debit(member: &mut Member, amount: i64) -> (r: Result<(), EconomyError>)
    requires
        amount >= 0,
    ensures
        r is Err <==> amount > old(member).balance,
        r is Err ==> r == Result::<(), EconomyError>::Err(EconomyError::InsufficientFunds)
            && *final(member) == *old(member),
        r is Ok ==> final(member).balance == old(member).balance - amount,
        r is Ok ==> final(member).id@ == old(member).id@ && final(member).xp == old(member).xp
            && final(member).level == old(member).level && final(member).permissions == old(member).permissions,
{
    if amount > member.balance {
        return Err(EconomyError::InsufficientFunds);
    }
    member.balance = member.balance - amount;
    Ok(())
}

/// Move `amount` from one member to another: rejected — with no state
/// change on either side — whenever the sender's balance does not cover
/// it.
pub fn transfer_between(from: &mut Member, to: &mut Member, amount: i64) -> (r: Result<
    (),
    EconomyError,
>)
    requires
        amount >= 0,
        old(to).balance + amount <= i64::MAX,
    ensures
        r is Err <==> amount > old(from).balance,
        r is Err ==> r == Result::<(), EconomyError>::Err(EconomyError::InsufficientFunds)
            && *final(from) == *old(from) && *final(to) == *old(to),
        r is Ok ==> final(from).balance == old(from).balance - amount && final(to).balance == old(to).balance + amount,
        r is Ok ==> final(from).id@ == old(from).id@ && final(from).xp == old(from).xp && final(from).level == old(from).level && final(from).permissions == old(from).permissions,
        r is Ok ==> final(to).id@ == old(to).id@ && final(to).xp == old(to).xp && final(to).level
            == old(to).level && final(to).permissions == old(to).permissions,
{
    if amount > from.balance {
        return Err(EconomyError::InsufficientFunds);
    }
    from.balance = from.balance - amount;
    to.balance = to.balance + amount;
    Ok(())
}

} // verus!
