//! Level-bound roles and role-synchronisation planning: which roles a
//! level grants, what a transition's crossings ask of the platform, and
//! who a retroactive bulk sync touches.

use vstd::prelude::*;

use crate::member::Member;
use crate::text::eq_str;

verus! {

/// A role granted from a minimum level on.
pub struct XpRole {
    /// Platform role identifier.
    pub id: String,
    /// Level at which the role is granted; always at least 1.
    pub level: i32,
}

/// Why an XP-role registration change was rejected.
#[derive(Clone, Copy, Debug, PartialEq, Eq, Structural)]
pub enum RoleError {
    /// The role is already registered.
    AlreadyRegistered,
    /// The role is not registered.
    NotRegistered,
}

/// Level bound to `id` among `roles`, searching from the back; `None`
/// when absent.  With unique identifiers the direction is immaterial.
pub open spec fn spec_level_of(roles: Seq<XpRole>, id: Seq<char>) -> Option<int>
    decreases roles.len(),
{
    if roles.len() == 0 {
        None
    } else if roles.last().id@ == id {
        Some(roles.last().level as int)
    } else {
        spec_level_of(roles.drop_last(), id)
    }
}

/// Identifiers of the roles bound to exactly level `level`, in record order.
pub open spec fn ids_with_level(roles: Seq<XpRole>, level: int) -> Seq<Seq<char>>
    decreases roles.len(),
{
    if roles.len() == 0 {
        Seq::empty()
    } else if roles.last().level == level {
        ids_with_level(roles.drop_last(), level).push(roles.last().id@)
    } else {
        ids_with_level(roles.drop_last(), level)
    }
}

/// A record whose identifier matches determines `spec_level_of`, as long
/// as no other record shares the identifier.
proof fn lemma_level_of_at_index(roles: Seq<XpRole>, id: Seq<char>, i: int)
    requires
        forall|p: int, q: int|
            0 <= p < q < roles.len() ==> roles[p].id@ != roles[q].id@,
        0 <= i < roles.len(),
        roles[i].id@ == id,
    ensures
        spec_level_of(roles, id) == Some(roles[i].level as int),
    decreases roles.len(),
{
    if i == roles.len() - 1 {
    } else {
        assert(roles.last().id@ != id);
        assert(roles.drop_last()[i] == roles[i]);
        lemma_level_of_at_index(roles.drop_last(), id, i);
    }
}

/// When no record matches, `spec_level_of` is `None`.
proof fn lemma_level_of_absent(roles: Seq<XpRole>, id: Seq<char>)
    requires
        forall|i: int| 0 <= i < roles.len() ==> roles[i].id@ != id,
    ensures
        spec_level_of(roles, id) is None,
    decreases roles.len(),
{
    if roles.len() > 0 {
        lemma_level_of_absent(roles.drop_last(), id);
    }
}

/// The mapping from role identifiers to the level that grants them; at
/// most one record per identifier.
pub struct XpRoleSet {
    /// Registered roles, with pairwise distinct identifiers and levels
    /// of at least 1.
    pub roles: Vec<XpRole>,
}

impl XpRoleSet {
    /// Identifiers are unique and every level is at least 1.
    pub open spec fn wf(&self) -> bool {
        &&& forall|i: int, j: int|
            0 <= i < j < self.roles@.len() ==> self.roles@[i].id@ != self.roles@[j].id@
        &&& forall|i: int| 0 <= i < self.roles@.len() ==> #[trigger] self.roles@[i].level >= 1
    }

    /// Level bound to `id`, if registered.
    pub open spec fn level_of_spec(&self, id: Seq<char>) -> Option<int> {
        spec_level_of(self.roles@, id)
    }

    /// Whether `id` is registered.
    pub open spec fn has_role(&self, id: Seq<char>) -> bool {
        self.level_of_spec(id) is Some
    }

    /// An empty mapping.
    pub fn new() -> (r: XpRoleSet)
        ensures
            r.wf(),
            r.roles@.len() == 0,
            forall|id: Seq<char>| !r.has_role(id),
    {
        XpRoleSet { roles: Vec::new() }
    }

    /// Index of the record for `id`, if any.
    fn index_of(&self, id: &str) -> (r: Option<usize>)
        requires
            self.wf(),
        ensures
            match r {
                Some(i) => i < self.roles@.len() && self.roles@[i as int].id@ == id@
                    && self.level_of_spec(id@) == Some(self.roles@[i as int].level as int),
                None => !self.has_role(id@),
            },
    {
        let mut i: usize = 0;
        while i < self.roles.len()
            invariant
                self.wf(),
                0 <= i <= self.roles@.len(),
                forall|j: int| 0 <= j < i ==> self.roles@[j].id@ != id@,
            decreases self.roles@.len() - i,
        {
            if eq_str(self.roles[i].id.as_str(), id) {
                proof {
                    lemma_level_of_at_index(self.roles@, id@, i as int);
                }
                return Some(i);
            }
            i = i + 1;
        }
        proof {
            lemma_level_of_absent(self.roles@, id@);
        }
        None
    }

    /// Level bound to the role, if it is registered.
    pub fn level_of(&self, id: &str) -> (r: Option<i32>)
        requires
            self.wf(),
        ensures
            match r {
                Some(l) => self.level_of_spec(id@) == Some(l as int),
                None => !self.has_role(id@),
            },
    {
        match self.index_of(id) {
            Some(i) => Some(self.roles[i].level),
            None => None,
        }
    }

    /// Register a role at a level; rejected when the role already is.
    pub fn add(&mut self, id: String, level: i32) -> (r: Result<(), RoleError>)
        requires
            old(self).wf(),
            level >= 1,
        ensures
            final(self).wf(),
            r is Err <==> old(self).has_role(id@),
            r is Err ==> r == Result::<(), RoleError>::Err(RoleError::AlreadyRegistered)
                && *final(self) == *old(self),
            r is Ok ==> final(self).roles@ == old(self).roles@.push(
                XpRole { id, level },
            ),
            r is Ok ==> final(self).level_of_spec(id@) == Some(level as int),
            r is Ok ==> forall|x: Seq<char>|
                x != id@ ==> final(self).level_of_spec(x) == old(self).level_of_spec(x),
    {
        let ghost before = self.roles@;
        match self.index_of(id.as_str()) {
            Some(_) => Err(RoleError::AlreadyRegistered),
            None => {
                let ghost id_view = id@;
                self.roles.push(XpRole { id, level });
                proof {
                    assert forall|p: int, q: int|
                        0 <= p < q < self.roles@.len() implies self.roles@[p].id@
                        != self.roles@[q].id@ by {
                        if q < before.len() {
                        } else {
                            lemma_level_of_at_index(before, before[p].id@, p);
                        }
                    }
                    assert(self.roles@.last().id@ == id_view);
                    assert(self.roles@.drop_last() =~= before);
                    assert forall|x: Seq<char>| x != id_view implies final(self).level_of_spec(
                        x,
                    ) == old(self).level_of_spec(x) by {
                        assert(self.roles@.last().id@ != x);
                    }
                }
                Ok(())
            },
        }
    }

    /// Deregister a role, returning the level it was bound to; rejected
    /// when the role is not registered.
    pub fn remove(&mut self, id: &str) -> (r: Result<i32, RoleError>)
        requires
            old(self).wf(),
        ensures
            final(self).wf(),
            r is Err <==> !old(self).has_role(id@),
            r is Err ==> r == Result::<i32, RoleError>::Err(RoleError::NotRegistered)
                && *final(self) == *old(self),
            r is Ok ==> old(self).level_of_spec(id@) == Some(r->Ok_0 as int),
            r is Ok ==> !final(self).has_role(id@),
            r is Ok ==> final(self).roles@.len() + 1 == old(self).roles@.len(),
            r is Ok ==> forall|x: Seq<char>|
                x != id@ ==> final(self).level_of_spec(x) == old(self).level_of_spec(x),
    {
        match self.index_of(id) {
            None => Err(RoleError::NotRegistered),
            Some(i) => {
                let ghost before = self.roles@;
                let removed = self.roles.remove(i);
                proof {
                    let after = self.roles@;
                    assert forall|p: int, q: int| 0 <= p < q < after.len() implies after[p].id@
                        != after[q].id@ by {
                        let p0 = if p < i { p } else { p + 1 };
                        let q0 = if q < i { q } else { q + 1 };
                        assert(after[p] == before[p0] && after[q] == before[q0]);
                    }
                    assert forall|j: int| 0 <= j < after.len() implies #[trigger] after[j].level
                        >= 1 by {
                        let j0 = if j < i { j } else { j + 1 };
                        assert(after[j] == before[j0]);
                    }
                    assert forall|j: int| 0 <= j < after.len() implies after[j].id@ != id@ by {
                        let j0 = if j < i { j } else { j + 1 };
                        assert(after[j] == before[j0]);
                    }
                    lemma_level_of_absent(after, id@);
                    assert forall|x: Seq<char>| x != id@ implies spec_level_of(after, x)
                        == spec_level_of(before, x) by {
                        lemma_level_of_unaffected_by_remove(before, after, i as int, x);
                    }
                }
                Ok(removed.level)
            },
        }
    }

    /// Identifiers of the roles granted at exactly `level`, in record
    /// order; what a single crossing of that level grants or revokes.
    pub fn roles_at_level(&self, level: i32) -> (r: Vec<String>)
        ensures
            r@.map_values(|s: String| s@) == ids_with_level(self.roles@, level as int),
    {
        let mut out: Vec<String> = Vec::new();
        let mut i: usize = 0;
        while i < self.roles.len()
            invariant
                0 <= i <= self.roles@.len(),
                out@.map_values(|s: String| s@) == ids_with_level(
                    self.roles@.subrange(0, i as int),
                    level as int,
                ),
            decreases self.roles@.len() - i,
        {
            let ghost prefix = self.roles@.subrange(0, i as int);
            proof {
                assert(self.roles@.subrange(0, i + 1).drop_last() =~= prefix);
                assert(self.roles@.subrange(0, i + 1).last() == self.roles@[i as int]);
            }
            if self.roles[i].level == level {
                out.push(self.roles[i].id.clone());
                proof {
                    assert(out@.map_values(|s: String| s@) =~= out@.drop_last().map_values(
                        |s: String| s@,
                    ).push(out@.last()@));
                }
            }
            i = i + 1;
        }
        proof {
            assert(self.roles@.subrange(0, self.roles@.len() as int) =~= self.roles@);
        }
        out
    }

    /// The registered roles, for listing.
    pub fn list(&self) -> (r: &Vec<XpRole>)
        ensures
            r@ == self.roles@,
    {
        &self.roles
    }
}

/// Removing index `i` leaves the level looked up for any other
/// identifier unchanged, provided identifiers are unique.
proof fn lemma_level_of_unaffected_by_remove(
    before: Seq<XpRole>,
    after: Seq<XpRole>,
    i: int,
    x: Seq<char>,
)
    requires
        forall|p: int, q: int|
            0 <= p < q < before.len() ==> before[p].id@ != before[q].id@,
        0 <= i < before.len(),
        after =~= before.remove(i),
        x != before[i].id@,
    ensures
        spec_level_of(after, x) == spec_level_of(before, x),
{
    if exists|j: int| 0 <= j < before.len() && before[j].id@ == x {
        let j = choose|j: int| 0 <= j < before.len() && before[j].id@ == x;
        lemma_level_of_at_index(before, x, j);
        let j2 = if j < i { j } else { j - 1 };
        assert(after[j2] == before[j]);
        assert forall|p: int, q: int| 0 <= p < q < after.len() implies after[p].id@
            != after[q].id@ by {
            let p0 = if p < i { p } else { p + 1 };
            let q0 = if q < i { q } else { q + 1 };
            assert(after[p] == before[p0] && after[q] == before[q0]);
        }
        lemma_level_of_at_index(after, x, j2);
    } else {
        lemma_level_of_absent(before, x);
        assert forall|j: int| 0 <= j < after.len() implies after[j].id@ != x by {
            let j0 = if j < i { j } else { j + 1 };
            assert(after[j] == before[j0]);
        }
        lemma_level_of_absent(after, x);
    }
}

/// One grant or revoke the platform is asked to perform.
pub struct RoleAction {
    /// Platform role identifier.
    pub role_id: String,
    /// True to grant the role, false to revoke it.
    pub grant: bool,
}

/// The actions a transition's crossings ask for: for each crossed level in
/// crossing order, every role bound to exactly that level.
pub open spec fn spec_role_plan(
    roles: Seq<XpRole>,
    crossed: Seq<i32>,
    grant: bool,
) -> Seq<(Seq<char>, bool)>
    decreases crossed.len(),
{
    if crossed.len() == 0 {
        Seq::empty()
    } else {
        spec_role_plan(roles, crossed.drop_last(), grant) + ids_with_level(
            roles,
            crossed.last() as int,
        ).map_values(|id: Seq<char>| (id, grant))
    }
}

/// Translate the crossed levels of one transition into the ordered list
/// of grant (`grant` true) or revoke calls to issue, preserving the
/// crossing order.
pub fn plan_role_updates(set: &XpRoleSet, crossed: &Vec<i32>, grant: bool) -> (r: Vec<RoleAction>)
    ensures
        r@.map_values(|a: RoleAction| (a.role_id@, a.grant)) == spec_role_plan(
            set.roles@,
            crossed@,
            grant,
        ),
{
    let mut out: Vec<RoleAction> = Vec::new();
    let mut i: usize = 0;
    while i < crossed.len()
        invariant
            0 <= i <= crossed@.len(),
            out@.map_values(|a: RoleAction| (a.role_id@, a.grant)) == spec_role_plan(
                set.roles@,
                crossed@.subrange(0, i as int),
                grant,
            ),
        decreases crossed@.len() - i,
    {
        proof {
            assert(crossed@.subrange(0, i + 1).drop_last() =~= crossed@.subrange(0, i as int));
            assert(crossed@.subrange(0, i + 1).last() == crossed@[i as int]);
        }
        let level_roles = set.roles_at_level(crossed[i]);
        let ghost mid = out@;
        let mut j: usize = 0;
        while j < level_roles.len()
            invariant
                0 <= j <= level_roles@.len(),
                out@.len() == mid.len() + j,
                out@.map_values(|a: RoleAction| (a.role_id@, a.grant)) == mid.map_values(
                    |a: RoleAction| (a.role_id@, a.grant),
                ) + level_roles@.map_values(|s: String| s@).subrange(0, j as int).map_values(
                    |id: Seq<char>| (id, grant),
                ),
            decreases level_roles@.len() - j,
        {
            let ghost prev = out@;
            let rid = level_roles[j].clone();
            out.push(RoleAction { role_id: rid, grant });
            proof {
                let f = |a: RoleAction| (a.role_id@, a.grant);
                let g = |id: Seq<char>| (id, grant);
                let ids = level_roles@.map_values(|s: String| s@);
                assert(out@.map_values(f) =~= prev.map_values(f).push((ids[j as int], grant)));
                assert(ids.subrange(0, j + 1).map_values(g) =~= ids.subrange(
                    0,
                    j as int,
                ).map_values(g).push((ids[j as int], grant)));
                assert(mid.map_values(f) + ids.subrange(0, j + 1).map_values(g) =~= (
                mid.map_values(f) + ids.subrange(0, j as int).map_values(g)).push(
                    (ids[j as int], grant),
                ));
            }
            j = j + 1;
        }
        proof {
            let ids = level_roles@.map_values(|s: String| s@);
            assert(ids.subrange(0, ids.len() as int) =~= ids);
        }
        i = i + 1;
    }
    proof {
        assert(crossed@.subrange(0, crossed@.len() as int) =~= crossed@);
    }
    out
}

/// Identifiers of the members whose level is at least `level`, in record
/// order.
pub open spec fn ids_at_or_above(members: Seq<Member>, level: int) -> Seq<Seq<char>>
    decreases members.len(),
{
    if members.len() == 0 {
        Seq::empty()
    } else if members.last().level >= level {
        ids_at_or_above(members.drop_last(), level).push(members.last().id@)
    } else {
        ids_at_or_above(members.drop_last(), level)
    }
}

/// Members a retroactive bulk sync touches: exactly those already at or
/// above the threshold, in record order.  Used both when an XP role is
/// created (grants) and when one is deleted (revokes).
pub fn members_at_or_above(members: &Vec<Member>, level: i32) -> (r: Vec<String>)
    ensures
        r@.map_values(|s: String| s@) == ids_at_or_above(members@, level as int),
{
    let mut out: Vec<String> = Vec::new();
    let mut i: usize = 0;
    while i < members.len()
        invariant
            0 <= i <= members@.len(),
            out@.map_values(|s: String| s@) == ids_at_or_above(
                members@.subrange(0, i as int),
                level as int,
            ),
        decreases members@.len() - i,
    {
        proof {
            assert(members@.subrange(0, i + 1).drop_last() =~= members@.subrange(0, i as int));
            assert(members@.subrange(0, i + 1).last() == members@[i as int]);
        }
        if members[i].level >= level {
            out.push(members[i].id.clone());
            proof {
                assert(out@.map_values(|s: String| s@) =~= out@.drop_last().map_values(
                    |s: String| s@,
                ).push(out@.last()@));
            }
        }
        i = i + 1;
    }
    proof {
        assert(members@.subrange(0, members@.len() as int) =~= members@);
    }
    out
}

} // verus!
