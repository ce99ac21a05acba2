//! Self-service auto roles and their named groups.
//!
//! A group is a named partition; selecting a role inside a group first
//! revokes every other role of that same group from the acting member —
//! mutual exclusivity by group.  A group may only be deleted while no
//! role references it; role deletion is unconstrained.

use vstd::prelude::*;

use crate::roles::RoleAction;
use crate::text::eq_str;

verus! {

/// A self-service role, optionally tied to a group.
pub struct AutoRole {
    /// Platform role identifier.
    pub id: String,
    /// Group the role belongs to, if any.
    pub group: Option<String>,
}

/// Why an auto-role change was rejected.
#[derive(Clone, Copy, Debug, PartialEq, Eq, Structural)]
pub enum AutoRoleError {
    /// The role is already registered.
    AlreadyRegistered,
    /// The role is not registered.
    NotRegistered,
    /// The named group does not exist.
    GroupNotFound,
    /// The named group already exists.
    GroupExists,
    /// The group still has roles and may not be deleted.
    GroupNotEmpty,
}

/// Group of the role with identifier `id`, searching from the back:
/// `None` when the role is absent, otherwise its optional group's name.
pub open spec fn spec_group_of(roles: Seq<AutoRole>, id: Seq<char>) -> Option<
    Option<Seq<char>>,
>
    decreases roles.len(),
{
    if roles.len() == 0 {
        None
    } else if roles.last().id@ == id {
        Some(
            match roles.last().group {
                Some(g) => Some(g@),
                None => None,
            },
        )
    } else {
        spec_group_of(roles.drop_last(), id)
    }
}

/// Identifiers of the roles belonging to group `group`, in record order.
pub open spec fn ids_in_group(roles: Seq<AutoRole>, group: Seq<char>) -> Seq<Seq<char>>
    decreases roles.len(),
{
    if roles.len() == 0 {
        Seq::empty()
    } else if (match roles.last().group {
        Some(g) => g@ == group,
        None => false,
    }) {
        ids_in_group(roles.drop_last(), group).push(roles.last().id@)
    } else {
        ids_in_group(roles.drop_last(), group)
    }
}

/// Whether any role references group `group`.
pub open spec fn group_in_use(roles: Seq<AutoRole>, group: Seq<char>) -> bool {
    exists|i: int|
        0 <= i < roles.len() && (match #[trigger] roles[i].group {
            Some(g) => g@ == group,
            None => false,
        })
}

/// A matching record determines `spec_group_of` when identifiers are
/// unique.
proof fn lemma_group_of_at_index(roles: Seq<AutoRole>, id: Seq<char>, i: int)
    requires
        forall|p: int, q: int|
            0 <= p < q < roles.len() ==> roles[p].id@ != roles[q].id@,
        0 <= i < roles.len(),
        roles[i].id@ == id,
    ensures
        spec_group_of(roles, id) == Some(
            match roles[i].group {
                Some(g) => Some(g@),
                None => None,
            },
        ),
    decreases roles.len(),
{
    if i == roles.len() - 1 {
    } else {
        assert(roles.last().id@ != id);
        assert(roles.drop_last()[i] == roles[i]);
        lemma_group_of_at_index(roles.drop_last(), id, i);
    }
}

/// When no record matches, `spec_group_of` is `None`.
proof fn lemma_group_of_absent(roles: Seq<AutoRole>, id: Seq<char>)
    requires
        forall|i: int| 0 <= i < roles.len() ==> roles[i].id@ != id,
    ensures
        spec_group_of(roles, id) is None,
    decreases roles.len(),
{
    if roles.len() > 0 {
        lemma_group_of_absent(roles.drop_last(), id);
    }
}

/// The auto-role table and its groups, kept referentially consistent:
/// every group a role names exists.
pub struct AutoRoleSet {
    /// Group names, free of duplicates.
    pub groups: Vec<String>,
    /// Registered roles, with pairwise distinct identifiers.
    pub roles: Vec<AutoRole>,
}

impl AutoRoleSet {
    /// Group names unique, role identifiers unique, and every group a
    /// role names present in `groups`.
    pub open spec fn wf(&self) -> bool {
        &&& forall|i: int, j: int|
            0 <= i < j < self.groups@.len() ==> self.groups@[i]@ != self.groups@[j]@
        &&& forall|i: int, j: int|
            0 <= i < j < self.roles@.len() ==> self.roles@[i].id@ != self.roles@[j].id@
        &&& forall|i: int|
            0 <= i < self.roles@.len() ==> (match #[trigger] self.roles@[i].group {
                Some(g) => self.has_group(g@),
                None => true,
            })
    }

    /// Whether a group named `name` exists.
    pub open spec fn has_group(&self, name: Seq<char>) -> bool {
        exists|i: int| 0 <= i < self.groups@.len() && self.groups@[i]@ == name
    }

    /// Whether a role with identifier `id` is registered.
    pub open spec fn has_role(&self, id: Seq<char>) -> bool {
        spec_group_of(self.roles@, id) is Some
    }

    /// An empty table.
    pub fn new() -> (r: AutoRoleSet)
        ensures
            r.wf(),
            r.groups@.len() == 0,
            r.roles@.len() == 0,
            forall|name: Seq<char>| !r.has_group(name),
            forall|id: Seq<char>| !r.has_role(id),
    {
        proof {
            assert forall|id: Seq<char>| spec_group_of(Seq::<AutoRole>::empty(), id)
                is None by {}
        }
        AutoRoleSet { groups: Vec::new(), roles: Vec::new() }
    }

    /// Index of group `name`, if it exists.
    fn group_index(&self, name: &str) -> (r: Option<usize>)
        ensures
            match r {
                Some(i) => i < self.groups@.len() && self.groups@[i as int]@ == name@,
                None => !self.has_group(name@),
            },
    {
        let mut i: usize = 0;
        while i < self.groups.len()
            invariant
                0 <= i <= self.groups@.len(),
                forall|j: int| 0 <= j < i ==> self.groups@[j]@ != name@,
            decreases self.groups@.len() - i,
        {
            if eq_str(self.groups[i].as_str(), name) {
                return Some(i);
            }
            i = i + 1;
        }
        None
    }

    /// Index of the role record for `id`, if any.
    fn role_index(&self, id: &str) -> (r: Option<usize>)
        requires
            self.wf(),
        ensures
            match r {
                Some(i) => i < self.roles@.len() && self.roles@[i as int].id@ == id@
                    && spec_group_of(self.roles@, id@) == Some(
                    match self.roles@[i as int].group {
                        Some(g) => Some(g@),
                        None => None,
                    },
                ),
                None => !self.has_role(id@),
            },
    {
        let mut i: usize = 0;
        while i < self.roles.len()
            invariant
                self.wf(),
                0 <= i <= self.roles@.len(),
                forall|j: int| 0 <= j < i ==> self.roles@[j].id@ != id@,
            decreases self.roles@.len() - i,
        {
            if eq_str(self.roles[i].id.as_str(), id) {
                proof {
                    lemma_group_of_at_index(self.roles@, id@, i as int);
                }
                return Some(i);
            }
            i = i + 1;
        }
        proof {
            lemma_group_of_absent(self.roles@, id@);
        }
        None
    }

    /// Whether the role is registered for self-service.
    pub fn contains_role(&self, id: &str) -> (r: bool)
        requires
            self.wf(),
        ensures
            r == self.has_role(id@),
    {
        self.role_index(id).is_some()
    }

    /// Create a group; rejected when the name is taken.
    pub fn add_group(&mut self, name: String) -> (r: Result<(), AutoRoleError>)
        requires
            old(self).wf(),
        ensures
            final(self).wf(),
            r is Err <==> old(self).has_group(name@),
            r is Err ==> r == Result::<(), AutoRoleError>::Err(AutoRoleError::GroupExists)
                && *final(self) == *old(self),
            r is Ok ==> final(self).has_group(name@),
            r is Ok ==> final(self).groups@.len() == old(self).groups@.len() + 1,
            r is Ok ==> forall|x: Seq<char>|
                x != name@ ==> final(self).has_group(x) == old(self).has_group(x),
            final(self).roles@ == old(self).roles@,
    {
        match self.group_index(name.as_str()) {
            Some(_) => Err(AutoRoleError::GroupExists),
            None => {
                let ghost before = self.groups@;
                let ghost name_view = name@;
                self.groups.push(name);
                proof {
                    assert(self.groups@[before.len() as int]@ == name_view);
                    assert forall|x: Seq<char>| x != name_view implies final(self).has_group(x)
                        == old(self).has_group(x) by {
                        if old(self).has_group(x) {
                            let i = choose|i: int|
                                0 <= i < before.len() && before[i]@ == x;
                            assert(self.groups@[i]@ == x);
                        }
                        if self.has_group(x) {
                            let i = choose|i: int|
                                0 <= i < self.groups@.len() && self.groups@[i]@ == x;
                            assert(before[i]@ == x);
                        }
                    }
                }
                Ok(())
            },
        }
    }

    /// Delete a group; rejected when it does not exist or while any role
    /// still references it.
    pub fn remove_group(&mut self, name: &str) -> (r: Result<(), AutoRoleError>)
        requires
            old(self).wf(),
        ensures
            final(self).wf(),
            r is Err <==> (!old(self).has_group(name@) || group_in_use(old(self).roles@, name@)),
            !old(self).has_group(name@) ==> r == Result::<(), AutoRoleError>::Err(
                AutoRoleError::GroupNotFound,
            ),
            old(self).has_group(name@) && group_in_use(old(self).roles@, name@) ==> r
                == Result::<(), AutoRoleError>::Err(AutoRoleError::GroupNotEmpty),
            r is Err ==> *final(self) == *old(self),
            r is Ok ==> !final(self).has_group(name@),
            r is Ok ==> final(self).groups@.len() + 1 == old(self).groups@.len(),
            r is Ok ==> forall|x: Seq<char>|
                x != name@ ==> final(self).has_group(x) == old(self).has_group(x),
            final(self).roles@ == old(self).roles@,
    {
        let found = self.group_index(name);
        match found {
            None => Err(AutoRoleError::GroupNotFound),
            Some(i) => {
                if self.any_role_in_group(name) {
                    return Err(AutoRoleError::GroupNotEmpty);
                }
                let ghost before = self.groups@;
                self.groups.remove(i);
                proof {
                    assert forall|j: int| 0 <= j < self.groups@.len() implies self.groups@[j]@
                        != name@ by {
                        let j0 = if j < i { j } else { j + 1 };
                        assert(self.groups@[j] == before[j0]);
                    }
                    assert forall|x: Seq<char>| x != name@ implies final(self).has_group(x)
                        == old(self).has_group(x) by {
                        if old(self).has_group(x) {
                            let j = choose|j: int|
                                0 <= j < before.len() && before[j]@ == x;
                            assert(j != i);
                            if j < i {
                                assert(self.groups@[j]@ == x);
                            } else {
                                assert(self.groups@[j - 1]@ == x);
                            }
                        }
                        if self.has_group(x) {
                            let j = choose|j: int|
                                0 <= j < self.groups@.len() && self.groups@[j]@ == x;
                            if j < i {
                                assert(before[j]@ == x);
                            } else {
                                assert(before[j + 1]@ == x);
                            }
                        }
                    }
                    assert forall|k: int| 0 <= k < self.roles@.len() implies (
                    match #[trigger] self.roles@[k].group {
                        Some(g) => self.has_group(g@),
                        None => true,
                    }) by {
                        match self.roles@[k].group {
                            Some(g) => {
                                assert(!group_in_use(self.roles@, name@));
                                assert(g@ != name@);
                            },
                            None => {},
                        }
                    }
                }
                Ok(())
            },
        }
    }

    /// Whether any registered role references group `name`.
    fn any_role_in_group(&self, name: &str) -> (r: bool)
        ensures
            r == group_in_use(self.roles@, name@),
    {
        let mut i: usize = 0;
        while i < self.roles.len()
            invariant
                0 <= i <= self.roles@.len(),
                forall|j: int|
                    0 <= j < i ==> !(match #[trigger] self.roles@[j].group {
                        Some(g) => g@ == name@,
                        None => false,
                    }),
            decreases self.roles@.len() - i,
        {
            match &self.roles[i].group {
                Some(g) => {
                    if eq_str(g.as_str(), name) {
                        return true;
                    }
                },
                None => {},
            }
            i = i + 1;
        }
        false
    }

    /// Register a role, optionally inside a group; rejected when the role
    /// already exists or the named group does not.
    pub fn add_role(&mut self, id: String, group: Option<String>) -> (r: Result<
        (),
        AutoRoleError,
    >)
        requires
            old(self).wf(),
        ensures
            final(self).wf(),
            old(self).has_role(id@) ==> r == Result::<(), AutoRoleError>::Err(
                AutoRoleError::AlreadyRegistered,
            ),
            !old(self).has_role(id@) && (match group {
                Some(g) => !old(self).has_group(g@),
                None => false,
            }) ==> r == Result::<(), AutoRoleError>::Err(AutoRoleError::GroupNotFound),
            r is Err <==> (old(self).has_role(id@) || (match group {
                Some(g) => !old(self).has_group(g@),
                None => false,
            })),
            r is Err ==> *final(self) == *old(self),
            r is Ok ==> spec_group_of(final(self).roles@, id@) == Some(
                match group {
                    Some(g) => Some(g@),
                    None => None,
                },
            ),
            r is Ok ==> final(self).roles@.len() == old(self).roles@.len() + 1,
            r is Ok ==> forall|x: Seq<char>|
                x != id@ ==> spec_group_of(final(self).roles@, x) == spec_group_of(
                    old(self).roles@,
                    x,
                ),
            final(self).groups@ == old(self).groups@,
    {
        match self.role_index(id.as_str()) {
            Some(_) => Err(AutoRoleError::AlreadyRegistered),
            None => {
                match &group {
                    Some(g) => {
                        if self.group_index(g.as_str()).is_none() {
                            return Err(AutoRoleError::GroupNotFound);
                        }
                    },
                    None => {},
                }
                proof {
                    assert(match group {
                        Some(g) => old(self).has_group(g@),
                        None => true,
                    });
                }
                let ghost before = self.roles@;
                let ghost id_view = id@;
                self.roles.push(AutoRole { id, group });
                proof {
                    assert forall|p: int, q: int|
                        0 <= p < q < self.roles@.len() implies self.roles@[p].id@
                        != self.roles@[q].id@ by {
                        if q < before.len() {
                        } else {
                            lemma_group_of_at_index(before, before[p].id@, p);
                        }
                    }
                    assert(self.roles@.drop_last() =~= before);
                    assert(self.roles@.last().id@ == id_view);
                    assert(self.groups@ == old(self).groups@);
                    assert forall|k: int| 0 <= k < self.roles@.len() implies (
                    match #[trigger] self.roles@[k].group {
                        Some(g) => self.has_group(g@),
                        None => true,
                    }) by {
                        let entry = self.roles@[k];
                        if k < before.len() {
                            assert(entry == before[k]);
                            assert(old(self).roles@[k] == entry);
                            assert(match old(self).roles@[k].group {
                                Some(g) => old(self).has_group(g@),
                                None => true,
                            });
                        } else {
                            assert(entry == self.roles@.last());
                        }
                        match entry.group {
                            Some(g) => {
                                let w = choose|w: int|
                                    0 <= w < old(self).groups@.len() && old(self).groups@[w]@
                                        == g@;
                                assert(self.groups@[w]@ == g@);
                            },
                            None => {},
                        }
                    }
                    assert forall|x: Seq<char>| x != id_view implies spec_group_of(
                        self.roles@,
                        x,
                    ) == spec_group_of(before, x) by {
                        assert(self.roles@.last().id@ != x);
                    }
                }
                Ok(())
            },
        }
    }

    /// Deregister a role; rejected when it is not registered.
    pub fn remove_role(&mut self, id: &str) -> (r: Result<(), AutoRoleError>)
        requires
            old(self).wf(),
        ensures
            final(self).wf(),
            r is Err <==> !old(self).has_role(id@),
            r is Err ==> r == Result::<(), AutoRoleError>::Err(AutoRoleError::NotRegistered)
                && *final(self) == *old(self),
            r is Ok ==> !final(self).has_role(id@),
            r is Ok ==> final(self).roles@.len() + 1 == old(self).roles@.len(),
            r is Ok ==> forall|x: Seq<char>|
                x != id@ ==> spec_group_of(final(self).roles@, x) == spec_group_of(
                    old(self).roles@,
                    x,
                ),
            final(self).groups@ == old(self).groups@,
    {
        match self.role_index(id) {
            None => Err(AutoRoleError::NotRegistered),
            Some(i) => {
                let ghost before = self.roles@;
                self.roles.remove(i);
                proof {
                    let after = self.roles@;
                    assert forall|p: int, q: int| 0 <= p < q < after.len() implies after[p].id@
                        != after[q].id@ by {
                        let p0 = if p < i { p } else { p + 1 };
                        let q0 = if q < i { q } else { q + 1 };
                        assert(after[p] == before[p0] && after[q] == before[q0]);
                    }
                    assert(self.groups@ == old(self).groups@);
                    assert forall|k: int| 0 <= k < after.len() implies (
                    match #[trigger] after[k].group {
                        Some(g) => self.has_group(g@),
                        None => true,
                    }) by {
                        let k0 = if k < i { k } else { k + 1 };
                        assert(after[k] == before[k0]);
                        assert(old(self).roles@[k0] == before[k0]);
                        assert(match old(self).roles@[k0].group {
                            Some(g) => old(self).has_group(g@),
                            None => true,
                        });
                        match after[k].group {
                            Some(g) => {
                                let w = choose|w: int|
                                    0 <= w < old(self).groups@.len() && old(self).groups@[w]@
                                        == g@;
                                assert(self.groups@[w]@ == g@);
                            },
                            None => {},
                        }
                    }
                    assert forall|j: int| 0 <= j < after.len() implies after[j].id@ != id@ by {
                        let j0 = if j < i { j } else { j + 1 };
                        assert(after[j] == before[j0]);
                    }
                    lemma_group_of_absent(after, id@);
                    assert forall|x: Seq<char>| x != id@ implies spec_group_of(after, x)
                        == spec_group_of(before, x) by {
                        lemma_group_of_unaffected_by_remove(before, after, i as int, x);
                    }
                }
                Ok(())
            },
        }
    }

    /// Identifiers of the roles in group `group`, in record order.
    pub fn roles_in_group(&self, group: &str) -> (r: Vec<String>)
        ensures
            r@.map_values(|s: String| s@) == ids_in_group(self.roles@, group@),
    {
        let mut out: Vec<String> = Vec::new();
        let mut i: usize = 0;
        while i < self.roles.len()
            invariant
                0 <= i <= self.roles@.len(),
                out@.map_values(|s: String| s@) == ids_in_group(
                    self.roles@.subrange(0, i as int),
                    group@,
                ),
            decreases self.roles@.len() - i,
        {
            proof {
                assert(self.roles@.subrange(0, i + 1).drop_last() =~= self.roles@.subrange(
                    0,
                    i as int,
                ));
                assert(self.roles@.subrange(0, i + 1).last() == self.roles@[i as int]);
            }
            let matches_group: bool = match &self.roles[i].group {
                Some(g) => eq_str(g.as_str(), group),
                None => false,
            };
            if matches_group {
                out.push(self.roles[i].id.clone());
                proof {
                    assert(out@.map_values(|s: String| s@) =~= out@.drop_last().map_values(
                        |s: String| s@,
                    ).push(out@.last()@));
                }
            }
            i = i + 1;
        }
        proof {
            assert(self.roles@.subrange(0, self.roles@.len() as int) =~= self.roles@);
        }
        out
    }

    /// The calls a member's self-service selection of `id` asks for:
    /// first revoke every role of the chosen role's group (in record
    /// order), then grant the chosen role.  A role without a group is
    /// granted alone.  Rejected when the role is not registered.
    pub fn selection_plan(&self, id: &str) -> (r: Result<Vec<RoleAction>, AutoRoleError>)
        requires
            self.wf(),
        ensures
            r is Err <==> !self.has_role(id@),
            r is Err ==> r == Result::<Vec<RoleAction>, AutoRoleError>::Err(
                AutoRoleError::NotRegistered,
            ),
            r is Ok ==> r->Ok_0@.map_values(|a: RoleAction| (a.role_id@, a.grant))
                == spec_selection_plan(self.roles@, id@),
    {
        match self.role_index(id) {
            None => Err(AutoRoleError::NotRegistered),
            Some(i) => {
                let mut out: Vec<RoleAction> = Vec::new();
                let in_group: Option<Vec<String>> = match &self.roles[i].group {
                    Some(g) => Some(self.roles_in_group(g.as_str())),
                    None => None,
                };
                if let Some(ids) = in_group {
                    let mut j: usize = 0;
                    while j < ids.len()
                        invariant
                            0 <= j <= ids@.len(),
                            out@.len() == j,
                            forall|k: int|
                                0 <= k < j ==> (#[trigger] out@[k].role_id@ == ids@[k]@
                                    && out@[k].grant == false),
                        decreases ids@.len() - j,
                    {
                        let ghost prev = out@;
                        let rid = ids[j].clone();
                        out.push(RoleAction { role_id: rid, grant: false });
                        proof {
                            assert forall|k: int|
                                0 <= k < j + 1 implies (#[trigger] out@[k].role_id@ == ids@[k]@
                                && out@[k].grant == false) by {
                                if k < j {
                                    assert(out@[k] == prev[k]);
                                    assert(prev[k].role_id@ == ids@[k]@ && prev[k].grant
                                        == false);
                                } else {
                                    assert(out@[k] == out@.last());
                                }
                            }
                        }
                        j = j + 1;
                    }
                    proof {
                        assert(out@.map_values(|a: RoleAction| (a.role_id@, a.grant))
                            =~= ids@.map_values(|s: String| s@).map_values(
                            |x: Seq<char>| (x, false),
                        ));
                    }
                }
                let ghost revokes = out@;
                out.push(RoleAction { role_id: String::from_str(id), grant: true });
                proof {
                    assert(out@.map_values(|a: RoleAction| (a.role_id@, a.grant))
                        =~= revokes.map_values(|a: RoleAction| (a.role_id@, a.grant)).push(
                        (id@, true),
                    ));
                }
                Ok(out)
            },
        }
    }
}

/// The full selection plan of role `id`: revokes of its group's roles (in
/// record order) followed by one grant of the role itself.
pub open spec fn spec_selection_plan(roles: Seq<AutoRole>, id: Seq<char>) -> Seq<
    (Seq<char>, bool),
> {
    let revokes = match spec_group_of(roles, id) {
        Some(Some(g)) => ids_in_group(roles, g).map_values(|x: Seq<char>| (x, false)),
        _ => Seq::empty(),
    };
    revokes.push((id, true))
}

/// Removing index `i` leaves `spec_group_of` unchanged for every other
/// identifier, provided identifiers are unique.
proof fn lemma_group_of_unaffected_by_remove(
    before: Seq<AutoRole>,
    after: Seq<AutoRole>,
    i: int,
    x: Seq<char>,
)
    requires
        forall|p: int, q: int|
            0 <= p < q < before.len() ==> before[p].id@ != before[q].id@,
        0 <= i < before.len(),
        after =~= before.remove(i),
        x != before[i].id@,
    ensures
        spec_group_of(after, x) == spec_group_of(before, x),
{
    assert forall|p: int, q: int| 0 <= p < q < after.len() implies after[p].id@
        != after[q].id@ by {
        let p0 = if p < i { p } else { p + 1 };
        let q0 = if q < i { q } else { q + 1 };
        assert(after[p] == before[p0] && after[q] == before[q0]);
    }
    if exists|j: int| 0 <= j < before.len() && before[j].id@ == x {
        let j = choose|j: int| 0 <= j < before.len() && before[j].id@ == x;
        lemma_group_of_at_index(before, x, j);
        let j2 = if j < i { j } else { j - 1 };
        assert(after[j2] == before[j]);
        lemma_group_of_at_index(after, x, j2);
    } else {
        lemma_group_of_absent(before, x);
        assert forall|j: int| 0 <= j < after.len() implies after[j].id@ != x by {
            let j0 = if j < i { j } else { j + 1 };
            assert(after[j] == before[j0]);
        }
        lemma_group_of_absent(after, x);
    }
}

} // verus!
