//! Behaviour grouping: authoring metadata over the relationships of one
//! authored design (the system's own, or a component's body).
//!
//! A group is an identity, a name, a description and a member list.  Every
//! edit here changes the group table only; the designs it reads are given
//! as the relationship ids of each scope and are never written.  A
//! relationship is in at most one group of its scope, and a group never
//! spans two designs.
use super::ids::{BehaviorGroupId, ComponentId, SystemIdAllocator};
use super::model::GroupEditOutcome;
use crate::text::trim;
use vstd::prelude::*;

verus! {

/// The design a group lives in.
#[derive(Clone, Copy, Debug, PartialEq, Eq, Structural)]
pub enum GroupScope {
    /// The system's own design.
    SystemBase,
    /// The body of a component.
    Component { component: ComponentId },
}

/// A named group of relationships (by their `u64` declaration ids).
#[derive(Debug)]
pub struct BehaviorGroup {
    pub id: BehaviorGroupId,
    pub scope: GroupScope,
    pub name: String,
    pub description: String,
    pub members: Vec<u64>,
}

/// The group table of a system, in id order, with the allocator that
/// issues group ids.
#[derive(Debug)]
pub struct GroupTable {
    pub groups: Vec<BehaviorGroup>,
    pub ids: SystemIdAllocator,
}

/// The relationships of one authored design.  A component's scope is
/// known exactly when an entry names it; the system's own design is always
/// known (with no relationships when no entry names it).
#[derive(Debug)]
pub struct ScopeDecls {
    pub scope: GroupScope,
    pub decls: Vec<u64>,
}

/// One group edit.
#[derive(Debug)]
pub enum GroupEditOp {
    /// A fresh group over some relationships of one design.
    CreateGroup { scope: GroupScope, name: String, description: String, members: Vec<u64> },
    RenameGroup { id: BehaviorGroupId, name: String },
    SetGroupDescription { id: BehaviorGroupId, description: String },
    /// The group goes; its members stay where they are.
    DeleteGroup { id: BehaviorGroupId },
    AddMember { group: BehaviorGroupId, decl: u64 },
    RemoveMember { group: BehaviorGroupId, decl: u64 },
    /// From whichever group holds it (or none) into `to`.
    MoveMember { decl: u64, to: BehaviorGroupId },
    /// `from`'s members join `into`; `from` goes.
    MergeGroups { into: BehaviorGroupId, from: BehaviorGroupId },
    /// The listed members leave `id` for a fresh group.
    SplitGroup { id: BehaviorGroupId, name: String, members: Vec<u64> },
}

/// Why a group edit was refused.
#[derive(Debug)]
pub enum GroupEditError {
    EmptyName,
    DuplicateGroupName { name: String },
    UnknownGroup { id: BehaviorGroupId },
    NotABaseDeclaration { decl: u64 },
    AlreadyGrouped { decl: u64, group: BehaviorGroupId },
    NotAMember { group: BehaviorGroupId, decl: u64 },
    SameGroup,
    ScopeMismatch,
    UnknownComponent { id: ComponentId },
}

// ---- the model -------------------------------------------------------------------

/// A group as plain values.
pub struct GroupV {
    pub id: u64,
    pub scope: GroupScope,
    pub name: Seq<char>,
    pub description: Seq<char>,
    pub members: Seq<u64>,
}

/// A refusal as plain values.
pub enum Refusal {
    EmptyName,
    DuplicateGroupName(Seq<char>),
    UnknownGroup(u64),
    NotABaseDeclaration(u64),
    AlreadyGrouped(u64, u64),
    NotAMember(u64, u64),
    SameGroup,
    ScopeMismatch,
    UnknownComponent(u64),
}

/// What an accepted edit gives: the new groups, the next group id, the
/// group it created (if any), and the groups it touched.
pub struct EditV {
    pub groups: Seq<GroupV>,
    pub next: u64,
    pub created: Option<u64>,
    pub touched: Set<u64>,
}

pub open spec fn group_v(g: BehaviorGroup) -> GroupV {
    GroupV {
        id: g.id.0,
        scope: g.scope,
        name: g.name@,
        description: g.description@,
        members: g.members@,
    }
}

pub open spec fn groups_v(gs: Seq<BehaviorGroup>) -> Seq<GroupV> {
    gs.map_values(|g: BehaviorGroup| group_v(g))
}

pub open spec fn scopes_v(sd: Seq<ScopeDecls>) -> Seq<(GroupScope, Seq<u64>)> {
    sd.map_values(|d: ScopeDecls| (d.scope, d.decls@))
}

pub open spec fn refusal(e: GroupEditError) -> Refusal {
    match e {
        GroupEditError::EmptyName => Refusal::EmptyName,
        GroupEditError::DuplicateGroupName { name } => Refusal::DuplicateGroupName(name@),
        GroupEditError::UnknownGroup { id } => Refusal::UnknownGroup(id.0),
        GroupEditError::NotABaseDeclaration { decl } => Refusal::NotABaseDeclaration(decl),
        GroupEditError::AlreadyGrouped { decl, group } => Refusal::AlreadyGrouped(decl, group.0),
        GroupEditError::NotAMember { group, decl } => Refusal::NotAMember(group.0, decl),
        GroupEditError::SameGroup => Refusal::SameGroup,
        GroupEditError::ScopeMismatch => Refusal::ScopeMismatch,
        GroupEditError::UnknownComponent { id } => Refusal::UnknownComponent(id.0),
    }
}

/// The first group with identity `id`.
pub open spec fn find(gs: Seq<GroupV>, id: u64) -> Option<int>
    decreases gs.len(),
{
    if gs.len() == 0 {
        None
    } else {
        match find(gs.drop_last(), id) {
            Some(k) => Some(k),
            None => if gs.last().id == id {
                Some(gs.len() - 1)
            } else {
                None
            },
        }
    }
}

/// The first group of `scope` holding `decl`.
pub open spec fn holder(gs: Seq<GroupV>, scope: GroupScope, decl: u64) -> Option<int>
    decreases gs.len(),
{
    if gs.len() == 0 {
        None
    } else {
        match holder(gs.drop_last(), scope, decl) {
            Some(k) => Some(k),
            None => if gs.last().scope == scope && gs.last().members.contains(decl) {
                Some(gs.len() - 1)
            } else {
                None
            },
        }
    }
}

/// The relationships of `scope`, from the first entry that names it.
pub open spec fn scope_decls(sd: Seq<(GroupScope, Seq<u64>)>, scope: GroupScope) -> Option<Seq<u64>>
    decreases sd.len(),
{
    if sd.len() == 0 {
        None
    } else {
        match scope_decls(sd.drop_last(), scope) {
            Some(d) => Some(d),
            None => if sd.last().0 == scope {
                Some(sd.last().1)
            } else {
                None
            },
        }
    }
}

/// The system's design always exists; a component's exists when named.
pub open spec fn scope_known(sd: Seq<(GroupScope, Seq<u64>)>, scope: GroupScope) -> bool {
    scope is SystemBase || scope_decls(sd, scope) is Some
}

pub open spec fn unknown_scope(scope: GroupScope) -> Refusal {
    match scope {
        GroupScope::Component { component } => Refusal::UnknownComponent(component.0),
        GroupScope::SystemBase => Refusal::UnknownComponent(0),
    }
}

/// `decl` is a relationship of the scope's design.
pub open spec fn scoped(sd: Seq<(GroupScope, Seq<u64>)>, scope: GroupScope, decl: u64) -> Result<
    (),
    Refusal,
> {
    if !scope_known(sd, scope) {
        Err(unknown_scope(scope))
    } else if scope_decls(sd, scope) matches Some(ds) && ds.contains(decl) {
        Ok(())
    } else {
        Err(Refusal::NotABaseDeclaration(decl))
    }
}

/// `decl` may join `group` (or a fresh group when `None`): a relationship
/// of the scope's design in no other group of that scope.
pub open spec fn free(
    gs: Seq<GroupV>,
    sd: Seq<(GroupScope, Seq<u64>)>,
    scope: GroupScope,
    decl: u64,
    group: Option<u64>,
) -> Result<(), Refusal> {
    match scoped(sd, scope, decl) {
        Err(e) => Err(e),
        Ok(_) => match holder(gs, scope, decl) {
            Some(k) => if Some(gs[k].id) != group {
                Err(Refusal::AlreadyGrouped(decl, gs[k].id))
            } else {
                Ok(())
            },
            None => Ok(()),
        },
    }
}

/// Every one of `ms` may join a fresh group; the first refusal otherwise.
pub open spec fn all_free(
    gs: Seq<GroupV>,
    sd: Seq<(GroupScope, Seq<u64>)>,
    scope: GroupScope,
    ms: Seq<u64>,
) -> Result<(), Refusal>
    decreases ms.len(),
{
    if ms.len() == 0 {
        Ok(())
    } else {
        match free(gs, sd, scope, ms[0], None) {
            Err(e) => Err(e),
            Ok(_) => all_free(gs, sd, scope, ms.drop_first()),
        }
    }
}

/// Whether another group of `scope` than `except` is named `name`.
pub open spec fn name_taken(gs: Seq<GroupV>, scope: GroupScope, name: Seq<char>, except: Option<
    u64,
>) -> bool {
    exists|k: int|
        0 <= k < gs.len() && #[trigger] gs[k].scope == scope && gs[k].name == name && Some(gs[k].id)
            != except
}

/// A group name as stored: trimmed, not empty, unique in its scope.
pub open spec fn name_ok(gs: Seq<GroupV>, scope: GroupScope, raw: Seq<char>, except: Option<u64>) -> Result<
    Seq<char>,
    Refusal,
> {
    let n = trim(raw);
    if n.len() == 0 {
        Err(Refusal::EmptyName)
    } else if name_taken(gs, scope, n, except) {
        Err(Refusal::DuplicateGroupName(n))
    } else {
        Ok(n)
    }
}

/// `s` with each value kept once, at its first place.
pub open spec fn dedup(s: Seq<u64>) -> Seq<u64>
    decreases s.len(),
{
    if s.len() == 0 {
        s
    } else if dedup(s.drop_last()).contains(s.last()) {
        dedup(s.drop_last())
    } else {
        dedup(s.drop_last()).push(s.last())
    }
}

/// `a`, then each value of `b` that is not there yet.
pub open spec fn join(a: Seq<u64>, b: Seq<u64>) -> Seq<u64>
    decreases b.len(),
{
    if b.len() == 0 {
        a
    } else if join(a, b.drop_last()).contains(b.last()) {
        join(a, b.drop_last())
    } else {
        join(a, b.drop_last()).push(b.last())
    }
}

/// `s` without `x`.
pub open spec fn without(s: Seq<u64>, x: u64) -> Seq<u64>
    decreases s.len(),
{
    if s.len() == 0 {
        s
    } else if s.last() == x {
        without(s.drop_last(), x)
    } else {
        without(s.drop_last(), x).push(s.last())
    }
}

/// The values of `s` that `list` holds (`inside`), or does not hold.
pub open spec fn sift(s: Seq<u64>, list: Seq<u64>, inside: bool) -> Seq<u64>
    decreases s.len(),
{
    if s.len() == 0 {
        s
    } else if list.contains(s.last()) == inside {
        sift(s.drop_last(), list, inside).push(s.last())
    } else {
        sift(s.drop_last(), list, inside)
    }
}

/// The first place of `x` in `s`.
pub open spec fn place(s: Seq<u64>, x: u64) -> Option<int>
    decreases s.len(),
{
    if s.len() == 0 {
        None
    } else {
        match place(s.drop_last(), x) {
            Some(i) => Some(i),
            None => if s.last() == x {
                Some(s.len() - 1)
            } else {
                None
            },
        }
    }
}

/// The first value of `list` that `s` does not hold.
pub open spec fn first_missing(list: Seq<u64>, s: Seq<u64>) -> Option<u64>
    decreases list.len(),
{
    if list.len() == 0 {
        None
    } else if !s.contains(list[0]) {
        Some(list[0])
    } else {
        first_missing(list.drop_first(), s)
    }
}

pub open spec fn with_name(g: GroupV, n: Seq<char>) -> GroupV {
    GroupV { name: n, ..g }
}

pub open spec fn with_description(g: GroupV, d: Seq<char>) -> GroupV {
    GroupV { description: d, ..g }
}

pub open spec fn with_members(g: GroupV, ms: Seq<u64>) -> GroupV {
    GroupV { members: ms, ..g }
}

/// What one group edit does to the groups `gs` (next id `next`), reading
/// the designs `sd`.
pub open spec fn spec_group_edit(
    gs: Seq<GroupV>,
    next: u64,
    sd: Seq<(GroupScope, Seq<u64>)>,
    op: GroupEditOp,
) -> Result<EditV, Refusal> {
    match op {
        GroupEditOp::CreateGroup { scope, name, description, members } => {
            if !scope_known(sd, scope) {
                Err(unknown_scope(scope))
            } else {
                match name_ok(gs, scope, name@, None) {
                    Err(e) => Err(e),
                    Ok(n) => match all_free(gs, sd, scope, members@) {
                        Err(e) => Err(e),
                        Ok(_) => Ok(
                            EditV {
                                groups: gs.push(
                                    GroupV {
                                        id: next,
                                        scope,
                                        name: n,
                                        description: description@,
                                        members: dedup(members@),
                                    },
                                ),
                                next: (next + 1) as u64,
                                created: Some(next),
                                touched: set![next],
                            },
                        ),
                    },
                }
            }
        },
        GroupEditOp::RenameGroup { id, name } => match find(gs, id.0) {
            None => Err(Refusal::UnknownGroup(id.0)),
            Some(k) => match name_ok(gs, gs[k].scope, name@, Some(id.0)) {
                Err(e) => Err(e),
                Ok(n) => Ok(
                    EditV {
                        groups: gs.update(k, with_name(gs[k], n)),
                        next,
                        created: None,
                        touched: set![id.0],
                    },
                ),
            },
        },
        GroupEditOp::SetGroupDescription { id, description } => match find(gs, id.0) {
            None => Err(Refusal::UnknownGroup(id.0)),
            Some(k) => Ok(
                EditV {
                    groups: gs.update(k, with_description(gs[k], description@)),
                    next,
                    created: None,
                    touched: set![id.0],
                },
            ),
        },
        GroupEditOp::DeleteGroup { id } => match find(gs, id.0) {
            None => Err(Refusal::UnknownGroup(id.0)),
            Some(k) => Ok(EditV { groups: gs.remove(k), next, created: None, touched: set![id.0] }),
        },
        GroupEditOp::AddMember { group, decl } => match find(gs, group.0) {
            None => Err(Refusal::UnknownGroup(group.0)),
            Some(k) => match free(gs, sd, gs[k].scope, decl, Some(group.0)) {
                Err(e) => Err(e),
                Ok(_) => Ok(
                    EditV {
                        groups: if gs[k].members.contains(decl) {
                            gs
                        } else {
                            gs.update(k, with_members(gs[k], gs[k].members.push(decl)))
                        },
                        next,
                        created: None,
                        touched: set![group.0],
                    },
                ),
            },
        },
        GroupEditOp::RemoveMember { group, decl } => match find(gs, group.0) {
            None => Err(Refusal::UnknownGroup(group.0)),
            Some(k) => match place(gs[k].members, decl) {
                None => Err(Refusal::NotAMember(group.0, decl)),
                Some(i) => Ok(
                    EditV {
                        groups: gs.update(k, with_members(gs[k], gs[k].members.remove(i))),
                        next,
                        created: None,
                        touched: set![group.0],
                    },
                ),
            },
        },
        GroupEditOp::MoveMember { decl, to } => match find(gs, to.0) {
            None => Err(Refusal::UnknownGroup(to.0)),
            Some(k) => match scoped(sd, gs[k].scope, decl) {
                Err(e) => Err(e),
                Ok(_) => match holder(gs, gs[k].scope, decl) {
                    Some(h) => if gs[h].id == to.0 {
                        Ok(EditV { groups: gs, next, created: None, touched: Set::empty() })
                    } else {
                        let gs1 = gs.update(h, with_members(gs[h], without(gs[h].members, decl)));
                        Ok(
                            EditV {
                                groups: gs1.update(k, with_members(gs1[k], gs1[k].members.push(decl))),
                                next,
                                created: None,
                                touched: set![gs[h].id, to.0],
                            },
                        )
                    },
                    None => Ok(
                        EditV {
                            groups: gs.update(k, with_members(gs[k], gs[k].members.push(decl))),
                            next,
                            created: None,
                            touched: set![to.0],
                        },
                    ),
                },
            },
        },
        GroupEditOp::MergeGroups { into, from } => if into == from {
            Err(Refusal::SameGroup)
        } else {
            match find(gs, into.0) {
                None => Err(Refusal::UnknownGroup(into.0)),
                Some(ki) => match find(gs, from.0) {
                    None => Err(Refusal::UnknownGroup(from.0)),
                    Some(kf) => if gs[ki].scope != gs[kf].scope {
                        Err(Refusal::ScopeMismatch)
                    } else {
                        Ok(
                            EditV {
                                groups: gs.update(
                                    ki,
                                    with_members(gs[ki], join(gs[ki].members, gs[kf].members)),
                                ).remove(kf),
                                next,
                                created: None,
                                touched: set![into.0, from.0],
                            },
                        )
                    },
                },
            }
        },
        GroupEditOp::SplitGroup { id, name, members } => match find(gs, id.0) {
            None => Err(Refusal::UnknownGroup(id.0)),
            Some(k) => match name_ok(gs, gs[k].scope, name@, None) {
                Err(e) => Err(e),
                Ok(n) => match first_missing(members@, gs[k].members) {
                    Some(d) => Err(Refusal::NotAMember(id.0, d)),
                    None => Ok(
                        EditV {
                            groups: gs.update(
                                k,
                                with_members(gs[k], sift(gs[k].members, members@, false)),
                            ).push(
                                GroupV {
                                    id: next,
                                    scope: gs[k].scope,
                                    name: n,
                                    description: Seq::empty(),
                                    members: sift(gs[k].members, members@, true),
                                },
                            ),
                            next: (next + 1) as u64,
                            created: Some(next),
                            touched: set![id.0, next],
                        },
                    ),
                },
            },
        },
    }
}

/// The outcome `o` reports `created` and the groups `touched`, in id
/// order, each once.
pub open spec fn outcome_is(o: GroupEditOutcome, created: Option<u64>, touched: Set<u64>) -> bool {
    &&& o.created_group == (match created {
        Some(c) => Some(BehaviorGroupId(c)),
        None => None,
    })
    &&& forall|x: u64|
        touched.contains(x) <==> exists|i: int| 0 <= i < o.groups@.len() && #[trigger] o.groups@[i].0 == x
    &&& forall|i: int, j: int| 0 <= i < j < o.groups@.len() ==> o.groups@[i].0 < o.groups@[j].0
}

// ---- first matches, read forwards -------------------------------------------------

proof fn lemma_find_take(s: Seq<GroupV>, id: u64, n: int)
    requires
        0 <= n <= s.len(),
        find(s.take(n), id) is Some,
    ensures
        find(s, id) == find(s.take(n), id),
    decreases s.len() - n,
{
    if n < s.len() {
        assert(s.take(n + 1).drop_last() =~= s.take(n));
        lemma_find_take(s, id, n + 1);
    } else {
        assert(s.take(n) =~= s);
    }
}

proof fn lemma_holder_take(s: Seq<GroupV>, scope: GroupScope, d: u64, n: int)
    requires
        0 <= n <= s.len(),
        holder(s.take(n), scope, d) is Some,
    ensures
        holder(s, scope, d) == holder(s.take(n), scope, d),
    decreases s.len() - n,
{
    if n < s.len() {
        assert(s.take(n + 1).drop_last() =~= s.take(n));
        lemma_holder_take(s, scope, d, n + 1);
    } else {
        assert(s.take(n) =~= s);
    }
}

proof fn lemma_scope_take(s: Seq<(GroupScope, Seq<u64>)>, scope: GroupScope, n: int)
    requires
        0 <= n <= s.len(),
        scope_decls(s.take(n), scope) is Some,
    ensures
        scope_decls(s, scope) == scope_decls(s.take(n), scope),
    decreases s.len() - n,
{
    if n < s.len() {
        assert(s.take(n + 1).drop_last() =~= s.take(n));
        lemma_scope_take(s, scope, n + 1);
    } else {
        assert(s.take(n) =~= s);
    }
}

proof fn lemma_place_take(s: Seq<u64>, x: u64, n: int)
    requires
        0 <= n <= s.len(),
        place(s.take(n), x) is Some,
    ensures
        place(s, x) == place(s.take(n), x),
    decreases s.len() - n,
{
    if n < s.len() {
        assert(s.take(n + 1).drop_last() =~= s.take(n));
        lemma_place_take(s, x, n + 1);
    } else {
        assert(s.take(n) =~= s);
    }
}

/// The index of the first group with identity `id`.
fn find_group(gs: &Vec<BehaviorGroup>, id: u64) -> (r: Option<usize>)
    ensures
        r matches Some(k) ==> find(groups_v(gs@), id) == Some(k as int) && k < gs@.len() && gs@[k as int].id.0
            == id,
        r is None ==> find(groups_v(gs@), id) is None,
{
    let ghost v = groups_v(gs@);
    let mut i: usize = 0;
    while i < gs.len()
        invariant
            i <= gs@.len(),
            v == groups_v(gs@),
            find(v.take(i as int), id) is None,
        decreases gs@.len() - i,
    {
        assert(v.take(i + 1).drop_last() =~= v.take(i as int));
        if gs[i].id.0 == id {
            proof {
                lemma_find_take(v, id, i + 1);
            }
            return Some(i);
        }
        i = i + 1;
    }
    assert(v.take(i as int) =~= v);
    None
}

/// The index of the first group of `scope` holding `decl`.
fn holder_of(gs: &Vec<BehaviorGroup>, scope: GroupScope, decl: u64) -> (r: Option<usize>)
    ensures
        r matches Some(k) ==> holder(groups_v(gs@), scope, decl) == Some(k as int) && k < gs@.len(),
        r is None ==> holder(groups_v(gs@), scope, decl) is None,
{
    let ghost v = groups_v(gs@);
    let mut i: usize = 0;
    while i < gs.len()
        invariant
            i <= gs@.len(),
            v == groups_v(gs@),
            holder(v.take(i as int), scope, decl) is None,
        decreases gs@.len() - i,
    {
        assert(v.take(i + 1).drop_last() =~= v.take(i as int));
        if gs[i].scope == scope && contains(&gs[i].members, decl) {
            proof {
                lemma_holder_take(v, scope, decl, i + 1);
            }
            return Some(i);
        }
        i = i + 1;
    }
    assert(v.take(i as int) =~= v);
    None
}

/// The index of the first entry naming `scope`.
fn scope_entry(sd: &Vec<ScopeDecls>, scope: GroupScope) -> (r: Option<usize>)
    ensures
        r matches Some(k) ==> k < sd@.len() && scope_decls(scopes_v(sd@), scope) == Some(
            sd@[k as int].decls@,
        ),
        r is None ==> scope_decls(scopes_v(sd@), scope) is None,
{
    let ghost v = scopes_v(sd@);
    let mut i: usize = 0;
    while i < sd.len()
        invariant
            i <= sd@.len(),
            v == scopes_v(sd@),
            scope_decls(v.take(i as int), scope) is None,
        decreases sd@.len() - i,
    {
        assert(v.take(i + 1).drop_last() =~= v.take(i as int));
        if sd[i].scope == scope {
            proof {
                lemma_scope_take(v, scope, i + 1);
            }
            return Some(i);
        }
        i = i + 1;
    }
    assert(v.take(i as int) =~= v);
    None
}

/// Whether `v` holds `x`.
fn contains(v: &Vec<u64>, x: u64) -> (r: bool)
    ensures
        r == v@.contains(x),
{
    let mut i: usize = 0;
    while i < v.len()
        invariant
            i <= v@.len(),
            forall|j: int| 0 <= j < i ==> v@[j] != x,
        decreases v@.len() - i,
    {
        if v[i] == x {
            assert(v@[i as int] == x);
            return true;
        }
        i = i + 1;
    }
    false
}

/// The first place of `x` in `v`.
fn place_of(v: &Vec<u64>, x: u64) -> (r: Option<usize>)
    ensures
        r matches Some(i) ==> place(v@, x) == Some(i as int) && i < v@.len(),
        r is None ==> place(v@, x) is None,
{
    let mut i: usize = 0;
    while i < v.len()
        invariant
            i <= v@.len(),
            place(v@.take(i as int), x) is None,
        decreases v@.len() - i,
    {
        assert(v@.take(i + 1).drop_last() =~= v@.take(i as int));
        if v[i] == x {
            proof {
                lemma_place_take(v@, x, i + 1);
            }
            return Some(i);
        }
        i = i + 1;
    }
    assert(v@.take(i as int) =~= v@);
    None
}

fn copy_ids(v: &Vec<u64>) -> (r: Vec<u64>)
    ensures
        r@ == v@,
{
    let mut out: Vec<u64> = Vec::new();
    let mut i: usize = 0;
    while i < v.len()
        invariant
            i <= v@.len(),
            out@ == v@.take(i as int),
        decreases v@.len() - i,
    {
        out.push(v[i]);
        assert(out@ =~= v@.take(i + 1));
        i = i + 1;
    }
    assert(v@.take(i as int) =~= v@);
    out
}

/// `v` with each value kept once, at its first place.
fn dedup_of(v: &Vec<u64>) -> (r: Vec<u64>)
    ensures
        r@ == dedup(v@),
{
    let mut out: Vec<u64> = Vec::new();
    let mut i: usize = 0;
    while i < v.len()
        invariant
            i <= v@.len(),
            out@ == dedup(v@.take(i as int)),
        decreases v@.len() - i,
    {
        assert(v@.take(i + 1).drop_last() =~= v@.take(i as int));
        if !contains(&out, v[i]) {
            out.push(v[i]);
        }
        i = i + 1;
    }
    assert(v@.take(i as int) =~= v@);
    out
}

/// Append to `a` each value of `b` it does not hold yet.
fn join_into(a: &mut Vec<u64>, b: &Vec<u64>)
    ensures
        final(a)@ == join(old(a)@, b@),
{
    let ghost a0 = a@;
    let mut i: usize = 0;
    while i < b.len()
        invariant
            i <= b@.len(),
            a@ == join(a0, b@.take(i as int)),
        decreases b@.len() - i,
    {
        assert(b@.take(i + 1).drop_last() =~= b@.take(i as int));
        if !contains(a, b[i]) {
            a.push(b[i]);
        }
        i = i + 1;
    }
    assert(b@.take(i as int) =~= b@);
}

/// `v` without `x`.
fn without_of(v: &Vec<u64>, x: u64) -> (r: Vec<u64>)
    ensures
        r@ == without(v@, x),
{
    let mut out: Vec<u64> = Vec::new();
    let mut i: usize = 0;
    while i < v.len()
        invariant
            i <= v@.len(),
            out@ == without(v@.take(i as int), x),
        decreases v@.len() - i,
    {
        assert(v@.take(i + 1).drop_last() =~= v@.take(i as int));
        if v[i] != x {
            out.push(v[i]);
        }
        i = i + 1;
    }
    assert(v@.take(i as int) =~= v@);
    out
}

/// The values of `v` that `list` holds (`inside`), or does not hold.
fn sift_of(v: &Vec<u64>, list: &Vec<u64>, inside: bool) -> (r: Vec<u64>)
    ensures
        r@ == sift(v@, list@, inside),
{
    let mut out: Vec<u64> = Vec::new();
    let mut i: usize = 0;
    while i < v.len()
        invariant
            i <= v@.len(),
            out@ == sift(v@.take(i as int), list@, inside),
        decreases v@.len() - i,
    {
        assert(v@.take(i + 1).drop_last() =~= v@.take(i as int));
        if contains(list, v[i]) == inside {
            out.push(v[i]);
        }
        i = i + 1;
    }
    assert(v@.take(i as int) =~= v@);
    out
}

/// The first value of `list` that `v` does not hold.
fn first_missing_of(list: &Vec<u64>, v: &Vec<u64>) -> (r: Option<u64>)
    ensures
        r == first_missing(list@, v@),
{
    let mut i: usize = 0;
    assert(list@.skip(0) =~= list@);
    while i < list.len()
        invariant
            i <= list@.len(),
            first_missing(list@, v@) == first_missing(list@.skip(i as int), v@),
        decreases list@.len() - i,
    {
        assert(list@.skip(i as int).drop_first() =~= list@.skip(i + 1));
        assert(list@.skip(i as int)[0] == list@[i as int]);
        if !contains(v, list[i]) {
            return Some(list[i]);
        }
        i = i + 1;
    }
    None
}

fn copy_group(g: &BehaviorGroup) -> (r: BehaviorGroup)
    ensures
        group_v(r) == group_v(*g),
{
    BehaviorGroup {
        id: g.id,
        scope: g.scope,
        name: g.name.clone(),
        description: g.description.clone(),
        members: copy_ids(&g.members),
    }
}

fn copy_groups(gs: &Vec<BehaviorGroup>) -> (r: Vec<BehaviorGroup>)
    ensures
        groups_v(r@) == groups_v(gs@),
{
    let mut out: Vec<BehaviorGroup> = Vec::new();
    let mut i: usize = 0;
    while i < gs.len()
        invariant
            i <= gs@.len(),
            groups_v(out@) == groups_v(gs@.take(i as int)),
        decreases gs@.len() - i,
    {
        let g = copy_group(&gs[i]);
        let ghost before = out@;
        out.push(g);
        assert(groups_v(out@) =~= groups_v(gs@.take(i + 1))) by {
            assert(out@ == before.push(g));
            assert(groups_v(gs@.take(i + 1)) =~= groups_v(gs@.take(i as int)).push(group_v(gs@[i as int])));
        }
        i = i + 1;
    }
    assert(gs@.take(i as int) =~= gs@);
    out
}

// ---- the checks ------------------------------------------------------------------

pub open spec fn unit_result(r: Result<(), GroupEditError>) -> Result<(), Refusal> {
    match r {
        Ok(_) => Ok(()),
        Err(e) => Err(refusal(e)),
    }
}

fn unknown_scope_error(scope: GroupScope) -> (r: GroupEditError)
    ensures
        refusal(r) == unknown_scope(scope),
{
    match scope {
        GroupScope::Component { component } => GroupEditError::UnknownComponent { id: component },
        GroupScope::SystemBase => GroupEditError::UnknownComponent { id: ComponentId(0) },
    }
}

fn scope_is_known(sd: &Vec<ScopeDecls>, scope: GroupScope) -> (r: bool)
    ensures
        r == scope_known(scopes_v(sd@), scope),
{
    scope == GroupScope::SystemBase || scope_entry(sd, scope).is_some()
}

fn check_scoped(sd: &Vec<ScopeDecls>, scope: GroupScope, decl: u64) -> (r: Result<(), GroupEditError>)
    ensures
        unit_result(r) == scoped(scopes_v(sd@), scope, decl),
{
    if !scope_is_known(sd, scope) {
        return Err(unknown_scope_error(scope));
    }
    match scope_entry(sd, scope) {
        Some(k) => if contains(&sd[k].decls, decl) {
            Ok(())
        } else {
            Err(GroupEditError::NotABaseDeclaration { decl })
        },
        None => Err(GroupEditError::NotABaseDeclaration { decl }),
    }
}

fn check_free(
    gs: &Vec<BehaviorGroup>,
    sd: &Vec<ScopeDecls>,
    scope: GroupScope,
    decl: u64,
    group: Option<u64>,
) -> (r: Result<(), GroupEditError>)
    ensures
        unit_result(r) == free(groups_v(gs@), scopes_v(sd@), scope, decl, group),
{
    match check_scoped(sd, scope, decl) {
        Err(e) => return Err(e),
        Ok(_) => {},
    }
    match holder_of(gs, scope, decl) {
        Some(k) => {
            let h = gs[k].id;
            if Some(h.0) != group {
                Err(GroupEditError::AlreadyGrouped { decl, group: h })
            } else {
                Ok(())
            }
        },
        None => Ok(()),
    }
}

fn check_all_free(gs: &Vec<BehaviorGroup>, sd: &Vec<ScopeDecls>, scope: GroupScope, ms: &Vec<u64>) -> (r:
    Result<(), GroupEditError>)
    ensures
        unit_result(r) == all_free(groups_v(gs@), scopes_v(sd@), scope, ms@),
{
    let ghost g = groups_v(gs@);
    let ghost d = scopes_v(sd@);
    let mut i: usize = 0;
    assert(ms@.skip(0) =~= ms@);
    while i < ms.len()
        invariant
            i <= ms@.len(),
            g == groups_v(gs@),
            d == scopes_v(sd@),
            all_free(g, d, scope, ms@) == all_free(g, d, scope, ms@.skip(i as int)),
        decreases ms@.len() - i,
    {
        assert(ms@.skip(i as int).drop_first() =~= ms@.skip(i + 1));
        assert(ms@.skip(i as int)[0] == ms@[i as int]);
        match check_free(gs, sd, scope, ms[i], None) {
            Err(e) => return Err(e),
            Ok(_) => {},
        }
        i = i + 1;
    }
    Ok(())
}

fn name_is_taken(gs: &Vec<BehaviorGroup>, scope: GroupScope, name: &str, except: Option<u64>) -> (r: bool)
    ensures
        r == name_taken(groups_v(gs@), scope, name@, except),
{
    let ghost v = groups_v(gs@);
    let mut i: usize = 0;
    while i < gs.len()
        invariant
            i <= gs@.len(),
            v == groups_v(gs@),
            forall|k: int|
                0 <= k < i ==> !(#[trigger] v[k].scope == scope && v[k].name == name@ && Some(v[k].id)
                    != except),
        decreases gs@.len() - i,
    {
        if gs[i].scope == scope && crate::text::str_eq(gs[i].name.as_str(), name) && Some(gs[i].id.0)
            != except {
            assert(v[i as int].scope == scope);
            return true;
        }
        i = i + 1;
    }
    false
}

pub open spec fn name_result(r: Result<String, GroupEditError>) -> Result<Seq<char>, Refusal> {
    match r {
        Ok(n) => Ok(n@),
        Err(e) => Err(refusal(e)),
    }
}

fn check_name(gs: &Vec<BehaviorGroup>, scope: GroupScope, raw: &str, except: Option<u64>) -> (r: Result<
    String,
    GroupEditError,
>)
    ensures
        name_result(r) == name_ok(groups_v(gs@), scope, raw@, except),
{
    match super::names::valid_name(raw) {
        Err(_) => Err(GroupEditError::EmptyName),
        Ok(n) => if name_is_taken(gs, scope, n.as_str(), except) {
            Err(GroupEditError::DuplicateGroupName { name: n })
        } else {
            Ok(n)
        },
    }
}

fn outcome_none() -> (o: GroupEditOutcome)
    ensures
        outcome_is(o, None, Set::empty()),
{
    GroupEditOutcome { created_group: None, groups: Vec::new() }
}

fn outcome_one(created: Option<BehaviorGroupId>, a: u64) -> (o: GroupEditOutcome)
    ensures
        o.created_group == created,
        forall|x: u64|
            set![a].contains(x) <==> exists|i: int| 0 <= i < o.groups@.len() && #[trigger] o.groups@[i].0 == x,
        forall|i: int, j: int| 0 <= i < j < o.groups@.len() ==> o.groups@[i].0 < o.groups@[j].0,
{
    let mut groups: Vec<BehaviorGroupId> = Vec::new();
    groups.push(BehaviorGroupId(a));
    let o = GroupEditOutcome { created_group: created, groups };
    assert forall|x: u64| set![a].contains(x) implies exists|i: int|
        0 <= i < o.groups@.len() && #[trigger] o.groups@[i].0 == x by {
        assert(o.groups@[0].0 == x);
    }
    o
}

fn outcome_two(created: Option<BehaviorGroupId>, a: u64, b: u64) -> (o: GroupEditOutcome)
    ensures
        o.created_group == created,
        forall|x: u64|
            set![a, b].contains(x) <==> exists|i: int| 0 <= i < o.groups@.len() && #[trigger] o.groups@[i].0 == x,
        forall|i: int, j: int| 0 <= i < j < o.groups@.len() ==> o.groups@[i].0 < o.groups@[j].0,
{
    let mut groups: Vec<BehaviorGroupId> = Vec::new();
    if a < b {
        groups.push(BehaviorGroupId(a));
        groups.push(BehaviorGroupId(b));
    } else if b < a {
        groups.push(BehaviorGroupId(b));
        groups.push(BehaviorGroupId(a));
    } else {
        groups.push(BehaviorGroupId(a));
    }
    let o = GroupEditOutcome { created_group: created, groups };
    assert forall|x: u64| set![a, b].contains(x) implies exists|i: int|
        0 <= i < o.groups@.len() && #[trigger] o.groups@[i].0 == x by {
        if a < b {
            if x == a {
                assert(o.groups@[0].0 == x);
            } else {
                assert(o.groups@[1].0 == x);
            }
        } else if b < a {
            if x == b {
                assert(o.groups@[0].0 == x);
            } else {
                assert(o.groups@[1].0 == x);
            }
        } else {
            assert(o.groups@[0].0 == x);
        }
    }
    o
}

// ---- the edit ---------------------------------------------------------------------

fn replace_group(gs: &mut Vec<BehaviorGroup>, k: usize, g: BehaviorGroup)
    requires
        k < old(gs)@.len(),
    ensures
        groups_v(final(gs)@) == groups_v(old(gs)@).update(k as int, group_v(g)),
        final(gs)@.len() == old(gs)@.len(),
        forall|j: int| 0 <= j < old(gs)@.len() && j != k ==> #[trigger] final(gs)@[j] == old(gs)@[j],
{
    let ghost g0 = g;
    gs.set(k, g);
    assert(groups_v(gs@) =~= groups_v(old(gs)@).update(k as int, group_v(g0)));
}

fn remove_group(gs: &mut Vec<BehaviorGroup>, k: usize)
    requires
        k < old(gs)@.len(),
    ensures
        groups_v(final(gs)@) == groups_v(old(gs)@).remove(k as int),
{
    gs.remove(k);
    assert(groups_v(gs@) =~= groups_v(old(gs)@).remove(k as int));
}

fn push_group(gs: &mut Vec<BehaviorGroup>, g: BehaviorGroup)
    ensures
        groups_v(final(gs)@) == groups_v(old(gs)@).push(group_v(g)),
{
    let ghost g0 = g;
    gs.push(g);
    assert(groups_v(gs@) =~= groups_v(old(gs)@).push(group_v(g0)));
}

/// `r` is what the model gives for the edit: the new table and outcome,
/// or the refusal.  The allocator's other counters never move.
pub open spec fn edit_result(
    table: GroupTable,
    scope_decls: Seq<ScopeDecls>,
    op: GroupEditOp,
    r: Result<(GroupTable, GroupEditOutcome), GroupEditError>,
) -> bool {
    match spec_group_edit(groups_v(table.groups@), table.ids@.group, scopes_v(scope_decls), op) {
        Ok(e) => r matches Ok((t, o)) && {
            &&& groups_v(t.groups@) == e.groups
            &&& t.ids@.group == e.next
            &&& t.ids@.component == table.ids@.component
            &&& t.ids@.instance == table.ids@.instance
            &&& t.ids@.port == table.ids@.port
            &&& t.ids@.binding == table.ids@.binding
            &&& t.ids@.export == table.ids@.export
            &&& outcome_is(o, e.created, e.touched)
        },
        Err(x) => r matches Err(err) && refusal(err) == x,
    }
}

/// Apply one group edit to the table, reading the relationships of each
/// scope.  Pure: the inputs are never written.
pub fn apply_group_edit(table: &GroupTable, scope_decls: &Vec<ScopeDecls>, op: &GroupEditOp) -> (r: Result<
    (GroupTable, GroupEditOutcome),
    GroupEditError,
>)
    requires
        table.ids@.group < u64::MAX,
    ensures
        edit_result(*table, scope_decls@, *op, r),
        table_wf(groups_v(table.groups@), table.ids@.group) ==> (r matches Ok((t, _)) ==> table_wf(
            groups_v(t.groups@),
            t.ids@.group,
        )),
{
    proof {
        let sv = scopes_v(scope_decls@);
        if table_wf(groups_v(table.groups@), table.ids@.group) && spec_group_edit(
            groups_v(table.groups@),
            table.ids@.group,
            sv,
            *op,
        ) is Ok {
            lemma_group_edit_keeps_invariant(groups_v(table.groups@), table.ids@.group, sv, *op);
        }
    }
    let mut gs = copy_groups(&table.groups);
    let mut ids = table.ids;
    match op {
        GroupEditOp::CreateGroup { scope, name, description, members } => {
            if !scope_is_known(scope_decls, *scope) {
                return Err(unknown_scope_error(*scope));
            }
            let n = match check_name(&gs, *scope, name.as_str(), None) {
                Err(e) => {
                    return Err(e);
                },
                Ok(n) => n,
            };
            match check_all_free(&gs, scope_decls, *scope, members) {
                Err(e) => {
                    return Err(e);
                },
                Ok(_) => {},
            }
            let list = dedup_of(members);
            let id = ids.fresh_group();
            push_group(
                &mut gs,
                BehaviorGroup {
                    id,
                    scope: *scope,
                    name: n,
                    description: description.clone(),
                    members: list,
                },
            );
            let o = outcome_one(Some(id), id.0);
            Ok((GroupTable { groups: gs, ids }, o))
        },
        GroupEditOp::RenameGroup { id, name } => {
            let k = match find_group(&gs, id.0) {
                None => {
                    return Err(GroupEditError::UnknownGroup { id: *id });
                },
                Some(k) => k,
            };
            let n = match check_name(&gs, gs[k].scope, name.as_str(), Some(id.0)) {
                Err(e) => {
                    return Err(e);
                },
                Ok(n) => n,
            };
            let mut g = copy_group(&gs[k]);
            g.name = n;
            replace_group(&mut gs, k, g);
            let o = outcome_one(None, id.0);
            Ok((GroupTable { groups: gs, ids }, o))
        },
        GroupEditOp::SetGroupDescription { id, description } => {
            let k = match find_group(&gs, id.0) {
                None => {
                    return Err(GroupEditError::UnknownGroup { id: *id });
                },
                Some(k) => k,
            };
            let mut g = copy_group(&gs[k]);
            g.description = description.clone();
            replace_group(&mut gs, k, g);
            let o = outcome_one(None, id.0);
            Ok((GroupTable { groups: gs, ids }, o))
        },
        GroupEditOp::DeleteGroup { id } => {
            let k = match find_group(&gs, id.0) {
                None => {
                    return Err(GroupEditError::UnknownGroup { id: *id });
                },
                Some(k) => k,
            };
            remove_group(&mut gs, k);
            let o = outcome_one(None, id.0);
            Ok((GroupTable { groups: gs, ids }, o))
        },
        GroupEditOp::AddMember { group, decl } => {
            let k = match find_group(&gs, group.0) {
                None => {
                    return Err(GroupEditError::UnknownGroup { id: *group });
                },
                Some(k) => k,
            };
            match check_free(&gs, scope_decls, gs[k].scope, *decl, Some(group.0)) {
                Err(e) => {
                    return Err(e);
                },
                Ok(_) => {},
            }
            if !contains(&gs[k].members, *decl) {
                let mut g = copy_group(&gs[k]);
                g.members.push(*decl);
                replace_group(&mut gs, k, g);
            }
            let o = outcome_one(None, group.0);
            Ok((GroupTable { groups: gs, ids }, o))
        },
        GroupEditOp::RemoveMember { group, decl } => {
            let k = match find_group(&gs, group.0) {
                None => {
                    return Err(GroupEditError::UnknownGroup { id: *group });
                },
                Some(k) => k,
            };
            let i = match place_of(&gs[k].members, *decl) {
                None => {
                    return Err(GroupEditError::NotAMember { group: *group, decl: *decl });
                },
                Some(i) => i,
            };
            let mut g = copy_group(&gs[k]);
            g.members.remove(i);
            replace_group(&mut gs, k, g);
            let o = outcome_one(None, group.0);
            Ok((GroupTable { groups: gs, ids }, o))
        },
        GroupEditOp::MoveMember { decl, to } => {
            let k = match find_group(&gs, to.0) {
                None => {
                    return Err(GroupEditError::UnknownGroup { id: *to });
                },
                Some(k) => k,
            };
            let scope = gs[k].scope;
            match check_scoped(scope_decls, scope, *decl) {
                Err(e) => {
                    return Err(e);
                },
                Ok(_) => {},
            }
            match holder_of(&gs, scope, *decl) {
                Some(h) => {
                    if gs[h].id.0 == to.0 {
                        let o = outcome_none();
                        return Ok((GroupTable { groups: gs, ids }, o));
                    }
                    let hid = gs[h].id.0;
                    let mut gh = copy_group(&gs[h]);
                    gh.members = without_of(&gs[h].members, *decl);
                    replace_group(&mut gs, h, gh);
                    let mut gk = copy_group(&gs[k]);
                    gk.members.push(*decl);
                    replace_group(&mut gs, k, gk);
                    let o = outcome_two(None, hid, to.0);
                    Ok((GroupTable { groups: gs, ids }, o))
                },
                None => {
                    let mut gk = copy_group(&gs[k]);
                    gk.members.push(*decl);
                    replace_group(&mut gs, k, gk);
                    let o = outcome_one(None, to.0);
                    Ok((GroupTable { groups: gs, ids }, o))
                },
            }
        },
        GroupEditOp::MergeGroups { into, from } => {
            if into.0 == from.0 {
                return Err(GroupEditError::SameGroup);
            }
            let ki = match find_group(&gs, into.0) {
                None => {
                    return Err(GroupEditError::UnknownGroup { id: *into });
                },
                Some(k) => k,
            };
            let kf = match find_group(&gs, from.0) {
                None => {
                    return Err(GroupEditError::UnknownGroup { id: *from });
                },
                Some(k) => k,
            };
            if gs[ki].scope != gs[kf].scope {
                return Err(GroupEditError::ScopeMismatch);
            }
            let mut m = copy_ids(&gs[ki].members);
            join_into(&mut m, &gs[kf].members);
            let mut gi = copy_group(&gs[ki]);
            gi.members = m;
            replace_group(&mut gs, ki, gi);
            remove_group(&mut gs, kf);
            let o = outcome_two(None, into.0, from.0);
            Ok((GroupTable { groups: gs, ids }, o))
        },
        GroupEditOp::SplitGroup { id, name, members } => {
            let k = match find_group(&gs, id.0) {
                None => {
                    return Err(GroupEditError::UnknownGroup { id: *id });
                },
                Some(k) => k,
            };
            let scope = gs[k].scope;
            let n = match check_name(&gs, scope, name.as_str(), None) {
                Err(e) => {
                    return Err(e);
                },
                Ok(n) => n,
            };
            match first_missing_of(members, &gs[k].members) {
                Some(d) => {
                    return Err(GroupEditError::NotAMember { group: *id, decl: d });
                },
                None => {},
            }
            let moved = sift_of(&gs[k].members, members, true);
            let kept = sift_of(&gs[k].members, members, false);
            let mut gk = copy_group(&gs[k]);
            gk.members = kept;
            replace_group(&mut gs, k, gk);
            let fresh = ids.fresh_group();
            push_group(
                &mut gs,
                BehaviorGroup { id: fresh, scope, name: n, description: String::new(), members: moved },
            );
            let o = outcome_two(Some(fresh), id.0, fresh.0);
            Ok((GroupTable { groups: gs, ids }, o))
        },
    }
}

// ---- the table's invariant ----------------------------------------------------------

/// No value twice.
pub open spec fn no_dups(s: Seq<u64>) -> bool {
    forall|a: int, b: int| 0 <= a < b < s.len() ==> s[a] != s[b]
}

/// The table's invariant: groups in increasing id order, every id below
/// the next one to issue, no member twice in a group, and no relationship
/// in two groups of one scope.
pub open spec fn table_wf(gs: Seq<GroupV>, next: u64) -> bool {
    &&& forall|i: int, j: int| 0 <= i < j < gs.len() ==> gs[i].id < gs[j].id
    &&& forall|i: int| 0 <= i < gs.len() ==> gs[i].id < next
    &&& forall|i: int| 0 <= i < gs.len() ==> no_dups(#[trigger] gs[i].members)
    &&& forall|i: int, j: int, d: u64|
        0 <= i < gs.len() && 0 <= j < gs.len() && i != j && gs[i].scope == gs[j].scope
            && #[trigger] gs[i].members.contains(d) ==> !#[trigger] gs[j].members.contains(d)
}

proof fn lemma_push_contains(s: Seq<u64>, l: u64, x: u64)
    ensures
        s.push(l).contains(x) <==> (s.contains(x) || x == l),
{
    if s.contains(x) {
        let i = choose|i: int| 0 <= i < s.len() && s[i] == x;
        assert(s.push(l)[i] == x);
    }
    if x == l {
        assert(s.push(l)[s.len() as int] == l);
    }
    if s.push(l).contains(x) {
        let i = choose|i: int| 0 <= i < s.len() + 1 && s.push(l)[i] == x;
        if i < s.len() {
            assert(s[i] == x);
        }
    }
}

proof fn lemma_push_no_dups(s: Seq<u64>, l: u64)
    requires
        no_dups(s),
        !s.contains(l),
    ensures
        no_dups(s.push(l)),
{
    assert forall|a: int, b: int| 0 <= a < b < s.push(l).len() implies s.push(l)[a] != s.push(l)[b] by {
        if b == s.len() {
            assert(s[a] == s.push(l)[a]);
        } else {
            assert(s[a] == s.push(l)[a] && s[b] == s.push(l)[b]);
        }
    }
}

proof fn lemma_dedup(s: Seq<u64>)
    ensures
        no_dups(dedup(s)),
        forall|x: u64| dedup(s).contains(x) <==> s.contains(x),
    decreases s.len(),
{
    if s.len() > 0 {
        let p = s.drop_last();
        lemma_dedup(p);
        assert(s =~= p.push(s.last()));
        assert forall|x: u64| dedup(s).contains(x) <==> s.contains(x) by {
            lemma_push_contains(p, s.last(), x);
            lemma_push_contains(dedup(p), s.last(), x);
        }
        if !dedup(p).contains(s.last()) {
            lemma_push_no_dups(dedup(p), s.last());
        }
    }
}

proof fn lemma_join(a: Seq<u64>, b: Seq<u64>)
    requires
        no_dups(a),
    ensures
        no_dups(join(a, b)),
        forall|x: u64| join(a, b).contains(x) <==> (a.contains(x) || b.contains(x)),
    decreases b.len(),
{
    if b.len() > 0 {
        let p = b.drop_last();
        lemma_join(a, p);
        assert(b =~= p.push(b.last()));
        assert forall|x: u64| join(a, b).contains(x) <==> (a.contains(x) || b.contains(x)) by {
            lemma_push_contains(p, b.last(), x);
            lemma_push_contains(join(a, p), b.last(), x);
        }
        if !join(a, p).contains(b.last()) {
            lemma_push_no_dups(join(a, p), b.last());
        }
    }
}

proof fn lemma_without(s: Seq<u64>, x: u64)
    ensures
        forall|y: u64| without(s, x).contains(y) <==> (s.contains(y) && y != x),
        no_dups(s) ==> no_dups(without(s, x)),
    decreases s.len(),
{
    if s.len() > 0 {
        let p = s.drop_last();
        lemma_without(p, x);
        assert(s =~= p.push(s.last()));
        assert forall|y: u64| without(s, x).contains(y) <==> (s.contains(y) && y != x) by {
            lemma_push_contains(p, s.last(), y);
            lemma_push_contains(without(p, x), s.last(), y);
        }
        if no_dups(s) && s.last() != x {
            assert(no_dups(p)) by {
                assert forall|a: int, b: int| 0 <= a < b < p.len() implies p[a] != p[b] by {
                    assert(p[a] == s[a] && p[b] == s[b]);
                }
            }
            assert(!p.contains(s.last())) by {
                if p.contains(s.last()) {
                    let i = choose|i: int| 0 <= i < p.len() && p[i] == s.last();
                    assert(s[i] == s[s.len() - 1]);
                }
            }
            lemma_push_no_dups(without(p, x), s.last());
        } else if no_dups(s) {
            assert(no_dups(p)) by {
                assert forall|a: int, b: int| 0 <= a < b < p.len() implies p[a] != p[b] by {
                    assert(p[a] == s[a] && p[b] == s[b]);
                }
            }
        }
    }
}

proof fn lemma_sift(s: Seq<u64>, list: Seq<u64>, inside: bool)
    ensures
        forall|y: u64| sift(s, list, inside).contains(y) <==> (s.contains(y) && list.contains(y) == inside),
        no_dups(s) ==> no_dups(sift(s, list, inside)),
    decreases s.len(),
{
    if s.len() > 0 {
        let p = s.drop_last();
        lemma_sift(p, list, inside);
        assert(s =~= p.push(s.last()));
        assert forall|y: u64|
            sift(s, list, inside).contains(y) <==> (s.contains(y) && list.contains(y) == inside) by {
            lemma_push_contains(p, s.last(), y);
            lemma_push_contains(sift(p, list, inside), s.last(), y);
        }
        if no_dups(s) {
            assert(no_dups(p)) by {
                assert forall|a: int, b: int| 0 <= a < b < p.len() implies p[a] != p[b] by {
                    assert(p[a] == s[a] && p[b] == s[b]);
                }
            }
            if list.contains(s.last()) == inside {
                assert(!p.contains(s.last())) by {
                    if p.contains(s.last()) {
                        let i = choose|i: int| 0 <= i < p.len() && p[i] == s.last();
                        assert(s[i] == s[s.len() - 1]);
                    }
                }
                lemma_push_no_dups(sift(p, list, inside), s.last());
            }
        }
    }
}

proof fn lemma_remove(s: Seq<u64>, i: int)
    requires
        0 <= i < s.len(),
    ensures
        forall|y: u64| s.remove(i).contains(y) ==> s.contains(y),
        no_dups(s) ==> no_dups(s.remove(i)),
{
    let r = s.remove(i);
    assert forall|y: u64| r.contains(y) implies s.contains(y) by {
        let a = choose|a: int| 0 <= a < r.len() && r[a] == y;
        if a < i {
            assert(s[a] == y);
        } else {
            assert(s[a + 1] == y);
        }
    }
    if no_dups(s) {
        assert forall|a: int, b: int| 0 <= a < b < r.len() implies r[a] != r[b] by {
            let a1 = if a < i { a } else { a + 1 };
            let b1 = if b < i { b } else { b + 1 };
            assert(r[a] == s[a1] && r[b] == s[b1]);
        }
    }
}

proof fn lemma_find(gs: Seq<GroupV>, id: u64)
    ensures
        find(gs, id) matches Some(k) ==> 0 <= k < gs.len() && gs[k].id == id,
        find(gs, id) is None ==> forall|k: int| 0 <= k < gs.len() ==> gs[k].id != id,
    decreases gs.len(),
{
    if gs.len() > 0 {
        lemma_find(gs.drop_last(), id);
        assert forall|k: int| 0 <= k < gs.len() - 1 implies gs[k] == gs.drop_last()[k] by {}
    }
}

proof fn lemma_holder(gs: Seq<GroupV>, scope: GroupScope, d: u64)
    ensures
        holder(gs, scope, d) matches Some(k) ==> 0 <= k < gs.len() && gs[k].scope == scope
            && gs[k].members.contains(d),
        holder(gs, scope, d) is None ==> forall|k: int|
            0 <= k < gs.len() && gs[k].scope == scope ==> !#[trigger] gs[k].members.contains(d),
    decreases gs.len(),
{
    if gs.len() > 0 {
        lemma_holder(gs.drop_last(), scope, d);
        assert forall|k: int| 0 <= k < gs.len() - 1 implies gs[k] == gs.drop_last()[k] by {}
    }
}

proof fn lemma_place(s: Seq<u64>, x: u64)
    ensures
        place(s, x) matches Some(i) ==> 0 <= i < s.len(),
    decreases s.len(),
{
    if s.len() > 0 {
        lemma_place(s.drop_last(), x);
    }
}

proof fn lemma_all_free(gs: Seq<GroupV>, sd: Seq<(GroupScope, Seq<u64>)>, scope: GroupScope, ms: Seq<u64>)
    requires
        all_free(gs, sd, scope, ms) is Ok,
    ensures
        forall|x: u64| ms.contains(x) ==> holder(gs, scope, x) is None,
    decreases ms.len(),
{
    if ms.len() > 0 {
        lemma_all_free(gs, sd, scope, ms.drop_first());
        assert(free(gs, sd, scope, ms[0], None) is Ok);
        assert forall|x: u64| ms.contains(x) implies holder(gs, scope, x) is None by {
            let i = choose|i: int| 0 <= i < ms.len() && ms[i] == x;
            if i > 0 {
                assert(ms.drop_first()[i - 1] == x);
                assert(ms.drop_first().contains(x));
            } else {
                assert(ms[0] == x);
                if holder(gs, scope, x) is Some {
                    assert(free(gs, sd, scope, x, None) is Err);
                }
            }
        }
    }
}

proof fn lemma_first_missing(list: Seq<u64>, s: Seq<u64>)
    requires
        first_missing(list, s) is None,
    ensures
        forall|x: u64| list.contains(x) ==> s.contains(x),
    decreases list.len(),
{
    if list.len() > 0 {
        lemma_first_missing(list.drop_first(), s);
        assert forall|x: u64| list.contains(x) implies s.contains(x) by {
            let i = choose|i: int| 0 <= i < list.len() && list[i] == x;
            if i > 0 {
                assert(list.drop_first()[i - 1] == x);
            }
        }
    }
}

/// Every group edit keeps the table's invariant: ids stay ordered and
/// below the next one, no group lists a member twice, and a relationship
/// stays in at most one group of its scope.
#[verifier::rlimit(60)]
pub proof fn lemma_group_edit_keeps_invariant(
    gs: Seq<GroupV>,
    next: u64,
    sd: Seq<(GroupScope, Seq<u64>)>,
    op: GroupEditOp,
)
    requires
        table_wf(gs, next),
        next < u64::MAX,
        spec_group_edit(gs, next, sd, op) is Ok,
    ensures
        table_wf(spec_group_edit(gs, next, sd, op)->Ok_0.groups, spec_group_edit(gs, next, sd, op)->Ok_0.next),
{
    let e = spec_group_edit(gs, next, sd, op)->Ok_0;
    match op {
        GroupEditOp::CreateGroup { scope, name, description, members } => {
            lemma_all_free(gs, sd, scope, members@);
            lemma_dedup(members@);
            let ng = e.groups;
            let n = gs.len() as int;
            assert(ng.len() == n + 1);
            assert(ng[n].members == dedup(members@) && ng[n].scope == scope && ng[n].id == next);
            assert forall|i: int| 0 <= i < n implies ng[i] == gs[i] by {}
            assert forall|i: int, j: int| 0 <= i < j < ng.len() implies ng[i].id < ng[j].id by {
                if j < n {
                    assert(ng[i] == gs[i] && ng[j] == gs[j]);
                } else {
                    assert(ng[i] == gs[i]);
                }
            }
            assert forall|i: int| 0 <= i < ng.len() implies ng[i].id < e.next by {
                if i < n {
                    assert(ng[i] == gs[i]);
                }
            }
            assert forall|i: int| 0 <= i < ng.len() implies no_dups(#[trigger] ng[i].members) by {
                if i < n {
                    assert(ng[i] == gs[i]);
                }
            }
            assert forall|i: int, j: int, d: u64|
                0 <= i < ng.len() && 0 <= j < ng.len() && i != j && ng[i].scope == ng[j].scope
                    && #[trigger] ng[i].members.contains(d) implies !#[trigger] ng[j].members.contains(d) by {
                lemma_holder(gs, scope, d);
                if i == n {
                    assert(members@.contains(d));
                    assert(ng[j] == gs[j]);
                    assert(!gs[j].members.contains(d));
                } else if j == n {
                    assert(ng[i] == gs[i]);
                    if ng[j].members.contains(d) {
                        assert(members@.contains(d));
                        assert(!gs[i].members.contains(d));
                    }
                } else {
                    assert(ng[i] == gs[i] && ng[j] == gs[j]);
                }
            }
            assert(table_wf(ng, e.next));
            assert(table_wf(e.groups, e.next));
        },
        GroupEditOp::RenameGroup { id, name } => {
            lemma_find(gs, id.0);
            let ng = e.groups;
            assert forall|i: int| 0 <= i < gs.len() implies ng[i].id == gs[i].id && ng[i].scope == gs[i].scope
                && ng[i].members == gs[i].members by {}
            assert(table_wf(e.groups, e.next));
        },
        GroupEditOp::SetGroupDescription { id, description } => {
            lemma_find(gs, id.0);
            let ng = e.groups;
            assert forall|i: int| 0 <= i < gs.len() implies ng[i].id == gs[i].id && ng[i].scope == gs[i].scope
                && ng[i].members == gs[i].members by {}
            assert(table_wf(e.groups, e.next));
        },
        GroupEditOp::DeleteGroup { id } => {
            lemma_find(gs, id.0);
            let k = find(gs, id.0)->0;
            let ng = e.groups;
            assert forall|i: int| 0 <= i < ng.len() implies ng[i] == gs[if i < k { i } else { i + 1 }] by {}
            assert forall|i: int, j: int| 0 <= i < j < ng.len() implies ng[i].id < ng[j].id by {
                assert(ng[i] == gs[if i < k { i } else { i + 1 }]);
                assert(ng[j] == gs[if j < k { j } else { j + 1 }]);
            }
            assert forall|i: int| 0 <= i < ng.len() implies no_dups(#[trigger] ng[i].members) by {
                assert(ng[i] == gs[if i < k { i } else { i + 1 }]);
            }
            assert forall|i: int, j: int, d: u64|
                0 <= i < ng.len() && 0 <= j < ng.len() && i != j && ng[i].scope == ng[j].scope
                    && #[trigger] ng[i].members.contains(d) implies !#[trigger] ng[j].members.contains(d) by {
                assert(ng[i] == gs[if i < k { i } else { i + 1 }]);
                assert(ng[j] == gs[if j < k { j } else { j + 1 }]);
            }
            assert(table_wf(e.groups, e.next));
        },
        GroupEditOp::AddMember { group, decl } => {
            lemma_find(gs, group.0);
            let k = find(gs, group.0)->0;
            lemma_holder(gs, gs[k].scope, decl);
            if !gs[k].members.contains(decl) {
                let ng = e.groups;
                lemma_push_no_dups(gs[k].members, decl);
                assert forall|i: int, j: int, d: u64|
                    0 <= i < ng.len() && 0 <= j < ng.len() && i != j && ng[i].scope == ng[j].scope
                        && #[trigger] ng[i].members.contains(d) implies !#[trigger] ng[j].members.contains(d) by {
                    lemma_push_contains(gs[k].members, decl, d);
                    if d == decl && (i == k || j == k) {
                        match holder(gs, gs[k].scope, decl) {
                            Some(h) => {
                                lemma_holder(gs, gs[k].scope, decl);
                                assert(gs[h].id == group.0);
                                if h != k {
                                    assert(gs[h].id != gs[k].id);
                                }
                            },
                            None => {},
                        }
                    }
                }
            }
            assert(table_wf(e.groups, e.next));
        },
        GroupEditOp::RemoveMember { group, decl } => {
            lemma_find(gs, group.0);
            let k = find(gs, group.0)->0;
            lemma_place(gs[k].members, decl);
            let i0 = place(gs[k].members, decl)->0;
            assert(no_dups(gs[k].members));
            lemma_remove(gs[k].members, i0);
            let ng = e.groups;
            assert(ng[k].members == gs[k].members.remove(i0));
            assert forall|x: int| 0 <= x < ng.len() implies no_dups(#[trigger] ng[x].members) by {
                if x != k {
                    assert(ng[x] == gs[x]);
                }
            }
            assert forall|x: int, y: u64|
                0 <= x < ng.len() && #[trigger] ng[x].members.contains(y) implies gs[x].members.contains(y) by {
                if x != k {
                    assert(ng[x] == gs[x]);
                }
            }
            assert forall|i: int, j: int, d: u64|
                0 <= i < ng.len() && 0 <= j < ng.len() && i != j && ng[i].scope == ng[j].scope
                    && #[trigger] ng[i].members.contains(d) implies !#[trigger] ng[j].members.contains(d) by {
                if ng[j].members.contains(d) {
                    assert(gs[i].members.contains(d) && gs[j].members.contains(d));
                }
            }
            assert(table_wf(e.groups, e.next));
        },
        GroupEditOp::MoveMember { decl, to } => {
            lemma_find(gs, to.0);
            let k = find(gs, to.0)->0;
            let scope = gs[k].scope;
            lemma_holder(gs, scope, decl);
            assert(no_dups(gs[k].members));
            match holder(gs, scope, decl) {
                Some(h) => {
                    if gs[h].id != to.0 {
                        assert(h != k);
                        assert(no_dups(gs[h].members));
                        lemma_without(gs[h].members, decl);
                        assert(!gs[k].members.contains(decl));
                        lemma_push_no_dups(gs[k].members, decl);
                        let ng = e.groups;
                        assert(ng.len() == gs.len());
                        assert(ng[h].members == without(gs[h].members, decl));
                        assert(ng[k].members == gs[k].members.push(decl));
                        assert forall|x: int| 0 <= x < ng.len() implies ng[x].id == gs[x].id && ng[x].scope
                            == gs[x].scope by {}
                        assert forall|x: int, y: u64|
                            0 <= x < ng.len() && #[trigger] ng[x].members.contains(y) implies gs[x].members.contains(
                                y,
                            ) || (x == k && y == decl) by {
                            lemma_push_contains(gs[k].members, decl, y);
                            if x != h && x != k {
                                assert(ng[x] == gs[x]);
                            }
                        }
                        assert forall|x: int| 0 <= x < ng.len() implies no_dups(#[trigger] ng[x].members) by {
                            if x != h && x != k {
                                assert(ng[x] == gs[x]);
                            }
                        }
                        assert forall|i: int, j: int, d: u64|
                            0 <= i < ng.len() && 0 <= j < ng.len() && i != j && ng[i].scope == ng[j].scope
                                && #[trigger] ng[i].members.contains(d) implies !#[trigger] ng[j].members.contains(
                                d,
                            ) by {
                            if ng[j].members.contains(d) {
                                if gs[i].members.contains(d) && gs[j].members.contains(d) {
                                } else if i == k && d == decl {
                                    assert(gs[j].members.contains(decl));
                                    if j != h {
                                        assert(gs[h].members.contains(decl));
                                    }
                                } else {
                                    assert(j == k && d == decl);
                                    assert(gs[i].members.contains(decl));
                                    if i != h {
                                        assert(gs[h].members.contains(decl));
                                    }
                                }
                            }
                        }
                    }
                },
                None => {
                    lemma_push_no_dups(gs[k].members, decl);
                    let ng = e.groups;
                    assert(ng == gs.update(k, with_members(gs[k], gs[k].members.push(decl))));
                    assert forall|x: int| 0 <= x < ng.len() implies no_dups(#[trigger] ng[x].members) by {
                        if x != k {
                            assert(ng[x] == gs[x]);
                        }
                    }
                    assert forall|i: int, j: int, d: u64|
                        0 <= i < ng.len() && 0 <= j < ng.len() && i != j && ng[i].scope == ng[j].scope
                            && #[trigger] ng[i].members.contains(d) implies !#[trigger] ng[j].members.contains(d) by {
                        lemma_push_contains(gs[k].members, decl, d);
                        if i != k {
                            assert(ng[i] == gs[i]);
                        }
                        if j != k {
                            assert(ng[j] == gs[j]);
                        }
                    }
                },
            }
            assert(table_wf(e.groups, e.next));
        },
        GroupEditOp::MergeGroups { into, from } => {
            lemma_find(gs, into.0);
            lemma_find(gs, from.0);
            let ki = find(gs, into.0)->0;
            let kf = find(gs, from.0)->0;
            assert(ki != kf);
            lemma_join(gs[ki].members, gs[kf].members);
            let mid = gs.update(ki, with_members(gs[ki], join(gs[ki].members, gs[kf].members)));
            let ng = e.groups;
            assert(ng == mid.remove(kf));
            assert forall|i: int| 0 <= i < ng.len() implies ng[i] == mid[if i < kf { i } else { i + 1 }] by {}
            assert forall|i: int, j: int| 0 <= i < j < ng.len() implies ng[i].id < ng[j].id by {
                assert(ng[i] == mid[if i < kf { i } else { i + 1 }]);
                assert(ng[j] == mid[if j < kf { j } else { j + 1 }]);
            }
            assert forall|i: int| 0 <= i < ng.len() implies ng[i].id < e.next by {
                assert(ng[i] == mid[if i < kf { i } else { i + 1 }]);
            }
            assert forall|i: int| 0 <= i < ng.len() implies no_dups(#[trigger] ng[i].members) by {
                assert(ng[i] == mid[if i < kf { i } else { i + 1 }]);
            }
            assert forall|i: int, j: int, d: u64|
                0 <= i < ng.len() && 0 <= j < ng.len() && i != j && ng[i].scope == ng[j].scope
                    && #[trigger] ng[i].members.contains(d) implies !#[trigger] ng[j].members.contains(d) by {
                let i1 = if i < kf { i } else { i + 1 };
                let j1 = if j < kf { j } else { j + 1 };
                assert(ng[i] == mid[i1]);
                assert(ng[j] == mid[j1]);
                if i1 == ki {
                    if gs[kf].members.contains(d) {
                        assert(!gs[j1].members.contains(d));
                    }
                } else if j1 == ki {
                    if gs[kf].members.contains(d) {
                        assert(!gs[i1].members.contains(d));
                    }
                }
            }
            assert(table_wf(e.groups, e.next));
        },
        GroupEditOp::SplitGroup { id, name, members } => {
            lemma_find(gs, id.0);
            let k = find(gs, id.0)->0;
            assert(no_dups(gs[k].members));
            lemma_sift(gs[k].members, members@, true);
            lemma_sift(gs[k].members, members@, false);
            let ng = e.groups;
            let n = gs.len() as int;
            assert(ng.len() == n + 1);
            assert(ng[n].members == sift(gs[k].members, members@, true) && ng[n].scope == gs[k].scope
                && ng[n].id == next);
            assert(ng[k].members == sift(gs[k].members, members@, false));
            assert forall|x: int| 0 <= x < n && x != k implies ng[x] == gs[x] by {}
            assert forall|x: int| 0 <= x < n implies ng[x].id == gs[x].id && ng[x].scope == gs[x].scope by {}
            assert forall|i: int, j: int| 0 <= i < j < ng.len() implies ng[i].id < ng[j].id by {
                if j < n {
                    assert(gs[i].id < gs[j].id);
                } else {
                    assert(gs[i].id < next);
                }
            }
            assert forall|i: int| 0 <= i < ng.len() implies ng[i].id < e.next by {
                if i < n {
                    assert(gs[i].id < next);
                }
            }
            assert forall|x: int| 0 <= x < ng.len() implies no_dups(#[trigger] ng[x].members) by {
                if x < n && x != k {
                    assert(ng[x] == gs[x]);
                }
            }
            assert forall|x: int, y: u64|
                0 <= x < n && #[trigger] ng[x].members.contains(y) implies gs[x].members.contains(y) by {
                if x != k {
                    assert(ng[x] == gs[x]);
                }
            }
            assert forall|i: int, j: int, d: u64|
                0 <= i < ng.len() && 0 <= j < ng.len() && i != j && ng[i].scope == ng[j].scope
                    && #[trigger] ng[i].members.contains(d) implies !#[trigger] ng[j].members.contains(d) by {
                if ng[j].members.contains(d) {
                    if i == n {
                        assert(gs[k].members.contains(d) && members@.contains(d));
                        assert(gs[j].members.contains(d));
                        assert(j != k);
                    } else if j == n {
                        assert(gs[k].members.contains(d) && members@.contains(d));
                        assert(gs[i].members.contains(d));
                        assert(i != k);
                    } else {
                        assert(gs[i].members.contains(d) && gs[j].members.contains(d));
                    }
                }
            }
            assert(table_wf(e.groups, e.next));
        },
    }
}

/// The edits applied in order from `gs` (next id `next`); a refused edit
/// leaves the groups as they are.
pub open spec fn edits_from(gs: Seq<GroupV>, next: u64, sd: Seq<(GroupScope, Seq<u64>)>, ops: Seq<
    GroupEditOp,
>) -> (Seq<GroupV>, u64)
    decreases ops.len(),
{
    if ops.len() == 0 {
        (gs, next)
    } else {
        let (g1, n1) = edits_from(gs, next, sd, ops.drop_last());
        match spec_group_edit(g1, n1, sd, ops.last()) {
            Ok(e) => (e.groups, e.next),
            Err(_) => (g1, n1),
        }
    }
}

/// No relationship is in two groups of one scope.
pub open spec fn exclusive(gs: Seq<GroupV>) -> bool {
    forall|i: int, j: int, d: u64|
        0 <= i < gs.len() && 0 <= j < gs.len() && i != j && gs[i].scope == gs[j].scope
            && #[trigger] gs[i].members.contains(d) ==> !#[trigger] gs[j].members.contains(d)
}

proof fn lemma_edit_next(gs: Seq<GroupV>, next: u64, sd: Seq<(GroupScope, Seq<u64>)>, op: GroupEditOp)
    requires
        next < u64::MAX,
        spec_group_edit(gs, next, sd, op) is Ok,
    ensures
        spec_group_edit(gs, next, sd, op)->Ok_0.next <= next + 1,
{
}

proof fn lemma_edits_from_empty(sd: Seq<(GroupScope, Seq<u64>)>, ops: Seq<GroupEditOp>)
    requires
        ops.len() < u64::MAX,
    ensures
        table_wf(edits_from(Seq::empty(), 0, sd, ops).0, edits_from(Seq::empty(), 0, sd, ops).1),
        edits_from(Seq::empty(), 0, sd, ops).1 <= ops.len(),
    decreases ops.len(),
{
    if ops.len() > 0 {
        lemma_edits_from_empty(sd, ops.drop_last());
        let (g1, n1) = edits_from(Seq::empty(), 0, sd, ops.drop_last());
        if spec_group_edit(g1, n1, sd, ops.last()) is Ok {
            lemma_group_edit_keeps_invariant(g1, n1, sd, ops.last());
            lemma_edit_next(g1, n1, sd, ops.last());
        }
    }
}

/// Whatever group edits a system receives from an empty group table, a
/// relationship is never in two groups of one scope.
pub proof fn lemma_edits_keep_groups_exclusive(sd: Seq<(GroupScope, Seq<u64>)>, ops: Seq<GroupEditOp>)
    requires
        ops.len() < u64::MAX,
    ensures
        exclusive(edits_from(Seq::empty(), 0, sd, ops).0),
{
    lemma_edits_from_empty(sd, ops);
}

// ---- what each edit does ------------------------------------------------------------

/// Renaming gives the named group the trimmed new name, a name no other
/// group of its scope has, and leaves everything else as it was.
pub proof fn lemma_rename_group(
    gs: Seq<GroupV>,
    next: u64,
    sd: Seq<(GroupScope, Seq<u64>)>,
    id: BehaviorGroupId,
    name: String,
)
    requires
        spec_group_edit(gs, next, sd, GroupEditOp::RenameGroup { id, name }) is Ok,
    ensures
        ({
            let e = spec_group_edit(gs, next, sd, GroupEditOp::RenameGroup { id, name })->Ok_0;
            &&& e.next == next
            &&& e.created is None
            &&& e.touched == set![id.0]
            &&& e.groups.len() == gs.len()
            &&& exists|k: int|
                0 <= k < gs.len() && #[trigger] gs[k].id == id.0 && e.groups[k].id == id.0
                    && e.groups[k].scope == gs[k].scope && e.groups[k].name == trim(name@)
                    && e.groups[k].description == gs[k].description && e.groups[k].members
                    == gs[k].members && (forall|j: int|
                    0 <= j < gs.len() && j != k ==> #[trigger] e.groups[j] == gs[j]) && (forall|j: int|
                    0 <= j < gs.len() && gs[j].id != id.0 && gs[j].scope == gs[k].scope ==> #[trigger] gs[j].name
                        != trim(name@))
        }),
{
    lemma_find(gs, id.0);
    let k = find(gs, id.0)->0;
    let e = spec_group_edit(gs, next, sd, GroupEditOp::RenameGroup { id, name })->Ok_0;
    assert(e.groups[k].name == trim(name@));
    assert forall|j: int| 0 <= j < gs.len() && gs[j].id != id.0 && gs[j].scope == gs[k].scope implies #[trigger] gs[j].name
        != trim(name@) by {
        if gs[j].name == trim(name@) {
            assert(gs[j].scope == gs[k].scope && gs[j].name == trim(name@) && Some(gs[j].id) != Some(id.0));
            assert(name_taken(gs, gs[k].scope, trim(name@), Some(id.0)));
        }
    }
    assert(gs[k].id == id.0);
}

/// Setting a description changes that group's description only.
pub proof fn lemma_set_description(
    gs: Seq<GroupV>,
    next: u64,
    sd: Seq<(GroupScope, Seq<u64>)>,
    id: BehaviorGroupId,
    description: String,
)
    requires
        spec_group_edit(gs, next, sd, GroupEditOp::SetGroupDescription { id, description }) is Ok,
    ensures
        ({
            let e = spec_group_edit(gs, next, sd, GroupEditOp::SetGroupDescription { id, description })->Ok_0;
            &&& e.next == next
            &&& e.created is None && e.touched == set![id.0]
            &&& e.groups.len() == gs.len()
            &&& exists|k: int|
                0 <= k < gs.len() && #[trigger] gs[k].id == id.0 && e.groups[k].id == id.0
                    && e.groups[k].scope == gs[k].scope && e.groups[k].name == gs[k].name
                    && e.groups[k].description == description@ && e.groups[k].members == gs[k].members
                    && forall|j: int| 0 <= j < gs.len() && j != k ==> #[trigger] e.groups[j] == gs[j]
        }),
{
    lemma_find(gs, id.0);
    let k = find(gs, id.0)->0;
    assert(gs[k].id == id.0);
}

/// Deleting removes the group with that identity and keeps every other
/// group, in order.
pub proof fn lemma_delete_group(gs: Seq<GroupV>, next: u64, sd: Seq<(GroupScope, Seq<u64>)>, id: BehaviorGroupId)
    requires
        spec_group_edit(gs, next, sd, GroupEditOp::DeleteGroup { id }) is Ok,
    ensures
        ({
            let e = spec_group_edit(gs, next, sd, GroupEditOp::DeleteGroup { id })->Ok_0;
            &&& e.next == next
            &&& e.created is None && e.touched == set![id.0]
            &&& e.groups.len() + 1 == gs.len()
            &&& exists|k: int|
                0 <= k < gs.len() && #[trigger] gs[k].id == id.0 && (forall|j: int|
                    0 <= j < k ==> #[trigger] e.groups[j] == gs[j]) && (forall|j: int|
                    k < j < gs.len() ==> e.groups[j - 1] == #[trigger] gs[j])
        }),
{
    lemma_find(gs, id.0);
    let k = find(gs, id.0)->0;
    assert(gs[k].id == id.0);
}

/// Adding a member gives the group exactly its old members and the new one
/// (once), a relationship of the group's scope held by no other group of
/// that scope; the other groups stay as they were.
pub proof fn lemma_add_member(
    gs: Seq<GroupV>,
    next: u64,
    sd: Seq<(GroupScope, Seq<u64>)>,
    group: BehaviorGroupId,
    decl: u64,
)
    requires
        spec_group_edit(gs, next, sd, GroupEditOp::AddMember { group, decl }) is Ok,
    ensures
        ({
            let e = spec_group_edit(gs, next, sd, GroupEditOp::AddMember { group, decl })->Ok_0;
            &&& e.next == next
            &&& e.created is None && e.touched == set![group.0]
            &&& e.groups.len() == gs.len()
            &&& exists|k: int|
                0 <= k < gs.len() && #[trigger] gs[k].id == group.0 && e.groups[k].id == group.0
                    && e.groups[k].scope == gs[k].scope && (scope_decls(sd, gs[k].scope) matches Some(
                    ds,
                ) && ds.contains(decl)) && (forall|x: u64|
                    #[trigger] e.groups[k].members.contains(x) <==> gs[k].members.contains(x) || x
                        == decl) && (forall|j: int|
                    0 <= j < gs.len() && j != k ==> #[trigger] e.groups[j] == gs[j]) && (exclusive(gs)
                    ==> forall|j: int|
                    0 <= j < gs.len() && gs[j].scope == gs[k].scope && #[trigger] gs[j].members.contains(
                        decl,
                    ) ==> gs[j].id == group.0)
        }),
{
    lemma_find(gs, group.0);
    let k = find(gs, group.0)->0;
    let e = spec_group_edit(gs, next, sd, GroupEditOp::AddMember { group, decl })->Ok_0;
    assert(gs[k].id == group.0);
    lemma_holder(gs, gs[k].scope, decl);
    assert forall|x: u64| #[trigger] e.groups[k].members.contains(x) <==> gs[k].members.contains(x) || x
        == decl by {
        lemma_push_contains(gs[k].members, decl, x);
    }
    assert forall|j: int|
        exclusive(gs) && 0 <= j < gs.len() && gs[j].scope == gs[k].scope && #[trigger] gs[j].members.contains(decl)
            implies gs[j].id == group.0 by {
        if exclusive(gs) {
            lemma_holder(gs, gs[k].scope, decl);
            lemma_holder_first(gs, gs[k].scope, decl, j);
            let h = holder(gs, gs[k].scope, decl)->0;
            assert(gs[h].members.contains(decl));
            if h != j {
                assert(!gs[j].members.contains(decl));
            }
        }
    }
}

/// The first holder comes first: any group of the scope holding the
/// relationship is at or after it.
proof fn lemma_holder_first(gs: Seq<GroupV>, scope: GroupScope, d: u64, j: int)
    requires
        0 <= j < gs.len(),
        gs[j].scope == scope,
        gs[j].members.contains(d),
    ensures
        holder(gs, scope, d) matches Some(h) && h <= j,
    decreases gs.len(),
{
    if j < gs.len() - 1 {
        assert(gs.drop_last()[j] == gs[j]);
        lemma_holder_first(gs.drop_last(), scope, d, j);
    } else {
        match holder(gs.drop_last(), scope, d) {
            Some(h) => {
                lemma_holder(gs.drop_last(), scope, d);
            },
            None => {},
        }
    }
}

/// Creating adds one group at the end with the next identity, the given
/// scope, the trimmed name and description, and each given relationship
/// once; each is a relationship of that scope held by no group of it.
pub proof fn lemma_create_group(
    gs: Seq<GroupV>,
    next: u64,
    sd: Seq<(GroupScope, Seq<u64>)>,
    scope: GroupScope,
    name: String,
    description: String,
    members: Vec<u64>,
)
    requires
        next < u64::MAX,
        spec_group_edit(gs, next, sd, GroupEditOp::CreateGroup { scope, name, description, members })
            is Ok,
    ensures
        ({
            let e = spec_group_edit(
                gs,
                next,
                sd,
                GroupEditOp::CreateGroup { scope, name, description, members },
            )->Ok_0;
            let g = e.groups[gs.len() as int];
            &&& e.next == next + 1
            &&& e.created == Some(next)
            &&& e.touched == set![next]
            &&& e.groups.len() == gs.len() + 1
            &&& forall|j: int| 0 <= j < gs.len() ==> #[trigger] e.groups[j] == gs[j]
            &&& g.id == next && g.scope == scope && g.name == trim(name@) && g.description
                == description@
            &&& no_dups(g.members)
            &&& forall|x: u64| #[trigger] g.members.contains(x) <==> members@.contains(x)
            &&& forall|x: u64|
                #[trigger] members@.contains(x) ==> (scope_decls(sd, scope) matches Some(ds)
                    && ds.contains(x)) && forall|j: int|
                    0 <= j < gs.len() && gs[j].scope == scope ==> !#[trigger] gs[j].members.contains(x)
        }),
{
    lemma_dedup(members@);
    lemma_all_free(gs, sd, scope, members@);
    assert forall|x: u64|
        #[trigger] members@.contains(x) implies (scope_decls(sd, scope) matches Some(ds) && ds.contains(x))
            && forall|j: int|
            0 <= j < gs.len() && gs[j].scope == scope ==> !#[trigger] gs[j].members.contains(x) by {
        lemma_holder(gs, scope, x);
        lemma_all_free_scoped(gs, sd, scope, members@, x);
    }
}

proof fn lemma_all_free_scoped(
    gs: Seq<GroupV>,
    sd: Seq<(GroupScope, Seq<u64>)>,
    scope: GroupScope,
    ms: Seq<u64>,
    x: u64,
)
    requires
        all_free(gs, sd, scope, ms) is Ok,
        ms.contains(x),
    ensures
        scope_decls(sd, scope) matches Some(ds) && ds.contains(x),
    decreases ms.len(),
{
    let i = choose|i: int| 0 <= i < ms.len() && ms[i] == x;
    if i > 0 {
        assert(ms.drop_first()[i - 1] == x);
        lemma_all_free_scoped(gs, sd, scope, ms.drop_first(), x);
    } else {
        assert(free(gs, sd, scope, ms[0], None) is Ok);
        assert(scoped(sd, scope, x) is Ok);
    }
}

/// Removing a member takes one occurrence of it out of that group (so,
/// with no member listed twice, it is no longer there) and keeps the rest.
pub proof fn lemma_remove_member(
    gs: Seq<GroupV>,
    next: u64,
    sd: Seq<(GroupScope, Seq<u64>)>,
    group: BehaviorGroupId,
    decl: u64,
)
    requires
        spec_group_edit(gs, next, sd, GroupEditOp::RemoveMember { group, decl }) is Ok,
    ensures
        ({
            let e = spec_group_edit(gs, next, sd, GroupEditOp::RemoveMember { group, decl })->Ok_0;
            &&& e.groups.len() == gs.len()
            &&& e.created is None && e.touched == set![group.0]
            &&& exists|k: int|
                0 <= k < gs.len() && #[trigger] gs[k].id == group.0 && gs[k].members.contains(decl)
                    && e.groups[k].members.len() + 1 == gs[k].members.len() && (forall|x: u64|
                    x != decl ==> (#[trigger] e.groups[k].members.contains(x) <==> gs[k].members.contains(
                        x,
                    ))) && (no_dups(gs[k].members) ==> !e.groups[k].members.contains(decl))
                    && e.groups[k].id == gs[k].id && e.groups[k].scope == gs[k].scope && e.groups[k].name
                    == gs[k].name && (forall|j: int|
                    0 <= j < gs.len() && j != k ==> #[trigger] e.groups[j] == gs[j])
        }),
{
    lemma_find(gs, group.0);
    let k = find(gs, group.0)->0;
    let ms = gs[k].members;
    lemma_place_found(ms, decl);
    let i = place(ms, decl)->0;
    let r = ms.remove(i);
    assert(gs[k].id == group.0);
    assert(ms.contains(decl)) by {
        assert(ms[i] == decl);
    }
    assert forall|x: u64| x != decl implies (#[trigger] r.contains(x) <==> ms.contains(x)) by {
        if ms.contains(x) {
            let a = choose|a: int| 0 <= a < ms.len() && ms[a] == x;
            if a < i {
                assert(r[a] == x);
            } else {
                assert(a != i);
                assert(r[a - 1] == x);
            }
        }
        if r.contains(x) {
            let a = choose|a: int| 0 <= a < r.len() && r[a] == x;
            if a < i {
                assert(ms[a] == x);
            } else {
                assert(ms[a + 1] == x);
            }
        }
    }
    if no_dups(ms) && r.contains(decl) {
        let a = choose|a: int| 0 <= a < r.len() && r[a] == decl;
        if a < i {
            assert(ms[a] == decl);
        } else {
            assert(ms[a + 1] == decl);
        }
    }
}

proof fn lemma_place_found(s: Seq<u64>, x: u64)
    ensures
        place(s, x) matches Some(i) ==> 0 <= i < s.len() && s[i] == x,
    decreases s.len(),
{
    if s.len() > 0 {
        lemma_place_found(s.drop_last(), x);
    }
}

/// Moving a member puts it in the target group (of whose scope it is a
/// relationship), takes it out of the group that held it, and changes no
/// other membership; on a valid table no other group of the scope holds
/// it afterwards.
pub proof fn lemma_move_member(
    gs: Seq<GroupV>,
    next: u64,
    sd: Seq<(GroupScope, Seq<u64>)>,
    decl: u64,
    to: BehaviorGroupId,
)
    requires
        spec_group_edit(gs, next, sd, GroupEditOp::MoveMember { decl, to }) is Ok,
    ensures
        ({
            let e = spec_group_edit(gs, next, sd, GroupEditOp::MoveMember { decl, to })->Ok_0;
            &&& e.groups.len() == gs.len()
            &&& e.next == next
            &&& exists|k: int|
                0 <= k < gs.len() && #[trigger] gs[k].id == to.0 && e.groups[k].members.contains(decl)
                    && (scope_decls(sd, gs[k].scope) matches Some(ds) && ds.contains(decl))
                    && (forall|j: int|
                    0 <= j < gs.len() ==> #[trigger] e.groups[j].id == gs[j].id && e.groups[j].scope
                        == gs[j].scope && e.groups[j].name == gs[j].name) && (forall|j: int, x: u64|
                    0 <= j < gs.len() && x != decl ==> (#[trigger] e.groups[j].members.contains(x)
                        <==> gs[j].members.contains(x))) && (table_wf(gs, next) ==> forall|j: int|
                    0 <= j < gs.len() && j != k && gs[j].scope == gs[k].scope
                        ==> !#[trigger] e.groups[j].members.contains(decl))
        }),
{
    lemma_find(gs, to.0);
    let k = find(gs, to.0)->0;
    let scope = gs[k].scope;
    let e = spec_group_edit(gs, next, sd, GroupEditOp::MoveMember { decl, to })->Ok_0;
    assert(gs[k].id == to.0);
    lemma_holder(gs, scope, decl);
    match holder(gs, scope, decl) {
        Some(h) => {
            if gs[h].id == to.0 {
                assert(e.groups == gs);
                if table_wf(gs, next) {
                    if h != k {
                        assert(gs[h].id == gs[k].id);
                        if h < k {
                            assert(gs[h].id < gs[k].id);
                        } else {
                            assert(gs[k].id < gs[h].id);
                        }
                    }
                }
                if table_wf(gs, next) {
                    assert(e.groups[k].members.contains(decl));
                } else {
                    assert(gs[h].scope == scope);
                    assert(e.groups[h].members.contains(decl));
                    assert(gs[h].id == to.0 && e.groups[h].members.contains(decl)
                        && (scope_decls(sd, gs[h].scope) matches Some(ds) && ds.contains(decl)));
                }
            } else {
                lemma_without(gs[h].members, decl);
                lemma_push_contains(gs[k].members, decl, decl);
                assert forall|j: int, x: u64|
                    0 <= j < gs.len() && x != decl implies (#[trigger] e.groups[j].members.contains(x)
                    <==> gs[j].members.contains(x)) by {
                    lemma_push_contains(gs[k].members, decl, x);
                }
            }
        },
        None => {
            assert forall|j: int, x: u64|
                0 <= j < gs.len() && x != decl implies (#[trigger] e.groups[j].members.contains(x)
                <==> gs[j].members.contains(x)) by {
                lemma_push_contains(gs[k].members, decl, x);
            }
            lemma_push_contains(gs[k].members, decl, decl);
        },
    }
    if table_wf(gs, next) && next < u64::MAX {
        lemma_group_edit_keeps_invariant(gs, next, sd, GroupEditOp::MoveMember { decl, to });
    }
    if table_wf(gs, next) {
        assert forall|j: int|
            0 <= j < gs.len() && j != k && gs[j].scope == gs[k].scope implies !#[trigger] e.groups[j].members.contains(
            decl,
        ) by {
            if e.groups[j].members.contains(decl) {
                match holder(gs, scope, decl) {
                    Some(h) => {
                        if gs[h].id == to.0 {
                            assert(e.groups == gs);
                            assert(gs[k].members.contains(decl) || h == k);
                        } else {
                            lemma_without(gs[h].members, decl);
                            if j != h {
                                assert(e.groups[j] == gs[j]);
                                assert(gs[j].members.contains(decl));
                                assert(gs[h].members.contains(decl));
                            }
                        }
                    },
                    None => {
                        assert(e.groups[j] == gs[j]);
                    },
                }
            }
        }
    }
}


proof fn lemma_join_has(a: Seq<u64>, b: Seq<u64>)
    ensures
        forall|x: u64| join(a, b).contains(x) <==> (a.contains(x) || b.contains(x)),
    decreases b.len(),
{
    if b.len() > 0 {
        let p = b.drop_last();
        lemma_join_has(a, p);
        assert(b =~= p.push(b.last()));
        assert forall|x: u64| join(a, b).contains(x) <==> (a.contains(x) || b.contains(x)) by {
            lemma_push_contains(p, b.last(), x);
            lemma_push_contains(join(a, p), b.last(), x);
        }
    }
}

/// Merging leaves one group fewer: the group `into` keeps its identity,
/// scope, name and description and holds exactly the members of both
/// groups; `from` is gone; every other group stays, in order.
pub proof fn lemma_merge_groups(
    gs: Seq<GroupV>,
    next: u64,
    sd: Seq<(GroupScope, Seq<u64>)>,
    into: BehaviorGroupId,
    from: BehaviorGroupId,
)
    requires
        spec_group_edit(gs, next, sd, GroupEditOp::MergeGroups { into, from }) is Ok,
    ensures
        ({
            let e = spec_group_edit(gs, next, sd, GroupEditOp::MergeGroups { into, from })->Ok_0;
            &&& e.next == next
            &&& e.created is None && e.touched == set![into.0, from.0]
            &&& e.groups.len() + 1 == gs.len()
            &&& into != from
            &&& exists|ki: int, kf: int|
                0 <= ki < gs.len() && 0 <= kf < gs.len() && ki != kf && #[trigger] gs[ki].id == into.0
                    && #[trigger] gs[kf].id == from.0 && gs[ki].scope == gs[kf].scope && ({
                    let m = if ki < kf { ki } else { ki - 1 };
                    &&& e.groups[m].id == into.0
                    &&& e.groups[m].scope == gs[ki].scope
                    &&& e.groups[m].name == gs[ki].name
                    &&& e.groups[m].description == gs[ki].description
                    &&& forall|x: u64|
                        #[trigger] e.groups[m].members.contains(x) <==> (gs[ki].members.contains(x)
                            || gs[kf].members.contains(x))
                }) && (forall|j: int| 0 <= j < kf && j != ki ==> #[trigger] e.groups[j] == gs[j]) && (
                forall|j: int| kf < j < gs.len() && j != ki ==> e.groups[j - 1] == #[trigger] gs[j])
        }),
{
    lemma_find(gs, into.0);
    lemma_find(gs, from.0);
    let ki = find(gs, into.0)->0;
    let kf = find(gs, from.0)->0;
    let e = spec_group_edit(gs, next, sd, GroupEditOp::MergeGroups { into, from })->Ok_0;
    lemma_join_has(gs[ki].members, gs[kf].members);
    assert(ki != kf);
    let m = if ki < kf { ki } else { ki - 1 };
    assert(e.groups[m].members == join(gs[ki].members, gs[kf].members));
    assert(gs[ki].id == into.0 && gs[kf].id == from.0);
}

/// Splitting keeps the group `id` with the members that were not listed
/// and adds, last, a fresh group under the next identity, in the same
/// scope, named by the trimmed name (not empty, unused in that scope),
/// holding exactly the listed members, each of which the group held;
/// every other group stays as it was.
pub proof fn lemma_split_group(
    gs: Seq<GroupV>,
    next: u64,
    sd: Seq<(GroupScope, Seq<u64>)>,
    id: BehaviorGroupId,
    name: String,
    members: Vec<u64>,
)
    requires
        spec_group_edit(gs, next, sd, GroupEditOp::SplitGroup { id, name, members }) is Ok,
    ensures
        ({
            let e = spec_group_edit(gs, next, sd, GroupEditOp::SplitGroup { id, name, members })->Ok_0;
            &&& e.next == (next + 1) as u64
            &&& e.created == Some(next)
            &&& e.touched == set![id.0, next]
            &&& e.groups.len() == gs.len() + 1
            &&& trim(name@).len() > 0
            &&& exists|k: int|
                0 <= k < gs.len() && #[trigger] gs[k].id == id.0 && e.groups[k].id == id.0
                    && e.groups[k].scope == gs[k].scope && e.groups[k].name == gs[k].name
                    && e.groups[k].description == gs[k].description && (forall|x: u64|
                    #[trigger] e.groups[k].members.contains(x) <==> (gs[k].members.contains(x)
                        && !members@.contains(x))) && (forall|x: u64|
                    #[trigger] members@.contains(x) ==> gs[k].members.contains(x)) && e.groups[gs.len()
                    as int].id == next && e.groups[gs.len() as int].scope == gs[k].scope
                    && e.groups[gs.len() as int].name == trim(name@)
                    && e.groups[gs.len() as int].description.len() == 0 && (forall|x: u64|
                    #[trigger] e.groups[gs.len() as int].members.contains(x) <==> members@.contains(x))
                    && (forall|j: int| 0 <= j < gs.len() && j != k ==> #[trigger] e.groups[j] == gs[j])
                    && (forall|j: int|
                    0 <= j < gs.len() && gs[j].scope == gs[k].scope ==> #[trigger] gs[j].name != trim(
                        name@,
                    ))
        }),
{
    lemma_find(gs, id.0);
    let k = find(gs, id.0)->0;
    let e = spec_group_edit(gs, next, sd, GroupEditOp::SplitGroup { id, name, members })->Ok_0;
    lemma_first_missing(members@, gs[k].members);
    lemma_sift(gs[k].members, members@, false);
    lemma_sift(gs[k].members, members@, true);
    assert(e.groups[k].members == sift(gs[k].members, members@, false));
    assert(e.groups[gs.len() as int].members == sift(gs[k].members, members@, true));
    assert forall|j: int| 0 <= j < gs.len() && gs[j].scope == gs[k].scope implies #[trigger] gs[j].name
        != trim(name@) by {
        if gs[j].name == trim(name@) {
            assert(name_taken(gs, gs[k].scope, trim(name@), None));
        }
    }
    assert(gs[k].id == id.0);
}

} // verus!
