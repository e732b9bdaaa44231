use bdl::system::group::{
    apply_group_edit, BehaviorGroup, GroupEditError, GroupEditOp, GroupScope, GroupTable, ScopeDecls,
};
use bdl::system::ids::{BehaviorGroupId, ComponentId, SystemIdAllocator};
use bdl::system::model::GroupEditOutcome;

fn designs() -> Vec<ScopeDecls> {
    vec![
        ScopeDecls { scope: GroupScope::SystemBase, decls: vec![1, 2, 3] },
        ScopeDecls {
            scope: GroupScope::Component { component: ComponentId(7) },
            decls: vec![4, 5],
        },
    ]
}

fn empty() -> GroupTable {
    GroupTable { groups: Vec::new(), ids: SystemIdAllocator::default() }
}

fn edit(t: &GroupTable, op: GroupEditOp) -> Result<(GroupTable, GroupEditOutcome), GroupEditError> {
    apply_group_edit(t, &designs(), &op)
}

fn create(t: &GroupTable, scope: GroupScope, name: &str, members: Vec<u64>) -> GroupTable {
    edit(
        t,
        GroupEditOp::CreateGroup {
            scope,
            name: name.to_string(),
            description: String::new(),
            members,
        },
    )
    .unwrap()
    .0
}

fn members(t: &GroupTable) -> Vec<(u64, Vec<u64>)> {
    t.groups.iter().map(|g: &BehaviorGroup| (g.id.0, g.members.clone())).collect()
}

#[test]
fn creating_a_group_trims_its_name_and_keeps_each_member_once() {
    let (t, o) = edit(
        &empty(),
        GroupEditOp::CreateGroup {
            scope: GroupScope::SystemBase,
            name: "  Lamp ".to_string(),
            description: "the lamp".to_string(),
            members: vec![2, 1, 2],
        },
    )
    .unwrap();
    assert_eq!(t.groups.len(), 1);
    assert_eq!(t.groups[0].name, "Lamp");
    assert_eq!(t.groups[0].description, "the lamp");
    assert_eq!(members(&t), vec![(0, vec![2, 1])]);
    assert_eq!(o.created_group, Some(BehaviorGroupId(0)));
    assert_eq!(o.groups, vec![BehaviorGroupId(0)]);
}

#[test]
fn a_relationship_is_in_at_most_one_group_of_its_scope() {
    let t = create(&empty(), GroupScope::SystemBase, "Lamp", vec![1]);
    let e = edit(
        &t,
        GroupEditOp::CreateGroup {
            scope: GroupScope::SystemBase,
            name: "Other".to_string(),
            description: String::new(),
            members: vec![1],
        },
    )
    .unwrap_err();
    assert!(matches!(e, GroupEditError::AlreadyGrouped { decl: 1, group: BehaviorGroupId(0) }));
    let e = edit(&t, GroupEditOp::AddMember { group: BehaviorGroupId(0), decl: 4 }).unwrap_err();
    assert!(matches!(e, GroupEditError::NotABaseDeclaration { decl: 4 }));
}

#[test]
fn names_are_required_and_unique_within_a_scope() {
    let t = create(&empty(), GroupScope::SystemBase, "Lamp", vec![]);
    let e = edit(
        &t,
        GroupEditOp::CreateGroup {
            scope: GroupScope::SystemBase,
            name: " Lamp".to_string(),
            description: String::new(),
            members: vec![],
        },
    )
    .unwrap_err();
    assert!(matches!(e, GroupEditError::DuplicateGroupName { ref name } if name == "Lamp"));
    let e = edit(&t, GroupEditOp::RenameGroup { id: BehaviorGroupId(0), name: "   ".to_string() })
        .unwrap_err();
    assert!(matches!(e, GroupEditError::EmptyName));
    // the same name in a component's scope is another name
    let c = GroupScope::Component { component: ComponentId(7) };
    let t = create(&t, c, "Lamp", vec![4]);
    assert_eq!(members(&t), vec![(0, vec![]), (1, vec![4])]);
    let e = edit(
        &t,
        GroupEditOp::CreateGroup {
            scope: GroupScope::Component { component: ComponentId(9) },
            name: "X".to_string(),
            description: String::new(),
            members: vec![],
        },
    )
    .unwrap_err();
    assert!(matches!(e, GroupEditError::UnknownComponent { id: ComponentId(9) }));
}

#[test]
fn moving_a_member_takes_it_from_its_group() {
    let t = create(&empty(), GroupScope::SystemBase, "A", vec![1, 2]);
    let t = create(&t, GroupScope::SystemBase, "B", vec![3]);
    let (t, o) = edit(&t, GroupEditOp::MoveMember { decl: 1, to: BehaviorGroupId(1) }).unwrap();
    assert_eq!(members(&t), vec![(0, vec![2]), (1, vec![3, 1])]);
    assert_eq!(o.groups, vec![BehaviorGroupId(0), BehaviorGroupId(1)]);
    // into the group that already holds it: nothing changes, nothing reported
    let (t2, o) = edit(&t, GroupEditOp::MoveMember { decl: 1, to: BehaviorGroupId(1) }).unwrap();
    assert_eq!(members(&t2), members(&t));
    assert!(o.groups.is_empty());
}

#[test]
fn removing_merging_and_splitting() {
    let t = create(&empty(), GroupScope::SystemBase, "A", vec![1, 2]);
    let t = create(&t, GroupScope::SystemBase, "B", vec![3]);
    let e = edit(&t, GroupEditOp::RemoveMember { group: BehaviorGroupId(0), decl: 3 }).unwrap_err();
    assert!(matches!(e, GroupEditError::NotAMember { group: BehaviorGroupId(0), decl: 3 }));
    let e = edit(&t, GroupEditOp::MergeGroups { into: BehaviorGroupId(0), from: BehaviorGroupId(0) })
        .unwrap_err();
    assert!(matches!(e, GroupEditError::SameGroup));
    let (m, o) =
        edit(&t, GroupEditOp::MergeGroups { into: BehaviorGroupId(1), from: BehaviorGroupId(0) }).unwrap();
    assert_eq!(members(&m), vec![(1, vec![3, 1, 2])]);
    assert_eq!(o.groups, vec![BehaviorGroupId(0), BehaviorGroupId(1)]);
    let (s, o) = edit(
        &t,
        GroupEditOp::SplitGroup { id: BehaviorGroupId(0), name: "C".to_string(), members: vec![2] },
    )
    .unwrap();
    assert_eq!(members(&s), vec![(0, vec![1]), (1, vec![3]), (2, vec![2])]);
    assert_eq!(o.created_group, Some(BehaviorGroupId(2)));
    let e = edit(
        &t,
        GroupEditOp::SplitGroup { id: BehaviorGroupId(0), name: "D".to_string(), members: vec![3] },
    )
    .unwrap_err();
    assert!(matches!(e, GroupEditError::NotAMember { group: BehaviorGroupId(0), decl: 3 }));
    let (d, _) = edit(&t, GroupEditOp::DeleteGroup { id: BehaviorGroupId(0) }).unwrap();
    assert_eq!(members(&d), vec![(1, vec![3])]);
    let e = edit(&d, GroupEditOp::DeleteGroup { id: BehaviorGroupId(0) }).unwrap_err();
    assert!(matches!(e, GroupEditError::UnknownGroup { id: BehaviorGroupId(0) }));
    let c = GroupScope::Component { component: ComponentId(7) };
    let t = create(&t, c, "E", vec![5]);
    let e = edit(&t, GroupEditOp::MergeGroups { into: BehaviorGroupId(0), from: BehaviorGroupId(2) })
        .unwrap_err();
    assert!(matches!(e, GroupEditError::ScopeMismatch));
}
