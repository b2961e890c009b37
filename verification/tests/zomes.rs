use holochain_roles::entry_def::{validate_by_rule, LinkDirection, Rule};
use holochain_roles::example_zome::roles::{
    assign_role, has_agent_role, is_agent_admin, new_role, role_entry_def, unassign_role, validate_new_role, Role,
};
use holochain_roles::example_zome::{custom_entry, had_agent_role, is_item_alive, validate_required_role};
use holochain_roles::roles_zome::admins::{get_initial_admins, initial_admins_from, is_agent_admin as zome_is_agent_admin, is_agent_initial_admin};
use holochain_roles::roles_zome::assignment::Assignment;
use holochain_roles::roles_zome::role::Role as ZomeRole;
use holochain_roles::roles_zome::validation::{agent_has_role, get_chain_agent_id, ChainEntry};
use holochain_roles::roles_zome::{assignment_entry_def, init, role_entry_def as zome_role_entry_def, validate_agent};
use holochain_roles::validation::{CrudStatus, HistoryItem, StoredEntry};

fn s(x: &str) -> String {
    x.to_string()
}

fn chain(agent: &str, assignments: Vec<(&str, &str)>) -> Vec<ChainEntry> {
    let mut entries = vec![ChainEntry::Other, ChainEntry::AgentId(s(agent))];
    for (role, who) in assignments {
        entries.push(ChainEntry::Assignment(Assignment::new(s(role), s(who), None)));
    }
    entries
}

#[test]
fn zome_entry_points_accept() {
    assert_eq!(init(), Ok(()));
    assert_eq!(validate_agent(&s("QmAgent")), Ok(()));
}

#[test]
fn zome_entry_definitions() {
    let role = zome_role_entry_def();
    assert_eq!(role.name, "role");
    assert_eq!(role.on_create, Rule::Accept);
    assert_eq!(role.links.len(), 1);
    assert_eq!(role.links[0].direction, LinkDirection::To);
    assert_eq!(role.links[0].other_type, "role_assignment");
    assert_eq!(role.links[0].link_type, "role->role_assignment");
    let assignment = assignment_entry_def();
    assert_eq!(assignment.name, "role_assignment");
    assert_eq!(assignment.on_delete, Rule::Accept);
    assert_eq!(assignment.links[0].direction, LinkDirection::From);
    assert_eq!(assignment.links[0].other_type, "%agent_id");
    assert_eq!(assignment.links[0].link_type, "agent->role_assignment");
    assert_eq!(ZomeRole::from(s("editor")).name(), "editor");
}

#[test]
fn initial_admins_from_the_property() {
    assert_eq!(get_initial_admins("[\"QmA\", \"QmB\"]"), Ok(vec![s("QmA"), s("QmB")]));
    assert_eq!(get_initial_admins("[]"), Ok(vec![]));
    assert_eq!(get_initial_admins("\"QmA\""), Err(s("could not get initial admins list")));
    assert_eq!(initial_admins_from(None), Err(s("could not get initial admins list")));
    assert_eq!(is_agent_initial_admin(&s("QmB"), "[\"QmA\", \"QmB\"]"), Ok(true));
    assert_eq!(is_agent_initial_admin(&s("QmC"), "[\"QmA\", \"QmB\"]"), Ok(false));
    assert_eq!(is_agent_initial_admin(&s("QmC"), "nope"), Err(s("could not get initial admins list")));
}

#[test]
fn chain_agent_and_roles() {
    assert_eq!(get_chain_agent_id(&chain("QmAgent", vec![])), Ok(s("QmAgent")));
    assert_eq!(get_chain_agent_id(&vec![ChainEntry::Other]), Err(s("no agent id entry in the chain")));
    let c = chain("QmAgent", vec![("QmRoleX", "QmOther"), ("QmRole", "QmAgent")]);
    assert_eq!(agent_has_role(&Ok(s("QmRole")), &c), Ok(true));
    assert_eq!(agent_has_role(&Ok(s("QmRoleX")), &c), Ok(false));
    assert_eq!(agent_has_role(&Err(s("no address")), &c), Err(s("no address")));
    assert_eq!(agent_has_role(&Ok(s("QmRole")), &vec![]), Err(s("no agent id entry in the chain")));
}

#[test]
fn zome_admins() {
    let c = chain("QmAgent", vec![("QmAdminRole", "QmAgent")]);
    assert_eq!(zome_is_agent_admin(&c, "[\"QmAgent\"]", &Err(s("unused"))), Ok(true));
    assert_eq!(zome_is_agent_admin(&c, "[]", &Ok(s("QmAdminRole"))), Ok(true));
    assert_eq!(zome_is_agent_admin(&c, "[]", &Ok(s("QmOtherRole"))), Ok(false));
    assert_eq!(zome_is_agent_admin(&c, "x", &Ok(s("QmAdminRole"))), Err(s("could not get initial admins list")));
}

#[test]
fn example_role_membership() {
    let mut role = new_role(&s("editor"));
    assert_eq!(role, Role { role_name: s("editor"), members: vec![] });
    assert!(!has_agent_role(&role, &s("QmA")));
    assign_role(&mut role, &s("QmA"));
    assign_role(&mut role, &s("QmB"));
    assign_role(&mut role, &s("QmA"));
    assert!(has_agent_role(&role, &s("QmA")));
    assert_eq!(role.members, vec![s("QmA"), s("QmB"), s("QmA")]);
    unassign_role(&mut role, &s("QmA"));
    assert_eq!(role.members, vec![s("QmB"), s("QmA")]);
    unassign_role(&mut role, &s("QmC"));
    assert_eq!(role.members, vec![s("QmB"), s("QmA")]);
    unassign_role(&mut role, &s("QmA"));
    assert_eq!(role.members, vec![s("QmB")]);
    assert!(!has_agent_role(&role, &s("QmA")));
}

#[test]
fn example_assign_then_unassign_restores() {
    let mut role = Role::from(s("editor"), vec![s("QmX"), s("QmY")]);
    assign_role(&mut role, &s("QmZ"));
    unassign_role(&mut role, &s("QmZ"));
    assert_eq!(role.members, vec![s("QmX"), s("QmY")]);
}

#[test]
fn example_role_entries() {
    let def = role_entry_def();
    assert_eq!(def.name, "role");
    assert_eq!(def.description, "role for ");
    assert_eq!(def.on_create, Rule::RequireValidContentByAdmin(s("Only admins can create roles")));
    assert_eq!(def.on_modify, Rule::RequireAdmin(s("Only admins can create roles")));
    assert_eq!(def.on_delete, Rule::Reject(s("Cannot delete roles")));
    assert_eq!(def.links[0].link_type, "agent->role");
    assert_eq!(def.links[1].link_type, "anchor->role");
    assert_eq!(validate_new_role(&Role::from(s("r"), vec![])), Err(s("The first role entry cannot have any members")));
    assert_eq!(validate_new_role(&Role::from(s("r"), vec![s("QmA")])), Ok(()));
    let test = custom_entry();
    assert_eq!(test.name, "test");
    assert_eq!(test.on_create, Rule::RequireLiveRole(s("Admin")));
    assert_eq!(test.on_modify, Rule::Reject(s("Cannot modify roles")));
    assert_eq!(test.on_delete, Rule::Reject(s("Cannot modify roles")));
}

#[test]
fn example_admins() {
    let prop = "\"QmProgenitor\"";
    let admins = Role::from(s("Admin"), vec![s("QmA")]);
    assert_eq!(is_agent_admin(&s("QmProgenitor"), prop, &Err(s("unread"))), Ok(true));
    assert_eq!(is_agent_admin(&s("QmA"), prop, &Ok(admins.clone())), Ok(true));
    assert_eq!(is_agent_admin(&s("QmB"), prop, &Ok(admins)), Ok(false));
    assert_eq!(is_agent_admin(&s("QmB"), prop, &Err(s("unread"))), Err(s("unread")));
}

fn item(ts: i64, status: CrudStatus) -> HistoryItem {
    HistoryItem { header_timestamps: vec![ts], entry: StoredEntry::Absent, crud_status: Some(status) }
}

#[test]
fn example_liveness() {
    assert!(!is_item_alive(None));
    assert!(is_item_alive(Some(&item(1, CrudStatus::Live))));
    assert!(is_item_alive(Some(&item(1, CrudStatus::Modified))));
    assert!(!is_item_alive(Some(&item(1, CrudStatus::Deleted))));
    assert!(!is_item_alive(Some(&item(1, CrudStatus::Rejected))));
    assert!(!is_item_alive(Some(&item(1, CrudStatus::Locked))));
    let history = Some(vec![item(10, CrudStatus::Live), item(20, CrudStatus::Deleted)]);
    assert!(!had_agent_role(&history, 5));
    assert!(had_agent_role(&history, 15));
    assert!(!had_agent_role(&history, 25));
    assert!(!had_agent_role(&None, 25));
}

#[test]
fn example_required_role() {
    let prop = "\"QmProgenitor\"";
    let history = Ok(Some(vec![item(10, CrudStatus::Live), item(20, CrudStatus::Deleted)]));
    assert_eq!(validate_required_role(&s("QmProgenitor"), &s("Admin"), prop, &s("QmE"), 0, &Err(s("x"))), Ok(()));
    assert_eq!(validate_required_role(&s("QmA"), &s("Admin"), prop, &s("QmE"), 15, &history), Ok(()));
    assert_eq!(
        validate_required_role(&s("QmA"), &s("Admin"), prop, &s("QmE"), 25, &history),
        Err(s("Agent QmA did not have the role Admin when committing entry QmE"))
    );
    assert_eq!(validate_required_role(&s("QmA"), &s("Admin"), prop, &s("QmE"), 25, &Err(s("x"))), Err(s("x")));
}

#[test]
fn example_search_guards() {
    let prop = "\"QmProgenitor\"";
    assert!(!holochain_roles::example_zome::looks_at_history(&s("QmProgenitor"), &s("Admin"), prop));
    assert!(holochain_roles::example_zome::looks_at_history(&s("QmA"), &s("Admin"), prop));
    let items = vec![
        item(10, CrudStatus::Live),
        HistoryItem { header_timestamps: vec![20], entry: StoredEntry::Absent, crud_status: None },
    ];
    assert!(holochain_roles::example_zome::status_known(&items, 15));
    assert!(!holochain_roles::example_zome::status_known(&items, 25));
}

#[test]
fn example_rules_use_the_example_checks() {
    let prop = "\"QmProgenitor\"";
    // An assignment that says assigned but was deleted: the example's check refuses.
    let deleted = HistoryItem {
        header_timestamps: vec![10],
        entry: StoredEntry::Assignment(holochain_roles::RoleAssignment::from(s("Admin"), s("QmA"))),
        crud_status: Some(CrudStatus::Deleted),
    };
    let history = Ok(Some(vec![deleted]));
    let test = custom_entry();
    assert_eq!(
        validate_by_rule(&test.on_create, &s("QmA"), prop, &s("QmE"), 15, &history, &Ok(true), &Ok(())),
        Err(s("Agent QmA did not have the role Admin when committing entry QmE"))
    );
    // Not assigned but live: the example's check grants.
    let live = HistoryItem {
        header_timestamps: vec![10],
        entry: StoredEntry::Absent,
        crud_status: Some(CrudStatus::Live),
    };
    assert_eq!(
        validate_by_rule(&test.on_create, &s("QmA"), prop, &s("QmE"), 15, &Ok(Some(vec![live])), &Ok(false), &Ok(())),
        Ok(())
    );
    assert_eq!(
        validate_by_rule(&test.on_modify, &s("QmProgenitor"), prop, &s("QmE"), 15, &Ok(None), &Ok(true), &Ok(())),
        Err(s("Cannot modify roles"))
    );
    let roles = role_entry_def();
    let empty = validate_new_role(&Role::from(s("r"), vec![]));
    assert_eq!(
        validate_by_rule(&roles.on_create, &s("QmA"), prop, &s("QmE"), 0, &Ok(None), &Ok(true), &empty),
        Err(s("The first role entry cannot have any members"))
    );
    let full = validate_new_role(&Role::from(s("r"), vec![s("QmA")]));
    assert_eq!(validate_by_rule(&roles.on_create, &s("QmA"), prop, &s("QmE"), 0, &Ok(None), &Ok(true), &full), Ok(()));
    assert_eq!(
        validate_by_rule(&roles.on_create, &s("QmB"), prop, &s("QmE"), 0, &Ok(None), &Ok(false), &full),
        Err(s("Only admins can create roles"))
    );
    assert_eq!(
        validate_by_rule(&roles.on_delete, &s("QmA"), prop, &s("QmE"), 0, &Ok(None), &Ok(true), &Ok(())),
        Err(s("Cannot delete roles"))
    );
}
