use holochain_roles::entry_def::{validate_by_rule, LinkDirection, Operation, Rule, Sharing};
use holochain_roles::progenitor::{get_progenitor_address, progenitor_address_from};
use holochain_roles::validation::{
    earliest_timestamp, get_entry_history_with_meta, had_agent_role, has_agent_role, is_agent_admin, is_scannable, looks_at_history,
    is_agent_assigned, missing_role, validate_required_role, version_at, CrudStatus, EntryLookup,
    HistoryItem, StoredEntry,
};
use holochain_roles::{role_assignment_entry_def, RoleAssignment};

fn s(x: &str) -> String {
    x.to_string()
}

fn held(assigned: bool) -> StoredEntry {
    StoredEntry::Assignment(RoleAssignment {
        role_name: s("editor"),
        agent_address: s("QmAgent"),
        assigned,
        previous_assignment_address: None,
    })
}

fn version(timestamps: Vec<i64>, assigned: bool) -> HistoryItem {
    HistoryItem { header_timestamps: timestamps, entry: held(assigned), crud_status: Some(CrudStatus::Live) }
}

#[test]
fn progenitor_address_reads_a_json_string() {
    assert_eq!(get_progenitor_address("\"QmProgenitor\""), Ok(s("QmProgenitor")));
    assert_eq!(get_progenitor_address("\"Qm\\u0041\""), Ok(s("QmA")));
    assert_eq!(get_progenitor_address("42"), Err(s("Could not get the progenitor address")));
    assert_eq!(get_progenitor_address(""), Err(s("Could not get the progenitor address")));
    assert_eq!(progenitor_address_from(None), Err(s("Could not get the progenitor address")));
    assert_eq!(progenitor_address_from(Some(s("Qm"))), Ok(s("Qm")));
}

#[test]
fn earliest_header_is_the_smallest() {
    assert_eq!(earliest_timestamp(&vec![30, 10, 20]), 10);
    assert_eq!(earliest_timestamp(&vec![-5]), -5);
}

#[test]
fn version_in_force_follows_the_timeline() {
    let items = vec![version(vec![10, 12], true), version(vec![20], false), version(vec![30], true)];
    assert_eq!(version_at(&items, 5), None);
    assert_eq!(version_at(&items, 10), Some(0));
    assert_eq!(version_at(&items, 19), Some(0));
    assert_eq!(version_at(&items, 25), Some(1));
    assert_eq!(version_at(&items, 30), Some(2));
    assert_eq!(version_at(&items, 1000), Some(2));
    assert_eq!(version_at(&vec![], 1000), None);
}

#[test]
fn had_role_reads_the_version_in_force() {
    let history = Some(vec![version(vec![10], true), version(vec![20], false), version(vec![30], true)]);
    assert_eq!(had_agent_role(&history, 5), Ok(false));
    assert_eq!(had_agent_role(&history, 15), Ok(true));
    assert_eq!(had_agent_role(&history, 25), Ok(false));
    assert_eq!(had_agent_role(&history, 35), Ok(true));
    assert_eq!(had_agent_role(&None, 35), Ok(false));
    let unreadable = Some(vec![HistoryItem {
        header_timestamps: vec![1],
        entry: StoredEntry::Unreadable(s("bad json")),
        crud_status: None,
    }]);
    assert_eq!(had_agent_role(&unreadable, 2), Err(s("bad json")));
}

#[test]
fn assignment_status_of_stored_entries() {
    assert_eq!(is_agent_assigned(&StoredEntry::Absent), Ok(false));
    assert_eq!(is_agent_assigned(&held(true)), Ok(true));
    assert_eq!(is_agent_assigned(&held(false)), Ok(false));
    assert_eq!(is_agent_assigned(&StoredEntry::Unreadable(s("oops"))), Err(s("oops")));
    assert_eq!(has_agent_role(&Ok(held(true))), Ok(true));
    assert_eq!(has_agent_role(&Err(s("no address"))), Err(s("no address")));
}

#[test]
fn entry_history_from_lookups() {
    assert_eq!(get_entry_history_with_meta(EntryLookup::Single { has_entry: false }), Ok(None));
    assert_eq!(get_entry_history_with_meta(EntryLookup::Single { has_entry: true }), Err(s("shouldn't happen")));
    assert_eq!(get_entry_history_with_meta(EntryLookup::All(vec![])), Ok(None));
    let items = vec![version(vec![1], true)];
    assert_eq!(get_entry_history_with_meta(EntryLookup::All(items.clone())), Ok(Some(items)));
}

#[test]
fn admins_are_the_progenitor_and_admin_holders() {
    let prop = "\"QmProgenitor\"";
    assert_eq!(is_agent_admin(&s("QmProgenitor"), prop, &Err(s("unread"))), Ok(true));
    assert_eq!(is_agent_admin(&s("QmAgent"), prop, &Ok(held(true))), Ok(true));
    assert_eq!(is_agent_admin(&s("QmAgent"), prop, &Ok(held(false))), Ok(false));
    assert_eq!(is_agent_admin(&s("QmAgent"), prop, &Ok(StoredEntry::Absent)), Ok(false));
    assert_eq!(is_agent_admin(&s("QmAgent"), prop, &Err(s("unread"))), Err(s("unread")));
    assert_eq!(is_agent_admin(&s("QmAgent"), "nope", &Ok(held(true))), Err(s("Could not get the progenitor address")));
}

#[test]
fn required_role_validation() {
    let prop = "\"QmProgenitor\"";
    let history = Ok(Some(vec![version(vec![10], true), version(vec![20], false)]));
    // The progenitor needs no history for the admin role.
    assert_eq!(validate_required_role(&s("QmProgenitor"), &s("Admin"), prop, &s("QmEntry"), 0, &Err(s("unread"))), Ok(()));
    // For another role the progenitor is checked like anyone else.
    assert_eq!(
        validate_required_role(&s("QmProgenitor"), &s("editor"), prop, &s("QmEntry"), 25, &history),
        Err(s("Agent QmProgenitor did not have the role editor when committing entry QmEntry"))
    );
    assert_eq!(validate_required_role(&s("QmAgent"), &s("editor"), prop, &s("QmEntry"), 15, &history), Ok(()));
    assert_eq!(
        validate_required_role(&s("QmAgent"), &s("Admin"), prop, &s("QmEntry"), 5, &history),
        Err(s("Agent QmAgent did not have the role Admin when committing entry QmEntry"))
    );
    assert_eq!(
        validate_required_role(&s("QmAgent"), &s("editor"), prop, &s("QmEntry"), 15, &Err(s("unread"))),
        Err(s("unread"))
    );
    assert_eq!(
        validate_required_role(&s("QmAgent"), &s("editor"), "{}", &s("QmEntry"), 15, &history),
        Err(s("Could not get the progenitor address"))
    );
    assert_eq!(
        missing_role(&s("a"), &s("b"), &s("c")),
        s("Agent a did not have the role b when committing entry c")
    );
}

#[test]
fn role_assignment_entries_are_kept_by_admins() {
    let def = role_assignment_entry_def();
    assert_eq!(def.name, "role_assignment");
    assert_eq!(def.description, "role assignment entry that contains a role name and the members of that role");
    assert_eq!(def.sharing, Sharing::Public);
    assert_eq!(def.on_create, Rule::RequireRole(s("Admin")));
    assert_eq!(def.on_delete, Rule::RequireRole(s("Admin")));
    assert_eq!(def.on_modify, Rule::RequireRole(s("Admin")));
    assert_eq!(def.links.len(), 2);
    assert_eq!(def.links[0].direction, LinkDirection::From);
    assert_eq!(def.links[0].other_type, "%agent_id");
    assert_eq!(def.links[0].link_type, "agent->role_assignment");
    assert_eq!(def.links[1].other_type, "anchor");
    assert_eq!(def.links[1].link_type, "role->role_assignment");
    assert_eq!(def.links[1].on_add, Rule::RequireRole(s("Admin")));
    assert_eq!(def.links[1].on_remove, Rule::RequireRole(s("Admin")));
}

#[test]
fn rules_decide_validation() {
    let prop = "\"QmProgenitor\"";
    let none = Ok(None);
    assert_eq!(validate_by_rule(&Rule::Accept, &s("QmA"), prop, &s("QmE"), 1, &none, &Ok(false), &Ok(())), Ok(()));
    assert_eq!(validate_by_rule(&Rule::Reject(s("no")), &s("QmA"), prop, &s("QmE"), 1, &none, &Ok(true), &Ok(())), Err(s("no")));
    assert_eq!(
        validate_by_rule(&Rule::RequireRole(s("Admin")), &s("QmA"), prop, &s("QmE"), 1, &none, &Ok(true), &Ok(())),
        Err(s("Agent QmA did not have the role Admin when committing entry QmE"))
    );
    assert_eq!(validate_by_rule(&Rule::RequireRole(s("Admin")), &s("QmProgenitor"), prop, &s("QmE"), 1, &none, &Ok(false), &Ok(())), Ok(()));
    assert_eq!(validate_by_rule(&Rule::RequireAdmin(s("admins only")), &s("QmA"), prop, &s("QmE"), 1, &none, &Ok(true), &Ok(())), Ok(()));
    assert_eq!(
        validate_by_rule(&Rule::RequireAdmin(s("admins only")), &s("QmA"), prop, &s("QmE"), 1, &none, &Ok(false), &Ok(())),
        Err(s("admins only"))
    );
    assert_eq!(
        validate_by_rule(&Rule::RequireAdmin(s("admins only")), &s("QmA"), prop, &s("QmE"), 1, &none, &Err(s("x")), &Ok(())),
        Err(s("x"))
    );
}

#[test]
fn the_search_stops_at_the_first_later_version() {
    let items = vec![version(vec![10], true), version(vec![20], false), version(vec![], true)];
    assert!(is_scannable(&items, 25) == false);
    assert!(is_scannable(&items, 15));
    assert_eq!(version_at(&items, 15), Some(0));
    assert_eq!(had_agent_role(&Some(items), 15), Ok(true));
    assert!(is_scannable(&vec![], 0));
}

#[test]
fn history_is_consulted_unless_the_progenitor_asks_for_admin() {
    let prop = "\"QmProgenitor\"";
    assert!(!looks_at_history(&s("QmProgenitor"), &s("Admin"), prop));
    assert!(looks_at_history(&s("QmProgenitor"), &s("editor"), prop));
    assert!(looks_at_history(&s("QmAgent"), &s("Admin"), prop));
    assert!(!looks_at_history(&s("QmAgent"), &s("Admin"), "broken"));
}

#[test]
fn definitions_pick_the_rule_of_each_operation() {
    let def = role_assignment_entry_def();
    assert_eq!(def.rule(Operation::Create), &Rule::RequireRole(s("Admin")));
    assert_eq!(def.rule(Operation::Modify), &Rule::RequireRole(s("Admin")));
    assert_eq!(def.rule(Operation::Delete), &Rule::RequireRole(s("Admin")));
}
