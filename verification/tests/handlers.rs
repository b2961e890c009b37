use holochain_roles::handlers::{
    assign_role, get_agent_roles, get_agents_with_role, unassign_role, AssignmentUpdate, HostCall,
    HostReply, UpdateStep,
};
use holochain_roles::RoleAssignment;

fn s(x: &str) -> String {
    x.to_string()
}

fn assignment(role: &str, agent: &str, assigned: bool, previous: Option<&str>) -> RoleAssignment {
    RoleAssignment {
        role_name: s(role),
        agent_address: s(agent),
        assigned,
        previous_assignment_address: previous.map(s),
    }
}

fn link(base: &str, target: &str, link_type: &str, tag: &str) -> HostCall {
    HostCall::LinkEntries { base: s(base), target: s(target), link_type: s(link_type), tag: s(tag) }
}

#[test]
fn first_assignment_commits_and_links() {
    let (mut update, first) = assign_role(s("editor"), s("QmAgent"), s("QmAnchor"));
    assert_eq!(
        first,
        HostCall::GetLinks { base: s("QmAgent"), link_type: s("agent->role_assignment"), tag: s("editor") }
    );
    assert_eq!(
        update.next(HostReply::Addresses(vec![])),
        Some(HostCall::CommitAssignment { assignment: RoleAssignment::from(s("editor"), s("QmAgent")) })
    );
    assert_eq!(
        update.next(HostReply::Address(s("QmNew"))),
        Some(link("QmAgent", "QmNew", "agent->role_assignment", "editor"))
    );
    assert_eq!(update.outcome(), None);
    assert_eq!(update.next(HostReply::Done), Some(link("QmAnchor", "QmNew", "role->role_assignment", "QmAgent")));
    assert_eq!(update.next(HostReply::Done), None);
    assert_eq!(update.outcome(), Some(Ok(())));
}

#[test]
fn unassigning_an_agent_never_assigned_writes_nothing() {
    let (mut update, _) = unassign_role(s("editor"), s("QmAgent"), s("QmAnchor"));
    assert_eq!(update.next(HostReply::Addresses(vec![])), None);
    assert_eq!(update.outcome(), Some(Ok(())));
}

#[test]
fn assigning_an_assigned_agent_writes_nothing() {
    let (mut update, _) = assign_role(s("editor"), s("QmAgent"), s("QmAnchor"));
    assert_eq!(
        update.next(HostReply::Addresses(vec![s("QmOld"), s("QmOther")])),
        Some(HostCall::LoadAssignment { address: s("QmOld") })
    );
    assert_eq!(update.next(HostReply::Assignment(assignment("editor", "QmAgent", true, None))), None);
    assert_eq!(update.outcome(), Some(Ok(())));
}

#[test]
fn unassigning_updates_the_assignment() {
    let (mut update, _) = unassign_role(s("editor"), s("QmAgent"), s("QmAnchor"));
    update.next(HostReply::Addresses(vec![s("QmOld")]));
    assert_eq!(
        update.next(HostReply::Assignment(assignment("editor", "QmAgent", true, None))),
        Some(HostCall::UpdateAssignment {
            address: s("QmOld"),
            assignment: assignment("editor", "QmAgent", false, Some("QmOld")),
        })
    );
    assert_eq!(update.step, UpdateStep::Updating);
    assert_eq!(
        update.next(HostReply::Address(s("QmNew"))),
        Some(link("QmAgent", "QmNew", "agent->role_assignment", "editor"))
    );
    assert_eq!(update.next(HostReply::Done), Some(link("QmAnchor", "QmNew", "role->role_assignment", "QmAgent")));
    assert_eq!(update.next(HostReply::Done), None);
    assert_eq!(update.outcome(), Some(Ok(())));
}

#[test]
fn reassigning_points_back_to_the_linked_address() {
    let (mut update, _) = assign_role(s("editor"), s("QmAgent"), s("QmAnchor"));
    update.next(HostReply::Addresses(vec![s("QmFirst"), s("QmOff")]));
    assert_eq!(
        update.next(HostReply::Assignment(assignment("editor", "QmAgent", false, Some("QmFirst")))),
        Some(HostCall::UpdateAssignment {
            address: s("QmFirst"),
            assignment: assignment("editor", "QmAgent", true, Some("QmFirst")),
        })
    );
}

#[test]
fn a_failed_update_ends_the_update_with_its_message() {
    let (mut update, _) = unassign_role(s("editor"), s("QmAgent"), s("QmAnchor"));
    update.next(HostReply::Addresses(vec![s("QmOld")]));
    update.next(HostReply::Assignment(assignment("editor", "QmAgent", true, None)));
    assert_eq!(update.next(HostReply::Failed(s("not found"))), None);
    assert_eq!(update.outcome(), Some(Err(s("not found"))));
}

#[test]
fn a_failed_call_ends_the_update_with_its_message() {
    let (mut update, _) = assign_role(s("editor"), s("QmAgent"), s("QmAnchor"));
    assert_eq!(update.next(HostReply::Failed(s("network down"))), None);
    assert_eq!(update.outcome(), Some(Err(s("network down"))));
    // A finished update stays finished.
    assert_eq!(update.next(HostReply::Done), None);
    assert_eq!(update.step, UpdateStep::Finished { result: Err(s("network down")) });
}

#[test]
fn a_reply_of_the_wrong_kind_ends_the_update() {
    let (mut update, _) = assign_role(s("editor"), s("QmAgent"), s("QmAnchor"));
    assert_eq!(update.next(HostReply::Done), None);
    assert_eq!(update.outcome(), Some(Err(s("unexpected reply from the host"))));
}

#[test]
fn start_keeps_the_request() {
    let (update, _) = AssignmentUpdate::start(s("r"), s("a"), false, s("x"));
    assert_eq!(update.role_name, "r");
    assert_eq!(update.agent_address, "a");
    assert!(!update.assigned);
    assert_eq!(update.role_anchor, "x");
    assert_eq!(update.step, UpdateStep::ReadingAgentLinks);
}

#[test]
fn agent_roles_lists_assigned_roles_in_order() {
    let assignments = vec![
        assignment("editor", "QmAgent", true, None),
        assignment("viewer", "QmAgent", false, Some("QmX")),
        assignment("author", "QmAgent", true, None),
    ];
    let roles = get_agent_roles(&s("QmAgent"), &assignments, "\"QmProgenitor\"").unwrap();
    assert_eq!(roles, vec![s("editor"), s("author")]);
}

#[test]
fn the_progenitor_has_the_admin_role() {
    let assignments = vec![assignment("editor", "QmProgenitor", true, None)];
    let roles = get_agent_roles(&s("QmProgenitor"), &assignments, "\"QmProgenitor\"").unwrap();
    assert_eq!(roles, vec![s("editor"), s("Admin")]);
    assert_eq!(get_agent_roles(&s("QmProgenitor"), &vec![], " \"QmProgenitor\" ").unwrap(), vec![s("Admin")]);
}

#[test]
fn agent_roles_fail_without_a_progenitor() {
    assert_eq!(get_agent_roles(&s("QmAgent"), &vec![], "QmProgenitor"), Err(s("Could not get the progenitor address")));
    assert_eq!(get_agent_roles(&s("QmAgent"), &vec![], "[\"QmProgenitor\"]"), Err(s("Could not get the progenitor address")));
}

#[test]
fn agents_with_role_lists_assigned_agents() {
    let assignments = vec![
        assignment("editor", "QmA", true, None),
        assignment("editor", "QmB", false, None),
        assignment("editor", "QmC", true, Some("QmOld")),
    ];
    assert_eq!(get_agents_with_role(&assignments), vec![s("QmA"), s("QmC")]);
    assert_eq!(get_agents_with_role(&vec![]), Vec::<String>::new());
}
