//! Properties of the library as a whole, proved over the models its
//! functions' contracts speak of.
use vstd::prelude::*;

use crate::entry_def::{admin_verdict, rule_verdict};
use crate::example_zome::roles::{
    example_admin_status, new_role_verdict, role_definition, RoleView, ADMINS_ONLY_MESSAGE, EMPTY_ROLE_MESSAGE,
    NO_DELETE_MESSAGE,
};
use crate::example_zome::{alive_at, example_role_verdict, test_entry_definition, NO_CHANGE_MESSAGE};
use crate::handlers::{
    agent_roles, assigned_agents, assigned_role_names, replacement, update_next, update_start, CallView, ReplyView, StepView,
    UpdateView,
};
use crate::progenitor::progenitor_of;
use crate::roles_zome::admins::{chain_admin_status, initial_admins_of};
use crate::roles_zome::validation::{chain_agent, ChainEntryView};
use crate::validation::{
    admin_status, assignment_status, consults_history, earliest, first_started_after, headed, held_at,
    history_scannable, missing_role_message, required_role_verdict, scan_headed, version_in_force, CrudStatus,
    HistoryItemView, StoredEntryView,
};
use crate::{
    initial_assignment, role_assignment_definition, RoleAssignmentView, ADMIN_ROLE_NAME, AGENT_TO_ASSIGNMENT_LINK_TYPE,
    ROLE_TO_ASSIGNMENT_LINK_TYPE,
};

verus! {

/// The progenitor is an administrator from the start: whatever the DHT holds,
/// it is an administrator, it is granted every validation that requires the
/// administrator role, and its roles include the administrator role.
pub proof fn lemma_progenitor_is_administrator(
    progenitor: Seq<char>,
    progenitor_property: Seq<char>,
    admin_read: Result<StoredEntryView, Seq<char>>,
    entry_address: Seq<char>,
    t: i64,
    history: Result<Option<Seq<HistoryItemView>>, Seq<char>>,
    assignments: Seq<RoleAssignmentView>,
)
    requires
        progenitor_of(progenitor_property) == Ok::<Seq<char>, Seq<char>>(progenitor),
    ensures
        admin_status(progenitor, progenitor_property, admin_read) == Ok::<bool, Seq<char>>(true),
        required_role_verdict(progenitor, ADMIN_ROLE_NAME@, progenitor_property, entry_address, t, history)
            == Ok::<(), Seq<char>>(()),
        agent_roles(progenitor, assignments, progenitor).contains(ADMIN_ROLE_NAME@),
{
    let roles = agent_roles(progenitor, assignments, progenitor);
    assert(roles[roles.len() - 1] == ADMIN_ROLE_NAME@);
}

/// In the example zome too the progenitor is an administrator, whatever the
/// administrator role lists, and it is granted every validation that requires
/// the administrator role.
pub proof fn lemma_example_progenitor_is_administrator(
    progenitor: Seq<char>,
    progenitor_property: Seq<char>,
    admin_role: Result<RoleView, Seq<char>>,
    entry_address: Seq<char>,
    t: i64,
    history: Result<Option<Seq<HistoryItemView>>, Seq<char>>,
)
    requires
        progenitor_of(progenitor_property) == Ok::<Seq<char>, Seq<char>>(progenitor),
    ensures
        example_admin_status(progenitor, progenitor_property, admin_role) == Ok::<bool, Seq<char>>(true),
        example_role_verdict(progenitor, crate::example_zome::roles::ADMIN_ROLE_NAME@, progenitor_property, entry_address, t, history)
            == Ok::<(), Seq<char>>(()),
{
}

/// In the roles zome, the agents that the `initial_admins` property names are
/// administrators, whatever their chains hold.
pub proof fn lemma_initial_admins_are_admins(
    chain: Seq<ChainEntryView>,
    initial_admins_property: Seq<char>,
    admin_role_address: Result<Seq<char>, Seq<char>>,
    agent: Seq<char>,
    admins: Seq<Seq<char>>,
)
    requires
        chain_agent(chain) == Ok::<Seq<char>, Seq<char>>(agent),
        initial_admins_of(initial_admins_property) == Ok::<Seq<Seq<char>>, Seq<char>>(admins),
        admins.contains(agent),
    ensures
        chain_admin_status(chain, initial_admins_property, admin_role_address) == Ok::<bool, Seq<char>>(true),
{
}

/// Creating role assignment entries, updating them to a new version, deleting
/// them, and adding or removing their links are each valid exactly when the
/// agent held the administrator role when it did so.
pub proof fn lemma_assignments_are_kept_by_admins(
    agent: Seq<char>,
    progenitor_property: Seq<char>,
    entry_address: Seq<char>,
    t: i64,
    history: Result<Option<Seq<HistoryItemView>>, Seq<char>>,
    is_admin: Result<bool, Seq<char>>,
    content_check: Result<(), Seq<char>>,
)
    ensures
        ({
            let admin = required_role_verdict(agent, ADMIN_ROLE_NAME@, progenitor_property, entry_address, t, history);
            let def = role_assignment_definition();
            &&& rule_verdict(def.on_modify, agent, progenitor_property, entry_address, t, history, is_admin, content_check) == admin
            &&& rule_verdict(def.on_create, agent, progenitor_property, entry_address, t, history, is_admin, content_check) == admin
            &&& rule_verdict(def.on_delete, agent, progenitor_property, entry_address, t, history, is_admin, content_check) == admin
            &&& forall|i: int| 0 <= i < def.links.len() ==> {
                &&& rule_verdict(#[trigger] def.links[i].on_add, agent, progenitor_property, entry_address, t, history, is_admin, content_check) == admin
                &&& rule_verdict(def.links[i].on_remove, agent, progenitor_property, entry_address, t, history, is_admin, content_check) == admin
            }
        }),
{
}

/// The example zome's test entries are created only under its own check:
/// creation is granted exactly when the example's required-role check for the
/// administrator role grants it (the assignment alive at the entry's time, or
/// the agent the progenitor), and every change or deletion is refused.
pub proof fn lemma_test_entries_use_the_example_check(
    agent: Seq<char>,
    progenitor_property: Seq<char>,
    entry_address: Seq<char>,
    t: i64,
    history: Result<Option<Seq<HistoryItemView>>, Seq<char>>,
    is_admin: Result<bool, Seq<char>>,
    content_check: Result<(), Seq<char>>,
)
    ensures
        rule_verdict(test_entry_definition().on_create, agent, progenitor_property, entry_address, t, history, is_admin, content_check)
            == example_role_verdict(agent, crate::example_zome::roles::ADMIN_ROLE_NAME@, progenitor_property, entry_address, t, history),
        rule_verdict(test_entry_definition().on_modify, agent, progenitor_property, entry_address, t, history, is_admin, content_check)
            == Err::<(), Seq<char>>(NO_CHANGE_MESSAGE@),
        rule_verdict(test_entry_definition().on_delete, agent, progenitor_property, entry_address, t, history, is_admin, content_check)
            == Err::<(), Seq<char>>(NO_CHANGE_MESSAGE@),
{
}

/// In the example zome a new role is refused when it lists no members, and
/// otherwise granted exactly to administrators; changes are granted exactly to
/// administrators, and deletions are refused.
pub proof fn lemma_example_roles_are_kept_by_admins(
    role: RoleView,
    agent: Seq<char>,
    progenitor_property: Seq<char>,
    entry_address: Seq<char>,
    t: i64,
    history: Result<Option<Seq<HistoryItemView>>, Seq<char>>,
    is_admin: Result<bool, Seq<char>>,
    content_check: Result<(), Seq<char>>,
)
    ensures
        rule_verdict(role_definition().on_create, agent, progenitor_property, entry_address, t, history, is_admin, new_role_verdict(role))
            == if role.members.len() == 0 {
                Err::<(), Seq<char>>(EMPTY_ROLE_MESSAGE@)
            } else {
                admin_verdict(is_admin, ADMINS_ONLY_MESSAGE@)
            },
        rule_verdict(role_definition().on_modify, agent, progenitor_property, entry_address, t, history, is_admin, content_check)
            == admin_verdict(is_admin, ADMINS_ONLY_MESSAGE@),
        rule_verdict(role_definition().on_delete, agent, progenitor_property, entry_address, t, history, is_admin, content_check)
            == Err::<(), Seq<char>>(NO_DELETE_MESSAGE@),
{
}

proof fn lemma_none_started_after(items: Seq<HistoryItemView>, t: i64)
    requires
        forall|i: int| 0 <= i < items.len() ==> earliest(#[trigger] items[i].header_timestamps) <= t,
    ensures
        first_started_after(items, t) == items.len(),
    decreases items.len(),
{
    if items.len() > 0 {
        assert forall|i: int| 0 <= i < items.drop_first().len() implies earliest(#[trigger] items.drop_first()[i].header_timestamps) <= t by {
            assert(items.drop_first()[i] == items[i + 1]);
        }
        lemma_none_started_after(items.drop_first(), t);
    }
}

/// No agent had a role before the first version of its assignment was
/// committed.
pub proof fn lemma_no_role_before_first_version(items: Seq<HistoryItemView>, t: i64)
    requires
        headed(items),
        items.len() > 0,
        t < earliest(items[0].header_timestamps),
    ensures
        version_in_force(items, t) is None,
        held_at(Some(items), t) == Ok::<bool, Seq<char>>(false),
        !alive_at(Some(items), t),
{
}

/// Once every version of an assignment has been committed, the version in
/// force is the latest one, and what it says decides whether the role is held.
pub proof fn lemma_latest_version_decides(items: Seq<HistoryItemView>, t: i64)
    requires
        headed(items),
        items.len() > 0,
        forall|i: int| 0 <= i < items.len() ==> earliest(#[trigger] items[i].header_timestamps) <= t,
    ensures
        version_in_force(items, t) == Some(items.len() - 1),
        held_at(Some(items), t) == assignment_status(items.last().entry),
{
    lemma_none_started_after(items, t);
}

/// An agent is listed among the holders of a role exactly when one of the
/// role's assignments to it is in force.
pub proof fn lemma_holders_are_assigned(assignments: Seq<RoleAssignmentView>, agent: Seq<char>)
    ensures
        assigned_agents(assignments).contains(agent) <==> exists|i: int|
            0 <= i < assignments.len() && (#[trigger] assignments[i]).assigned && assignments[i].agent_address == agent,
    decreases assignments.len(),
{
    if assignments.len() > 0 {
        let init = assignments.drop_last();
        lemma_holders_are_assigned(init, agent);
        let rest = assigned_agents(init);
        if exists|i: int| 0 <= i < init.len() && (#[trigger] init[i]).assigned && init[i].agent_address == agent {
            let i = choose|i: int| 0 <= i < init.len() && (#[trigger] init[i]).assigned && init[i].agent_address == agent;
            assert(assignments[i] == init[i]);
        }
        if exists|i: int| 0 <= i < assignments.len() && (#[trigger] assignments[i]).assigned && assignments[i].agent_address == agent {
            let i = choose|i: int| 0 <= i < assignments.len() && (#[trigger] assignments[i]).assigned && assignments[i].agent_address == agent;
            if i < init.len() {
                assert(init[i] == assignments[i]);
            }
        }
        if assignments.last().assigned {
            assert(assigned_agents(assignments) == rest.push(assignments.last().agent_address));
            if rest.contains(agent) {
                let j = choose|j: int| 0 <= j < rest.len() && rest[j] == agent;
                assert(rest.push(assignments.last().agent_address)[j] == agent);
            }
            if assigned_agents(assignments).contains(agent) && !rest.contains(agent) {
                let j = choose|j: int| 0 <= j < rest.len() + 1 && rest.push(assignments.last().agent_address)[j] == agent;
                if j < rest.len() {
                    assert(rest[j] == agent);
                }
            }
            if assignments.last().agent_address == agent {
                assert(rest.push(agent)[rest.len() as int] == agent);
            }
        }
    }
}

/// A role is listed among an agent's roles exactly when one of its
/// assignments of that role is in force (or the role is the administrator
/// role and the agent is the progenitor).
pub proof fn lemma_roles_are_assigned(agent: Seq<char>, assignments: Seq<RoleAssignmentView>, progenitor: Seq<char>, role: Seq<char>)
    ensures
        agent_roles(agent, assignments, progenitor).contains(role) <==> (exists|i: int|
            0 <= i < assignments.len() && (#[trigger] assignments[i]).assigned && assignments[i].role_name == role)
            || (progenitor == agent && role == ADMIN_ROLE_NAME@),
{
    lemma_role_names_are_assigned(assignments, role);
    let names = assigned_role_names(assignments);
    if progenitor == agent {
        let all = names.push(ADMIN_ROLE_NAME@);
        if names.contains(role) {
            let j = choose|j: int| 0 <= j < names.len() && names[j] == role;
            assert(all[j] == role);
        }
        if all.contains(role) && !names.contains(role) {
            let j = choose|j: int| 0 <= j < all.len() && all[j] == role;
            if j < names.len() {
                assert(names[j] == role);
            }
        }
        if role == ADMIN_ROLE_NAME@ {
            assert(all[names.len() as int] == role);
        }
    }
}

proof fn lemma_role_names_are_assigned(assignments: Seq<RoleAssignmentView>, role: Seq<char>)
    ensures
        assigned_role_names(assignments).contains(role) <==> exists|i: int|
            0 <= i < assignments.len() && (#[trigger] assignments[i]).assigned && assignments[i].role_name == role,
    decreases assignments.len(),
{
    if assignments.len() > 0 {
        let init = assignments.drop_last();
        lemma_role_names_are_assigned(init, role);
        let rest = assigned_role_names(init);
        if exists|i: int| 0 <= i < init.len() && (#[trigger] init[i]).assigned && init[i].role_name == role {
            let i = choose|i: int| 0 <= i < init.len() && (#[trigger] init[i]).assigned && init[i].role_name == role;
            assert(assignments[i] == init[i]);
        }
        if exists|i: int| 0 <= i < assignments.len() && (#[trigger] assignments[i]).assigned && assignments[i].role_name == role {
            let i = choose|i: int| 0 <= i < assignments.len() && (#[trigger] assignments[i]).assigned && assignments[i].role_name == role;
            if i < init.len() {
                assert(init[i] == assignments[i]);
            }
        }
        if assignments.last().assigned {
            if rest.contains(role) {
                let j = choose|j: int| 0 <= j < rest.len() && rest[j] == role;
                assert(rest.push(assignments.last().role_name)[j] == role);
            }
            if assigned_role_names(assignments).contains(role) && !rest.contains(role) {
                let j = choose|j: int| 0 <= j < rest.len() + 1 && rest.push(assignments.last().role_name)[j] == role;
                if j < rest.len() {
                    assert(rest[j] == role);
                }
            }
            if assignments.last().role_name == role {
                assert(rest.push(role)[rest.len() as int] == role);
            }
        }
    }
}

/// In the example zome, an agent just assigned to a role is a member of it.
pub proof fn lemma_assigned_agent_is_member(members: Seq<Seq<char>>, agent: Seq<char>)
    ensures
        members.push(agent).contains(agent),
{
    assert(members.push(agent)[members.len() as int] == agent);
}

/// In the example zome, unassigning an agent that is not a member changes
/// nothing, and unassigning it right after assigning it restores the members.
pub proof fn lemma_unassign_undoes_assign(members: Seq<Seq<char>>, agent: Seq<char>)
    requires
        !members.contains(agent),
    ensures
        members.remove_value(agent) == members,
        members.push(agent).remove_value(agent) == members,
{
    members.index_of_first_ensures(agent);
    let pushed = members.push(agent);
    pushed.index_of_first_ensures(agent);
    assert(pushed[members.len() as int] == agent);
    let k = pushed.index_of_first(agent)->Some_0;
    if k < members.len() {
        assert(members[k] == pushed[k]);
    }
    assert(pushed.remove(members.len() as int) =~= members);
}

/// In the example zome, unassigning a member removes exactly one of its
/// occurrences and keeps every other member.
pub proof fn lemma_unassign_removes_one(members: Seq<Seq<char>>, agent: Seq<char>)
    requires
        members.contains(agent),
    ensures
        members.remove_value(agent).len() == members.len() - 1,
        members.remove_value(agent).to_multiset() == members.to_multiset().remove(agent),
{
    members.index_of_first_ensures(agent);
    let k = members.index_of_first(agent)->Some_0;
    vstd::seq_lib::to_multiset_remove(members, k);
}

/// A model of the DHT as an assignment update sees it. Entries are stored at
/// the address of their content; an update of an entry adds a version to it,
/// and a read of the address of any of its versions gives the newest one.
pub struct DhtModel {
    /// The targets of the links from each base with each link type and tag.
    pub links: Map<(Seq<char>, Seq<char>, Seq<char>), Seq<Seq<char>>>,
    /// The versions of each entry, oldest first, keyed by the address of its
    /// first version; each with the time of the header that wrote it.
    pub chains: Map<Seq<char>, Seq<(RoleAssignmentView, i64)>>,
    /// For the address of each version, the address of its entry's first
    /// version.
    pub versions: Map<Seq<char>, Seq<char>>,
    /// The address of an entry with the given content.
    pub address_of: spec_fn(RoleAssignmentView) -> Seq<char>,
}

/// The message of a read of an address that holds no assignment.
pub open spec fn not_found() -> Seq<char> {
    seq!['n', 'o', 't', ' ', 'f', 'o', 'u', 'n', 'd']
}

/// The targets of the links from `base` with `link_type` and `tag`.
pub open spec fn targets(dht: DhtModel, key: (Seq<char>, Seq<char>, Seq<char>)) -> Seq<Seq<char>> {
    if dht.links.contains_key(key) {
        dht.links[key]
    } else {
        Seq::empty()
    }
}

/// The versions of the entry that `address` holds a version of, if any.
pub open spec fn chain_at(dht: DhtModel, address: Seq<char>) -> Option<Seq<(RoleAssignmentView, i64)>> {
    if dht.versions.contains_key(address) && dht.chains.contains_key(dht.versions[address])
        && dht.chains[dht.versions[address]].len() > 0 {
        Some(dht.chains[dht.versions[address]])
    } else {
        None
    }
}

/// What a read of `address` gives: the newest version of its entry.
pub open spec fn newest_at(dht: DhtModel, address: Seq<char>) -> Option<RoleAssignmentView> {
    match chain_at(dht, address) {
        Some(c) => Some(c.last().0),
        None => None,
    }
}

/// How the DHT answers a call made at time `now`, and what it holds
/// afterwards. A commit stores the entry at the address of its content (where
/// that address holds nothing yet); an update adds the new content as the
/// newest version of the entry that the given address holds a version of.
pub open spec fn dht_answer(dht: DhtModel, call: CallView, now: i64) -> (DhtModel, ReplyView) {
    match call {
        CallView::GetLinks { base, link_type, tag } => (dht, ReplyView::Addresses(targets(dht, (base, link_type, tag)))),
        CallView::LoadAssignment { address } => match newest_at(dht, address) {
            Some(a) => (dht, ReplyView::Assignment(a)),
            None => (dht, ReplyView::Failed(not_found())),
        },
        CallView::CommitAssignment { assignment } => {
            let a = (dht.address_of)(assignment);
            if dht.versions.contains_key(a) {
                (dht, ReplyView::Address(a))
            } else {
                (
                    DhtModel {
                        chains: dht.chains.insert(a, seq![(assignment, now)]),
                        versions: dht.versions.insert(a, a),
                        ..dht
                    },
                    ReplyView::Address(a),
                )
            }
        },
        CallView::UpdateAssignment { address, assignment } => match chain_at(dht, address) {
            Some(c) => {
                let first = dht.versions[address];
                let a = (dht.address_of)(assignment);
                (
                    DhtModel {
                        chains: dht.chains.insert(first, c.push((assignment, now))),
                        versions: dht.versions.insert(a, first),
                        ..dht
                    },
                    ReplyView::Address(a),
                )
            },
            None => (dht, ReplyView::Failed(not_found())),
        },
        CallView::LinkEntries { base, target, link_type, tag } => (
            DhtModel {
                links: dht.links.insert((base, link_type, tag), targets(dht, (base, link_type, tag)).push(target)),
                ..dht
            },
            ReplyView::Done,
        ),
    }
}

/// An update run against the DHT at time `now`: each call it makes is answered
/// by the DHT, for at most `fuel` calls. Returns where the update and the DHT
/// end.
pub open spec fn drive(u: UpdateView, call: Option<CallView>, dht: DhtModel, now: i64, fuel: nat) -> (UpdateView, DhtModel)
    decreases fuel,
{
    match call {
        None => (u, dht),
        Some(c) => if fuel == 0 {
            (u, dht)
        } else {
            let answered = dht_answer(dht, c, now);
            let n = update_next(u, answered.1);
            drive(n.0, n.1, answered.0, now, (fuel - 1) as nat)
        },
    }
}

/// An update of the assignment of `role` to `agent` towards `assigned`, where
/// `anchor` is the role's anchor, run against the DHT at time `now`.
pub open spec fn run_update(role: Seq<char>, agent: Seq<char>, assigned: bool, anchor: Seq<char>, dht: DhtModel, now: i64) -> (UpdateView, DhtModel) {
    let s = update_start(role, agent, assigned, anchor);
    drive(s.0, Some(s.1), dht, now, 5)
}

/// The key of the links from `agent` to its assignments of `role`.
pub open spec fn agent_key(agent: Seq<char>, role: Seq<char>) -> (Seq<char>, Seq<char>, Seq<char>) {
    (agent, AGENT_TO_ASSIGNMENT_LINK_TYPE@, role)
}

/// The key of the links from a role's anchor to its assignments to `agent`.
pub open spec fn anchor_key(anchor: Seq<char>, agent: Seq<char>) -> (Seq<char>, Seq<char>, Seq<char>) {
    (anchor, ROLE_TO_ASSIGNMENT_LINK_TYPE@, agent)
}

/// The address of the agent's initial assignment of the role: where the role
/// checks read.
pub open spec fn home(dht: DhtModel, agent: Seq<char>, role: Seq<char>) -> Seq<char> {
    (dht.address_of)(initial_assignment(role, agent))
}

/// The entry that a read of `address` hands `has_agent_role`.
pub open spec fn stored_at(dht: DhtModel, address: Seq<char>) -> StoredEntryView {
    match newest_at(dht, address) {
        Some(a) => StoredEntryView::Assignment(a),
        None => StoredEntryView::Absent,
    }
}

/// The versions of an entry as a history: each with the timestamp of the
/// header that wrote it; all but the newest modified.
pub open spec fn history_of(c: Seq<(RoleAssignmentView, i64)>) -> Seq<HistoryItemView> {
    Seq::new(
        c.len(),
        |i: int|
            HistoryItemView {
                header_timestamps: seq![c[i].1],
                entry: StoredEntryView::Assignment(c[i].0),
                crud_status: Some(if i == c.len() - 1 { CrudStatus::Live } else { CrudStatus::Modified }),
            },
    )
}

/// The history that a read of all versions at `address` hands
/// `had_agent_role`.
pub open spec fn history_at(dht: DhtModel, address: Seq<char>) -> Option<Seq<HistoryItemView>> {
    match chain_at(dht, address) {
        Some(c) => Some(history_of(c)),
        None => None,
    }
}

/// The assignments that the agent's links for the role lead to, as
/// `get_agent_roles` loads them.
pub open spec fn linked_assignments(dht: DhtModel, agent: Seq<char>, role: Seq<char>) -> Seq<RoleAssignmentView> {
    targets(dht, agent_key(agent, role)).map_values(|a: Seq<char>| newest_at(dht, a)->Some_0)
}

/// Every version of the entry at `address` was written at `now` or before.
pub open spec fn written_by(dht: DhtModel, address: Seq<char>, now: i64) -> bool {
    chain_at(dht, address) matches Some(c) ==> forall|j: int| 0 <= j < c.len() ==> (#[trigger] c[j]).1 <= now
}

/// The DHT is consistent for `agent`, `role` and the role's `anchor`: the
/// anchor links to the same assignments for the agent as the agent does for
/// the role; without such links nothing is stored at the address of the
/// agent's initial assignment; with them, every one leads to a version of the
/// entry first stored there, whose versions all assign that role to that
/// agent.
pub open spec fn consistent_for(dht: DhtModel, agent: Seq<char>, role: Seq<char>, anchor: Seq<char>) -> bool {
    let t = targets(dht, agent_key(agent, role));
    let h = home(dht, agent, role);
    &&& targets(dht, anchor_key(anchor, agent)) == t
    &&& t.len() == 0 ==> !dht.versions.contains_key(h)
    &&& t.len() > 0 ==> {
        &&& chain_at(dht, h) is Some
        &&& dht.versions[h] == h
        &&& forall|i: int| 0 <= i < t.len() ==> dht.versions.contains_key(#[trigger] t[i]) && dht.versions[t[i]] == h
        &&& forall|j: int|
            0 <= j < dht.chains[h].len() ==> (#[trigger] dht.chains[h][j]).0.role_name == role && dht.chains[h][j].0.agent_address
                == agent
    }
}

pub open spec fn ends_well(u: UpdateView) -> bool {
    u.step == (StepView::Finished { result: Ok(()) })
}

proof fn lemma_link_types_differ()
    ensures
        AGENT_TO_ASSIGNMENT_LINK_TYPE@ != ROLE_TO_ASSIGNMENT_LINK_TYPE@,
{
    reveal_strlit("agent->role_assignment");
    reveal_strlit("role->role_assignment");
    assert(AGENT_TO_ASSIGNMENT_LINK_TYPE@[0] != ROLE_TO_ASSIGNMENT_LINK_TYPE@[0]);
}


proof fn lemma_scan_headed(items: Seq<HistoryItemView>, t: i64)
    requires
        headed(items),
    ensures
        scan_headed(items, t),
    decreases items.len(),
{
    if items.len() > 0 {
        assert(items[0].header_timestamps.len() > 0);
        assert forall|i: int| 0 <= i < items.drop_first().len() implies #[trigger] items.drop_first()[i].header_timestamps.len() > 0 by {
            assert(items.drop_first()[i] == items[i + 1]);
        }
        lemma_scan_headed(items.drop_first(), t);
    }
}

/// Once every version of the entry at `address` has been written (at `t` or
/// before), what `had_agent_role` answers for `t` from the history read there
/// is what `has_agent_role` answers from the entry read there, and the history
/// can be searched at `t`.
pub proof fn lemma_history_agrees_with_read(dht: DhtModel, address: Seq<char>, t: i64)
    requires
        written_by(dht, address, t),
    ensures
        held_at(history_at(dht, address), t) == assignment_status(stored_at(dht, address)),
        history_scannable(Ok(history_at(dht, address)), t),
{
    if let Some(c) = chain_at(dht, address) {
        let items = history_of(c);
        assert forall|i: int| 0 <= i < items.len() implies #[trigger] items[i].header_timestamps.len() > 0
            && earliest(items[i].header_timestamps) <= t by {
            assert(items[i].header_timestamps == seq![c[i].1]);
            assert(c[i].1 <= t);
        }
        lemma_latest_version_decides(items, t);
        lemma_scan_headed(items, t);
        assert(items.last() == items[c.len() - 1]);
    }
}

/// On a DHT consistent for the agent, the role and its anchor, the roles that
/// `get_agent_roles` lists from the assignments the agent's links for the role
/// lead to include the role exactly when `has_agent_role`, reading the address
/// of the agent's initial assignment of it, answers that the agent holds it (or
/// the role is the administrator role and the agent the progenitor).
pub proof fn lemma_listed_roles_agree_with_read(
    dht: DhtModel,
    agent: Seq<char>,
    role: Seq<char>,
    anchor: Seq<char>,
    progenitor: Seq<char>,
)
    requires
        consistent_for(dht, agent, role, anchor),
    ensures
        agent_roles(agent, linked_assignments(dht, agent, role), progenitor).contains(role) == (assignment_status(
            stored_at(dht, home(dht, agent, role)),
        ) == Ok::<bool, Seq<char>>(true) || (progenitor == agent && role == ADMIN_ROLE_NAME@)),
{
    let t = targets(dht, agent_key(agent, role));
    let h = home(dht, agent, role);
    let l = linked_assignments(dht, agent, role);
    lemma_roles_are_assigned(agent, l, progenitor, role);
    if t.len() > 0 {
        let c = dht.chains[h];
        let x = c.last().0;
        assert(c[c.len() - 1] == c.last());
        assert(newest_at(dht, h) == Some(x));
        assert forall|i: int| 0 <= i < l.len() implies #[trigger] l[i] == x by {
            assert(dht.versions[t[i]] == h);
        }
        assert(l[0] == x);
    }
}

/// What a read gives back of a write: an update of the assignment of `role` to
/// `agent` towards `assigned`, run at time `now` against a DHT consistent for
/// them and the role's `anchor`, finishes well and leaves the DHT consistent
/// for them, writing nothing later than `now`; afterwards `has_agent_role`,
/// reading the address of the agent's initial assignment of the role, answers
/// `assigned`, and the roles that `get_agent_roles` lists from the agent's
/// links for the role include it exactly when `assigned` (or it is the
/// administrator role and the agent the progenitor).
pub proof fn lemma_update_takes_effect(
    role: Seq<char>,
    agent: Seq<char>,
    assigned: bool,
    anchor: Seq<char>,
    dht: DhtModel,
    now: i64,
    progenitor: Seq<char>,
)
    requires
        consistent_for(dht, agent, role, anchor),
    ensures
        ({
            let end = run_update(role, agent, assigned, anchor, dht, now);
            let h = home(dht, agent, role);
            &&& ends_well(end.0)
            &&& end.1.address_of == dht.address_of
            &&& consistent_for(end.1, agent, role, anchor)
            &&& written_by(dht, h, now) ==> written_by(end.1, h, now)
            &&& assignment_status(stored_at(end.1, h)) == Ok::<bool, Seq<char>>(assigned)
            &&& agent_roles(agent, linked_assignments(end.1, agent, role), progenitor).contains(role) == (assigned || (
            progenitor == agent && role == ADMIN_ROLE_NAME@))
        }),
{
    lemma_link_types_differ();
    let s = update_start(role, agent, assigned, anchor);
    let key = agent_key(agent, role);
    let akey = anchor_key(anchor, agent);
    assert(key != akey);
    let h = home(dht, agent, role);
    let t = targets(dht, key);
    let end = run_update(role, agent, assigned, anchor, dht, now);
    let a0 = dht_answer(dht, s.1, now);
    assert(a0.1 == ReplyView::Addresses(t));
    let n0 = update_next(s.0, a0.1);
    assert(end == drive(n0.0, n0.1, a0.0, now, 4));
    if t.len() == 0 {
        if assigned {
            let a1 = dht_answer(a0.0, n0.1->Some_0, now);
            assert((dht.address_of)(initial_assignment(role, agent)) == h);
            assert(a1.1 == ReplyView::Address(h));
            let n1 = update_next(n0.0, a1.1);
            assert(end == drive(n1.0, n1.1, a1.0, now, 3));
            let a2 = dht_answer(a1.0, n1.1->Some_0, now);
            let n2 = update_next(n1.0, a2.1);
            assert(end == drive(n2.0, n2.1, a2.0, now, 2));
            let a3 = dht_answer(a2.0, n2.1->Some_0, now);
            let n3 = update_next(n2.0, a3.1);
            assert(end == drive(n3.0, n3.1, a3.0, now, 1));
            assert(n3.1 is None);
            assert(end == (n3.0, a3.0));
            assert(targets(a3.0, key) =~= seq![h]);
            assert(targets(a3.0, akey) =~= seq![h]);
            assert(a3.0.chains[h] == seq![(initial_assignment(role, agent), now)]);
            assert(seq![(initial_assignment(role, agent), now)].last() == (initial_assignment(role, agent), now));
            assert(newest_at(a3.0, h) == Some(initial_assignment(role, agent)));
            assert(seq![h][0] == h);
        } else {
            assert(n0.1 is None);
            assert(end == (n0.0, dht));
        }
    } else {
        let p = t[0];
        let c = dht.chains[h];
        assert(dht.versions[p] == h);
        assert(chain_at(dht, p) == Some(c));
        let previous = c.last().0;
        assert(c[c.len() - 1] == c.last());
        let a1 = dht_answer(a0.0, n0.1->Some_0, now);
        assert(a1.1 == ReplyView::Assignment(previous));
        let n1 = update_next(n0.0, a1.1);
        assert(end == drive(n1.0, n1.1, a1.0, now, 3));
        if previous.assigned == assigned {
            assert(n1.1 is None);
            assert(end == (n1.0, dht));
            assert(newest_at(dht, h) == Some(previous));
        } else {
            let x = replacement(previous, p, assigned);
            let a = (dht.address_of)(x);
            let a2 = dht_answer(a1.0, n1.1->Some_0, now);
            assert(a2.1 == ReplyView::Address(a));
            assert(a2.0.chains[h] == c.push((x, now)));
            let n2 = update_next(n1.0, a2.1);
            assert(end == drive(n2.0, n2.1, a2.0, now, 2));
            let a3 = dht_answer(a2.0, n2.1->Some_0, now);
            let n3 = update_next(n2.0, a3.1);
            assert(end == drive(n3.0, n3.1, a3.0, now, 1));
            let a4 = dht_answer(a3.0, n3.1->Some_0, now);
            let n4 = update_next(n3.0, a4.1);
            assert(end == drive(n4.0, n4.1, a4.0, now, 0));
            assert(end == (n4.0, a4.0));
            assert(targets(a4.0, key) == t.push(a));
            assert(targets(a4.0, akey) == t.push(a));
            let c2 = c.push((x, now));
            assert(a4.0.chains[h] == c2);
            assert(a4.0.versions[h] == h);
            assert(c2.last() == (x, now));
            assert(newest_at(a4.0, h) == Some(x));
            let t2 = t.push(a);
            assert forall|i: int| 0 <= i < t2.len() implies a4.0.versions.contains_key(#[trigger] t2[i]) && a4.0.versions[t2[i]] == h by {
                if i < t.len() {
                    assert(t2[i] == t[i]);
                }
            }
            assert forall|j: int| 0 <= j < c2.len() implies (#[trigger] c2[j]).0.role_name == role && c2[j].0.agent_address == agent by {
                if j < c.len() {
                    assert(c2[j] == c[j]);
                }
            }
            if written_by(dht, h, now) {
                assert forall|j: int| 0 <= j < c2.len() implies (#[trigger] c2[j]).1 <= now by {
                    if j < c.len() {
                        assert(c2[j] == c[j]);
                    }
                }
            }
        }
    }
    lemma_listed_roles_agree_with_read(end.1, agent, role, anchor, progenitor);
}

/// After an update of the assignment of `role` to `agent` towards `assigned`,
/// run at time `now` against a DHT consistent for them and the role's anchor
/// whose versions at the agent's initial assignment address were all written
/// by `now`, every check at a time `t` from `now` on sees the update:
/// `had_agent_role` answers `assigned` from the history read at that address,
/// the history can be searched at `t`, and a validation that requires the role
/// of the agent (where it consults the history) is granted exactly when
/// `assigned`, and refused with the message naming the agent, the role and the
/// entry otherwise.
pub proof fn lemma_update_decides_later_checks(
    role: Seq<char>,
    agent: Seq<char>,
    assigned: bool,
    anchor: Seq<char>,
    dht: DhtModel,
    now: i64,
    t: i64,
    progenitor_property: Seq<char>,
    entry_address: Seq<char>,
)
    requires
        consistent_for(dht, agent, role, anchor),
        written_by(dht, home(dht, agent, role), now),
        now <= t,
    ensures
        ({
            let end = run_update(role, agent, assigned, anchor, dht, now).1;
            let history = history_at(end, home(dht, agent, role));
            &&& held_at(history, t) == Ok::<bool, Seq<char>>(assigned)
            &&& history_scannable(Ok(history), t)
            &&& consults_history(agent, role, progenitor_property) ==> required_role_verdict(
                agent,
                role,
                progenitor_property,
                entry_address,
                t,
                Ok(history),
            ) == if assigned {
                Ok::<(), Seq<char>>(())
            } else {
                Err(missing_role_message(agent, role, entry_address))
            }
        }),
{
    lemma_update_takes_effect(role, agent, assigned, anchor, dht, now, agent);
    let end = run_update(role, agent, assigned, anchor, dht, now).1;
    let h = home(dht, agent, role);
    if let Some(c) = chain_at(end, h) {
        assert forall|j: int| 0 <= j < c.len() implies (#[trigger] c[j]).1 <= t by {
            assert(c[j].1 <= now);
        }
    }
    lemma_history_agrees_with_read(end, h, t);
}

/// Assigning a role and then unassigning it leaves the agent without it, and
/// unassigning and then assigning it leaves the agent with it, from any DHT
/// consistent for the agent, the role and its anchor whose versions at the
/// agent's initial assignment address were written by the first update's
/// time: both updates finish well, and afterwards `has_agent_role`,
/// `had_agent_role` at any time from the second update's on, and the roles
/// that `get_agent_roles` lists from the agent's links for the role all say
/// what the second update asked for.
pub proof fn lemma_updates_compose(
    role: Seq<char>,
    agent: Seq<char>,
    first: bool,
    anchor: Seq<char>,
    dht: DhtModel,
    now1: i64,
    now2: i64,
    t: i64,
    progenitor: Seq<char>,
)
    requires
        consistent_for(dht, agent, role, anchor),
        written_by(dht, home(dht, agent, role), now1),
        now1 <= now2 <= t,
    ensures
        ({
            let mid = run_update(role, agent, first, anchor, dht, now1);
            let end = run_update(role, agent, !first, anchor, mid.1, now2);
            let h = home(dht, agent, role);
            &&& ends_well(mid.0)
            &&& ends_well(end.0)
            &&& assignment_status(stored_at(end.1, h)) == Ok::<bool, Seq<char>>(!first)
            &&& held_at(history_at(end.1, h), t) == Ok::<bool, Seq<char>>(!first)
            &&& agent_roles(agent, linked_assignments(end.1, agent, role), progenitor).contains(role) == (!first || (
            progenitor == agent && role == ADMIN_ROLE_NAME@))
        }),
{
    let mid = run_update(role, agent, first, anchor, dht, now1);
    let h = home(dht, agent, role);
    lemma_update_takes_effect(role, agent, first, anchor, dht, now1, progenitor);
    if let Some(c) = chain_at(mid.1, h) {
        assert forall|j: int| 0 <= j < c.len() implies (#[trigger] c[j]).1 <= now2 by {
            assert(c[j].1 <= now1);
        }
    }
    lemma_update_takes_effect(role, agent, !first, anchor, mid.1, now2, progenitor);
    lemma_update_decides_later_checks(role, agent, !first, anchor, mid.1, now2, t, ADMIN_ROLE_NAME@, agent);
}

/// After an update of the assignment of the administrator role to `agent`
/// towards `assigned`, run against a DHT consistent for them and the role's
/// anchor, `is_agent_admin`, reading the address of the agent's initial
/// assignment of that role, answers that the agent is an administrator exactly
/// when `assigned` or the agent is the progenitor.
pub proof fn lemma_admin_update_takes_effect(
    agent: Seq<char>,
    assigned: bool,
    anchor: Seq<char>,
    dht: DhtModel,
    now: i64,
    progenitor_property: Seq<char>,
    progenitor: Seq<char>,
)
    requires
        consistent_for(dht, agent, ADMIN_ROLE_NAME@, anchor),
        progenitor_of(progenitor_property) == Ok::<Seq<char>, Seq<char>>(progenitor),
    ensures
        ({
            let end = run_update(ADMIN_ROLE_NAME@, agent, assigned, anchor, dht, now).1;
            admin_status(agent, progenitor_property, Ok(stored_at(end, home(dht, agent, ADMIN_ROLE_NAME@))))
                == Ok::<bool, Seq<char>>(progenitor == agent || assigned)
        }),
{
    lemma_update_takes_effect(ADMIN_ROLE_NAME@, agent, assigned, anchor, dht, now, progenitor);
}

/// In the example zome, whether the agent had a role at `t` is decided by the
/// status of the version of its assignment in force at `t`: it had the role
/// unless that version was deleted, rejected or locked, so a live version and
/// a version modified afterwards both count. With no version in force at `t`,
/// or no history at all, it did not have the role.
pub proof fn lemma_example_held_by_status(items: Seq<HistoryItemView>, t: i64, i: int, status: CrudStatus)
    requires
        version_in_force(items, t) == Some(i),
        items[i].crud_status == Some(status),
    ensures
        alive_at(Some(items), t) == (status != CrudStatus::Deleted && status != CrudStatus::Rejected && status
            != CrudStatus::Locked),
        status == CrudStatus::Modified ==> alive_at(Some(items), t),
        status == CrudStatus::Live ==> alive_at(Some(items), t),
{
}

/// In the example zome, no version in force at `t`, or no history, means the
/// role was not held at `t`.
pub proof fn lemma_example_not_held_without_version(items: Seq<HistoryItemView>, t: i64)
    requires
        version_in_force(items, t) is None,
    ensures
        !alive_at(Some(items), t),
        !alive_at(None, t),
{
}

/// In the example zome's required-role check, only the administrator role is
/// granted to the progenitor without looking at the history: for any other
/// role the progenitor is judged like every agent, granted exactly when the
/// version of its assignment in force at `t` was alive (not deleted, rejected
/// or locked), and refused with the message naming it, the role and the entry
/// when it has no assignment or none in force.
pub proof fn lemma_example_other_roles_need_an_assignment(
    agent: Seq<char>,
    role_name: Seq<char>,
    progenitor_property: Seq<char>,
    progenitor: Seq<char>,
    entry_address: Seq<char>,
    t: i64,
    history: Option<Seq<HistoryItemView>>,
)
    requires
        progenitor_of(progenitor_property) == Ok::<Seq<char>, Seq<char>>(progenitor),
        role_name != crate::example_zome::roles::ADMIN_ROLE_NAME@,
    ensures
        history is None ==> example_role_verdict(agent, role_name, progenitor_property, entry_address, t, Ok(history))
            == Err::<(), Seq<char>>(missing_role_message(agent, role_name, entry_address)),
        history matches Some(items) ==> version_in_force(items, t) is None ==> example_role_verdict(
            agent,
            role_name,
            progenitor_property,
            entry_address,
            t,
            Ok(history),
        ) == Err::<(), Seq<char>>(missing_role_message(agent, role_name, entry_address)),
        history matches Some(items) ==> (version_in_force(items, t) matches Some(i) ==> (items[i].crud_status matches Some(
            status,
        ) ==> example_role_verdict(agent, role_name, progenitor_property, entry_address, t, Ok(history))
            == if status != CrudStatus::Deleted && status != CrudStatus::Rejected && status != CrudStatus::Locked {
                Ok::<(), Seq<char>>(())
            } else {
                Err(missing_role_message(agent, role_name, entry_address))
            })),
{
    if let Some(items) = history {
        if let Some(i) = version_in_force(items, t) {
            if let Some(status) = items[i].crud_status {
                lemma_example_held_by_status(items, t, i, status);
            }
        }
    }
}

/// In the example zome, an agent other than the progenitor is an
/// administrator exactly when it appears, at any position, among the members
/// of the administrator role.
pub proof fn lemma_example_admins_are_members(
    agent: Seq<char>,
    progenitor_property: Seq<char>,
    progenitor: Seq<char>,
    admin_role: RoleView,
)
    requires
        progenitor_of(progenitor_property) == Ok::<Seq<char>, Seq<char>>(progenitor),
        progenitor != agent,
    ensures
        example_admin_status(agent, progenitor_property, Ok(admin_role)) == Ok::<bool, Seq<char>>(
            exists|i: int| 0 <= i < admin_role.members.len() && #[trigger] admin_role.members[i] == agent,
        ),
        forall|i: int|
            0 <= i < admin_role.members.len() && #[trigger] admin_role.members[i] == agent ==> example_admin_status(
                agent,
                progenitor_property,
                Ok(admin_role),
            ) == Ok::<bool, Seq<char>>(true),
{
}

/// In the roles zome, an agent that the `initial_admins` list does not name is
/// an administrator exactly when its chain holds an assignment of the
/// administrator role to it, whoever else the list names.
pub proof fn lemma_assigned_admins_are_admins(
    chain: Seq<ChainEntryView>,
    initial_admins_property: Seq<char>,
    admin_role: Seq<char>,
    agent: Seq<char>,
    admins: Seq<Seq<char>>,
)
    requires
        chain_agent(chain) == Ok::<Seq<char>, Seq<char>>(agent),
        initial_admins_of(initial_admins_property) == Ok::<Seq<Seq<char>>, Seq<char>>(admins),
        !admins.contains(agent),
    ensures
        chain_admin_status(chain, initial_admins_property, Ok(admin_role)) == Ok::<bool, Seq<char>>(
            exists|i: int|
                0 <= i < chain.len() && (#[trigger] chain[i] matches ChainEntryView::Assignment(a) && a.role_address
                    == admin_role && a.agent_address == agent),
        ),
{
    let found = exists|i: int|
        0 <= i < chain.len() && (#[trigger] chain[i] matches ChainEntryView::Assignment(a) && a.role_address == admin_role
            && a.agent_address == agent);
    if found {
        let i = choose|i: int|
            0 <= i < chain.len() && (#[trigger] chain[i] matches ChainEntryView::Assignment(a) && a.role_address
                == admin_role && a.agent_address == agent);
        assert(crate::roles_zome::validation::entry_assigns(chain[i], admin_role, agent));
    }
    if crate::roles_zome::validation::chain_assigns(chain, admin_role, agent) {
        let i = choose|i: int| 0 <= i < chain.len() && #[trigger] crate::roles_zome::validation::entry_assigns(chain[i], admin_role, agent);
        assert(chain[i] matches ChainEntryView::Assignment(a) && a.role_address == admin_role && a.agent_address == agent);
    }
}

/// The administrator checks pass their inputs' errors on: in the roles zome,
/// a chain without an identity entry, an unreadable `initial_admins` property,
/// or (for an agent the list does not name) an error computing the
/// administrator role's address; in the example zome, an unreadable
/// `progenitor` property, or (for any agent but the progenitor) an unreadable
/// administrator role; and in the example's required-role check, an unreadable
/// property, or a failed history read where the history is consulted.
pub proof fn lemma_admin_checks_pass_errors_on(
    chain: Seq<ChainEntryView>,
    initial_admins_property: Seq<char>,
    agent: Seq<char>,
    progenitor_property: Seq<char>,
    e: Seq<char>,
    role_name: Seq<char>,
    entry_address: Seq<char>,
    t: i64,
)
    ensures
        chain_agent(chain) == Err::<Seq<char>, Seq<char>>(e) ==> chain_admin_status(
            chain,
            initial_admins_property,
            Err(e),
        ) == Err::<bool, Seq<char>>(e),
        chain_agent(chain) == Ok::<Seq<char>, Seq<char>>(agent) && initial_admins_of(initial_admins_property) == Err::<
            Seq<Seq<char>>,
            Seq<char>,
        >(e) ==> chain_admin_status(chain, initial_admins_property, Err(e)) == Err::<bool, Seq<char>>(e),
        chain_agent(chain) == Ok::<Seq<char>, Seq<char>>(agent) ==> (initial_admins_of(initial_admins_property) matches Ok(
            list,
        ) ==> (!list.contains(agent) ==> chain_admin_status(chain, initial_admins_property, Err(e)) == Err::<bool, Seq<char>>(
            e,
        ))),
        progenitor_of(progenitor_property) == Err::<Seq<char>, Seq<char>>(e) ==> example_admin_status(
            agent,
            progenitor_property,
            Err(e),
        ) == Err::<bool, Seq<char>>(e) && example_role_verdict(agent, role_name, progenitor_property, entry_address, t, Err(e))
            == Err::<(), Seq<char>>(e),
        progenitor_of(progenitor_property) matches Ok(p) ==> (p != agent ==> example_admin_status(
            agent,
            progenitor_property,
            Err(e),
        ) == Err::<bool, Seq<char>>(e) && example_role_verdict(agent, role_name, progenitor_property, entry_address, t, Err(e))
            == Err::<(), Seq<char>>(e)),
{
}

} // verus!
