//! The example zome: a test entry type that only administrators may create,
//! with roles kept as entries that list their members.
use vstd::prelude::*;

use crate::entry_def::{EntryDefinition, EntryDefinitionView, LinkDefinition, Rule, RuleView, Sharing};
use crate::owned;
use crate::progenitor::{get_progenitor_address, progenitor_of};
use crate::validation::{
    history_view, scan_headed, missing_role, missing_role_message, opt_history_result_view,
    opt_history_view, unit_result_view, version_at, version_in_force, CrudStatus, HistoryItem,
    HistoryItemView,
};

pub mod roles;

verus! {

/// Entry type of the test entries.
pub const TEST_ENTRY_TYPE: &'static str = "test";

/// Description of the test entry type.
pub const TEST_ENTRY_DESCRIPTION: &'static str = "a test entry to validate that roles are working";

/// Message that refuses any change to a test entry.
pub const NO_CHANGE_MESSAGE: &'static str = "Cannot modify roles";

/// Initialises the zome; it has nothing to set up.
pub fn init() -> (res: Result<(), String>)
    ensures
        res is Ok,
{
    Ok(())
}

/// Validates the agent that joins the network, given its address: every agent
/// is accepted.
pub fn validate_agent(agent_address: &String) -> (res: Result<(), String>)
    ensures
        res is Ok,
{
    Ok(())
}

/// The test entry type: public; created only by agents whose assignment of the
/// administrator role was alive when they created it (the progenitor always
/// may), by the example zome's own check; never modified or deleted.
pub open spec fn test_entry_definition() -> EntryDefinitionView {
    EntryDefinitionView {
        name: TEST_ENTRY_TYPE@,
        description: TEST_ENTRY_DESCRIPTION@,
        sharing: Sharing::Public,
        on_create: RuleView::RequireLiveRole(roles::ADMIN_ROLE_NAME@),
        on_modify: RuleView::Reject(NO_CHANGE_MESSAGE@),
        on_delete: RuleView::Reject(NO_CHANGE_MESSAGE@),
        links: Seq::empty(),
    }
}

/// The definition of the test entry type.
pub fn custom_entry() -> (def: EntryDefinition)
    ensures
        def@ == test_entry_definition(),
{
    let links: Vec<LinkDefinition> = Vec::new();
    let def = EntryDefinition {
        name: owned(TEST_ENTRY_TYPE),
        description: owned(TEST_ENTRY_DESCRIPTION),
        sharing: Sharing::Public,
        on_create: Rule::RequireLiveRole(owned(roles::ADMIN_ROLE_NAME)),
        on_modify: Rule::Reject(owned(NO_CHANGE_MESSAGE)),
        on_delete: Rule::Reject(owned(NO_CHANGE_MESSAGE)),
        links,
    };
    assert(def@.links =~= test_entry_definition().links);
    def
}

/// A version is alive unless it was deleted, rejected or locked.
pub open spec fn alive(status: CrudStatus) -> bool {
    !(status == CrudStatus::Deleted || status == CrudStatus::Rejected || status == CrudStatus::Locked)
}

/// Whether a version of an entry is alive; no version is not.
pub fn is_item_alive(maybe_item: Option<&HistoryItem>) -> (live: bool)
    requires
        maybe_item matches Some(item) ==> item.crud_status is Some,
    ensures
        live == match maybe_item {
            Some(item) => alive(item.crud_status->Some_0),
            None => false,
        },
{
    if let Some(item) = maybe_item {
        let status = item.crud_status.unwrap();
        let result = match status {
            CrudStatus::Deleted => false,
            CrudStatus::Rejected => false,
            CrudStatus::Locked => false,
            _ => true,
        };
        return result;
    }
    false
}

/// The version in force at `t` carries its status.
pub open spec fn status_known_at(items: Seq<HistoryItemView>, t: i64) -> bool {
    version_in_force(items, t) matches Some(i) ==> items[i].crud_status is Some
}

/// Whether the agent had the role at time `t`: whether the version in force at
/// `t` of the entry at the address of its initial assignment was alive.
pub open spec fn alive_at(history: Option<Seq<HistoryItemView>>, t: i64) -> bool {
    match history {
        None => false,
        Some(items) => match version_in_force(items, t) {
            None => false,
            Some(i) => alive(items[i].crud_status->Some_0),
        },
    }
}

/// Whether the agent had the role at time `t`, given the history of the entry
/// at the address of its initial assignment of that role.
pub fn had_agent_role(history: &Option<Vec<HistoryItem>>, t: i64) -> (had: bool)
    requires
        history matches Some(items) ==> scan_headed(history_view(items@), t) && status_known_at(history_view(items@), t),
    ensures
        had == alive_at(opt_history_view(*history), t),
{
    match history {
        None => false,
        Some(items) => match version_at(items, t) {
            None => false,
            Some(i) => is_item_alive(Some(&items[i])),
        },
    }
}

/// A history read, where it was read and found, can be searched at `t` and
/// its version in force carries its status.
pub open spec fn live_history_searchable(history: Result<Option<Seq<HistoryItemView>>, Seq<char>>, t: i64) -> bool {
    match history {
        Ok(Some(items)) => scan_headed(items, t) && status_known_at(items, t),
        _ => true,
    }
}

/// Whether the example's required-role check looks at the history: it does
/// unless the progenitor property is unreadable or the agent is the progenitor
/// and the role the administrator role.
pub open spec fn consults_example_history(agent: Seq<char>, role_name: Seq<char>, progenitor_property: Seq<char>) -> bool {
    match progenitor_of(progenitor_property) {
        Ok(p) => !(role_name == roles::ADMIN_ROLE_NAME@ && p == agent),
        Err(_) => false,
    }
}

/// Whether the example's [`validate_required_role`] looks at the history for
/// these arguments (see [`consults_example_history`]).
pub fn looks_at_history(agent_address: &String, role_name: &String, progenitor_property: &str) -> (looks: bool)
    ensures
        looks == consults_example_history(agent_address@, role_name@, progenitor_property@),
{
    match get_progenitor_address(progenitor_property) {
        Ok(p) => !(*role_name == owned(roles::ADMIN_ROLE_NAME) && p == *agent_address),
        Err(_) => false,
    }
}

/// Whether the version of a history in force at `t` carries its status (see
/// [`status_known_at`]).
pub fn status_known(items: &Vec<HistoryItem>, t: i64) -> (known: bool)
    requires
        scan_headed(history_view(items@), t),
    ensures
        known == status_known_at(history_view(items@), t),
{
    match version_at(items, t) {
        Some(i) => items[i].crud_status.is_some(),
        None => true,
    }
}

/// Whether a validation that requires `role_name` of `agent`, for an entry at
/// `entry_address` committed at `t`, is granted: the progenitor is granted the
/// administrator role; anyone else is granted a role whose assignment was alive
/// at `t`, and refused with a message naming the agent, the role and the entry
/// otherwise.
pub open spec fn example_role_verdict(
    agent: Seq<char>,
    role_name: Seq<char>,
    progenitor_property: Seq<char>,
    entry_address: Seq<char>,
    t: i64,
    history: Result<Option<Seq<HistoryItemView>>, Seq<char>>,
) -> Result<(), Seq<char>> {
    match progenitor_of(progenitor_property) {
        Err(e) => Err(e),
        Ok(p) => if role_name == roles::ADMIN_ROLE_NAME@ && p == agent {
            Ok(())
        } else {
            match history {
                Err(e) => Err(e),
                Ok(h) => if alive_at(h, t) {
                    Ok(())
                } else {
                    Err(missing_role_message(agent, role_name, entry_address))
                },
            }
        },
    }
}

/// Validates that `agent_address`, the first source of an entry at
/// `entry_address` committed at `timestamp`, had the role `role_name` at that
/// time. `history` is the read of the history of the entry at the address of
/// the agent's initial assignment of the role; it is not looked at when the
/// agent is the progenitor and the role is the administrator role.
pub fn validate_required_role(
    agent_address: &String,
    role_name: &String,
    progenitor_property: &str,
    entry_address: &String,
    timestamp: i64,
    history: &Result<Option<Vec<HistoryItem>>, String>,
) -> (verdict: Result<(), String>)
    requires
        consults_example_history(agent_address@, role_name@, progenitor_property@) ==> live_history_searchable(
            opt_history_result_view(*history),
            timestamp,
        ),
    ensures
        unit_result_view(verdict) == example_role_verdict(
            agent_address@,
            role_name@,
            progenitor_property@,
            entry_address@,
            timestamp,
            opt_history_result_view(*history),
        ),
{
    let progenitor_address = get_progenitor_address(progenitor_property)?;
    if *role_name == owned(roles::ADMIN_ROLE_NAME) && progenitor_address == *agent_address {
        return Ok(());
    }
    let had = match history {
        Ok(h) => had_agent_role(h, timestamp),
        Err(e) => return Err(e.clone()),
    };
    if had {
        Ok(())
    } else {
        Err(missing_role(agent_address, role_name, entry_address))
    }
}

} // verus!
