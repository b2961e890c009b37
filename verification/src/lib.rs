//! Administrator and dynamic roles for a Holochain application, following the
//! progenitor pattern.
//!
//! The library holds the decisions of the roles mixin as verified functions over
//! plain values: which role assignment entries are written or updated, which
//! links are made, which roles an agent holds, and whether a validation request is
//! granted. Reading and writing the DHT is left to the caller, which hands the
//! library what it read and performs what the library asks for.
use vstd::prelude::*;

use crate::entry_def::{
    EntryDefinition, EntryDefinitionView, LinkDefinition, LinkDefinitionView, LinkDirection, Rule,
    RuleView, Sharing,
};

pub mod entry_def;
pub mod example_zome;
pub mod handlers;
pub mod laws;
pub mod progenitor;
pub mod roles_zome;
pub mod validation;

verus! {

/// Entry type of a role assignment.
pub const ROLE_ASSIGNMENT_TYPE: &'static str = "role_assignment";

/// Link type from an agent to the role assignments that name it.
pub const AGENT_TO_ASSIGNMENT_LINK_TYPE: &'static str = "agent->role_assignment";

/// Link type from a role anchor to the role assignments of that role.
pub const ROLE_TO_ASSIGNMENT_LINK_TYPE: &'static str = "role->role_assignment";

/// Name of the administrator role.
pub const ADMIN_ROLE_NAME: &'static str = "Admin";

/// Link type from the root anchor of all roles to a role's anchor.
pub const ANCHOR_LINK_TYPE: &'static str = "holochain_anchors::anchor_link";

/// Entry type of the anchors that the anchors mixin commits.
pub const ANCHOR_TYPE: &'static str = "anchor";

/// Entry type that stands for an agent's own identity as the base of links.
pub const AGENT_ID_TYPE: &'static str = "%agent_id";

/// Description of the role assignment entry type.
pub const ROLE_ASSIGNMENT_DESCRIPTION: &'static str = "role assignment entry that contains a role name and the members of that role";

/// Owned copy of one of the library's string constants.
pub(crate) fn owned(text: &str) -> (s: String)
    ensures
        s@ == text@,
{
    text.to_string()
}

/// The view of an optional address.
pub open spec fn opt_view(a: Option<String>) -> Option<Seq<char>> {
    match a {
        Some(s) => Some(s@),
        None => None,
    }
}

/// A role assignment entry: whether `agent_address` holds the role `role_name`.
///
/// Each change of an assignment commits a new entry that points back to the
/// entry it replaces through `previous_assignment_address`.
#[derive(Debug, PartialEq, Eq)]
pub struct RoleAssignment {
    pub role_name: String,
    pub agent_address: String,
    pub assigned: bool,
    pub previous_assignment_address: Option<String>,
}

/// Mathematical model of a [`RoleAssignment`].
pub struct RoleAssignmentView {
    pub role_name: Seq<char>,
    pub agent_address: Seq<char>,
    pub assigned: bool,
    pub previous_assignment_address: Option<Seq<char>>,
}

impl View for RoleAssignment {
    type V = RoleAssignmentView;

    open spec fn view(&self) -> RoleAssignmentView {
        RoleAssignmentView {
            role_name: self.role_name@,
            agent_address: self.agent_address@,
            assigned: self.assigned,
            previous_assignment_address: opt_view(self.previous_assignment_address),
        }
    }
}

/// The first assignment entry of `role_name` to `agent_address`: assigned, with
/// no previous entry. Its address identifies the pair for good.
pub open spec fn initial_assignment(role_name: Seq<char>, agent_address: Seq<char>) -> RoleAssignmentView {
    RoleAssignmentView {
        role_name,
        agent_address,
        assigned: true,
        previous_assignment_address: None,
    }
}

impl Clone for RoleAssignment {
    fn clone(&self) -> (copy: Self)
        ensures
            copy@ == self@,
    {
        RoleAssignment {
            role_name: self.role_name.clone(),
            agent_address: self.agent_address.clone(),
            assigned: self.assigned,
            previous_assignment_address: match &self.previous_assignment_address {
                Some(a) => Some(a.clone()),
                None => None,
            },
        }
    }
}

impl RoleAssignment {
    /// The initial assignment of `role_name` to `agent_address`.
    pub fn from(role_name: String, agent_address: String) -> (assignment: RoleAssignment)
        ensures
            assignment@ == initial_assignment(role_name@, agent_address@),
    {
        RoleAssignment { role_name, agent_address, assigned: true, previous_assignment_address: None }
    }
}

/// The rule that only administrators pass.
pub open spec fn admins_only() -> RuleView {
    RuleView::RequireRole(ADMIN_ROLE_NAME@)
}

/// The role assignment entry type: public; created, updated to a new version,
/// deleted and linked only by agents that were administrators when they did
/// it (an unassignment updates the assignment entry). Agents and role anchors
/// link to its entries.
pub open spec fn role_assignment_definition() -> EntryDefinitionView {
    EntryDefinitionView {
        name: ROLE_ASSIGNMENT_TYPE@,
        description: ROLE_ASSIGNMENT_DESCRIPTION@,
        sharing: Sharing::Public,
        on_create: admins_only(),
        on_modify: admins_only(),
        on_delete: admins_only(),
        links: seq![
            LinkDefinitionView {
                direction: LinkDirection::From,
                other_type: AGENT_ID_TYPE@,
                link_type: AGENT_TO_ASSIGNMENT_LINK_TYPE@,
                on_add: admins_only(),
                on_remove: admins_only(),
            },
            LinkDefinitionView {
                direction: LinkDirection::From,
                other_type: ANCHOR_TYPE@,
                link_type: ROLE_TO_ASSIGNMENT_LINK_TYPE@,
                on_add: admins_only(),
                on_remove: admins_only(),
            },
        ],
    }
}

fn admin_rule() -> (rule: Rule)
    ensures
        rule@ == admins_only(),
{
    Rule::RequireRole(owned(ADMIN_ROLE_NAME))
}

/// The definition of the role assignment entry type, which the zome that
/// includes this library must register.
pub fn role_assignment_entry_def() -> (def: EntryDefinition)
    ensures
        def@ == role_assignment_definition(),
{
    let mut links: Vec<LinkDefinition> = Vec::new();
    links.push(LinkDefinition {
        direction: LinkDirection::From,
        other_type: owned(AGENT_ID_TYPE),
        link_type: owned(AGENT_TO_ASSIGNMENT_LINK_TYPE),
        on_add: admin_rule(),
        on_remove: admin_rule(),
    });
    links.push(LinkDefinition {
        direction: LinkDirection::From,
        other_type: owned(ANCHOR_TYPE),
        link_type: owned(ROLE_TO_ASSIGNMENT_LINK_TYPE),
        on_add: admin_rule(),
        on_remove: admin_rule(),
    });
    let def = EntryDefinition {
        name: owned(ROLE_ASSIGNMENT_TYPE),
        description: owned(ROLE_ASSIGNMENT_DESCRIPTION),
        sharing: Sharing::Public,
        on_create: admin_rule(),
        on_modify: admin_rule(),
        on_delete: admin_rule(),
        links,
    };
    assert(def@.links =~= role_assignment_definition().links);
    def
}

} // verus!
