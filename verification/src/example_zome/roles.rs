//! Roles of the example zome: each role is one entry that lists its members,
//! updated in place as agents are assigned and unassigned.
use vstd::prelude::*;

use crate::entry_def::{
    EntryDefinition, EntryDefinitionView, LinkDefinition, LinkDefinitionView, LinkDirection, Rule,
    RuleView, Sharing,
};
use crate::progenitor::{get_progenitor_address, progenitor_of};
use crate::validation::{bool_result_view, unit_result_view};
use crate::{owned, AGENT_ID_TYPE, ANCHOR_TYPE};

verus! {

/// Entry type of a role.
pub const ROLE_TYPE: &'static str = "role";

/// Link type from an agent to a role.
pub const AGENT_TO_ROLE_LINK_TYPE: &'static str = "agent->role";

/// Link type from the anchor of all roles to a role.
pub const ANCHOR_TO_ROLE_LINK_TYPE: &'static str = "anchor->role";

/// Name of the administrator role.
pub const ADMIN_ROLE_NAME: &'static str = "Admin";

/// Description of the role entry type.
pub const ROLE_DESCRIPTION: &'static str = "role for ";

/// Message that refuses a role created by an agent that is not an administrator.
pub const ADMINS_ONLY_MESSAGE: &'static str = "Only admins can create roles";

/// Message that refuses the deletion of a role.
pub const NO_DELETE_MESSAGE: &'static str = "Cannot delete roles";

/// Message that refuses a new role entry without members.
pub const EMPTY_ROLE_MESSAGE: &'static str = "The first role entry cannot have any members";

/// A role and the addresses of its members, in the order they were assigned.
#[derive(Debug, Clone, PartialEq, Eq)]
pub struct Role {
    pub role_name: String,
    pub members: Vec<String>,
}

pub struct RoleView {
    pub role_name: Seq<char>,
    pub members: Seq<Seq<char>>,
}

impl View for Role {
    type V = RoleView;

    open spec fn view(&self) -> RoleView {
        RoleView { role_name: self.role_name@, members: self.members.deep_view() }
    }
}

impl Role {
    /// The role called `role_name` with `members`.
    pub fn from(role_name: String, members: Vec<String>) -> (role: Role)
        ensures
            role@ == (RoleView { role_name: role_name@, members: members.deep_view() }),
    {
        Role { role_name, members }
    }
}

/// The role entry type: public; a new role must list members (see
/// [`validate_new_role`]) and be created by an administrator; modified only by
/// administrators; never deleted. Agents and the anchor of all roles link to
/// roles.
pub open spec fn role_definition() -> EntryDefinitionView {
    EntryDefinitionView {
        name: ROLE_TYPE@,
        description: ROLE_DESCRIPTION@,
        sharing: Sharing::Public,
        on_create: RuleView::RequireValidContentByAdmin(ADMINS_ONLY_MESSAGE@),
        on_modify: RuleView::RequireAdmin(ADMINS_ONLY_MESSAGE@),
        on_delete: RuleView::Reject(NO_DELETE_MESSAGE@),
        links: seq![
            LinkDefinitionView {
                direction: LinkDirection::From,
                other_type: AGENT_ID_TYPE@,
                link_type: AGENT_TO_ROLE_LINK_TYPE@,
                on_add: RuleView::Accept,
                on_remove: RuleView::Accept,
            },
            LinkDefinitionView {
                direction: LinkDirection::From,
                other_type: ANCHOR_TYPE@,
                link_type: ANCHOR_TO_ROLE_LINK_TYPE@,
                on_add: RuleView::Accept,
                on_remove: RuleView::Accept,
            },
        ],
    }
}

/// The definition of the role entry type. Its creation rule takes
/// [`validate_new_role`] on the new role as its content check.
pub fn role_entry_def() -> (def: EntryDefinition)
    ensures
        def@ == role_definition(),
{
    let mut links: Vec<LinkDefinition> = Vec::new();
    links.push(LinkDefinition {
        direction: LinkDirection::From,
        other_type: owned(AGENT_ID_TYPE),
        link_type: owned(AGENT_TO_ROLE_LINK_TYPE),
        on_add: Rule::Accept,
        on_remove: Rule::Accept,
    });
    links.push(LinkDefinition {
        direction: LinkDirection::From,
        other_type: owned(ANCHOR_TYPE),
        link_type: owned(ANCHOR_TO_ROLE_LINK_TYPE),
        on_add: Rule::Accept,
        on_remove: Rule::Accept,
    });
    let def = EntryDefinition {
        name: owned(ROLE_TYPE),
        description: owned(ROLE_DESCRIPTION),
        sharing: Sharing::Public,
        on_create: Rule::RequireValidContentByAdmin(owned(ADMINS_ONLY_MESSAGE)),
        on_modify: Rule::RequireAdmin(owned(ADMINS_ONLY_MESSAGE)),
        on_delete: Rule::Reject(owned(NO_DELETE_MESSAGE)),
        links,
    };
    assert(def@.links =~= role_definition().links);
    def
}

/// The content check of a new role entry, which its creation rule looks at
/// first: it is refused when it has no members.
pub open spec fn new_role_verdict(role: RoleView) -> Result<(), Seq<char>> {
    if role.members.len() == 0 {
        Err(EMPTY_ROLE_MESSAGE@)
    } else {
        Ok(())
    }
}

/// Checks the content of a new role entry (see [`new_role_verdict`]).
pub fn validate_new_role(role: &Role) -> (verdict: Result<(), String>)
    ensures
        unit_result_view(verdict) == new_role_verdict(role@),
{
    if role.members.len() == 0 {
        return Err(owned(EMPTY_ROLE_MESSAGE));
    }
    Ok(())
}

/// The entry that creates the role `role_name`: the role without members.
pub fn new_role(role_name: &String) -> (role: Role)
    ensures
        role@ == (RoleView { role_name: role_name@, members: Seq::empty() }),
{
    let members: Vec<String> = Vec::new();
    let role = Role::from(role_name.clone(), members);
    assert(role@.members =~= Seq::<Seq<char>>::empty());
    role
}

/// Adds `agent_address` to the members of `current_role`, at the end.
pub fn assign_role(current_role: &mut Role, agent_address: &String)
    ensures
        final(current_role)@ == (RoleView {
            members: old(current_role)@.members.push(agent_address@),
            ..old(current_role)@
        }),
{
    current_role.members.push(agent_address.clone());
    assert(current_role@.members =~= old(current_role)@.members.push(agent_address@));
}

/// Removes the first occurrence of `agent_address` from the members of
/// `current_role`, if there is one.
pub fn unassign_role(current_role: &mut Role, agent_address: &String)
    ensures
        final(current_role)@ == (RoleView {
            members: old(current_role)@.members.remove_value(agent_address@),
            ..old(current_role)@
        }),
{
    let ghost m = current_role@.members;
    let mut i: usize = 0;
    while i < current_role.members.len()
        invariant
            i <= current_role.members.len(),
            m == current_role@.members,
            current_role@ == old(current_role)@,
            forall|j: int| 0 <= j < i ==> m[j] != agent_address@,
        decreases current_role.members.len() - i,
    {
        if current_role.members[i] == *agent_address {
            proof {
                m.index_of_first_ensures(agent_address@);
                let k = m.index_of_first(agent_address@)->Some_0;
                assert(m[i as int] == agent_address@);
                assert(k == i);
            }
            current_role.members.remove(i);
            assert(current_role@.members =~= m.remove(i as int));
            return;
        }
        i = i + 1;
    }
    proof {
        m.index_of_first_ensures(agent_address@);
    }
}

/// Whether `agent_address` is a member of `current_role`.
pub fn has_agent_role(current_role: &Role, agent_address: &String) -> (member: bool)
    ensures
        member == current_role@.members.contains(agent_address@),
{
    let ghost m = current_role@.members;
    let mut i: usize = 0;
    while i < current_role.members.len()
        invariant
            i <= current_role.members.len(),
            m == current_role@.members,
            forall|j: int| 0 <= j < i ==> m[j] != agent_address@,
        decreases current_role.members.len() - i,
    {
        if current_role.members[i] == *agent_address {
            assert(m[i as int] == agent_address@);
            return true;
        }
        i = i + 1;
    }
    false
}

pub open spec fn role_read_view(read: Result<Role, String>) -> Result<RoleView, Seq<char>> {
    match read {
        Ok(r) => Ok(r@),
        Err(e) => Err(e@),
    }
}

/// Whether `agent` is an administrator of the example zome: the progenitor is
/// one; any other agent is one when it is a member of the administrator role.
pub open spec fn example_admin_status(agent: Seq<char>, progenitor_property: Seq<char>, admin_role: Result<RoleView, Seq<char>>) -> Result<bool, Seq<char>> {
    match progenitor_of(progenitor_property) {
        Err(e) => Err(e),
        Ok(p) => if p == agent {
            Ok(true)
        } else {
            match admin_role {
                Err(e) => Err(e),
                Ok(r) => Ok(r.members.contains(agent)),
            }
        },
    }
}

/// Whether `agent_address` is an administrator, given the text of the
/// `progenitor` property and the read of the administrator role's entry (which
/// is not looked at when the agent is the progenitor).
pub fn is_agent_admin(agent_address: &String, progenitor_property: &str, admin_role: &Result<Role, String>) -> (admin: Result<bool, String>)
    ensures
        bool_result_view(admin) == example_admin_status(agent_address@, progenitor_property@, role_read_view(*admin_role)),
{
    let progenitor_address = get_progenitor_address(progenitor_property)?;
    if progenitor_address == *agent_address {
        return Ok(true);
    }
    match admin_role {
        Ok(role) => Ok(has_agent_role(role, agent_address)),
        Err(e) => Err(e.clone()),
    }
}

} // verus!
