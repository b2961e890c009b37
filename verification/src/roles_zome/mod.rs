//! The roles zome: role and assignment entries kept on the agents' chains, with
//! administrators named in the DNA's `initial_admins` property.
use vstd::prelude::*;

use crate::entry_def::EntryDefinition;

pub mod admins;
pub mod assignment;
pub mod role;
pub mod validation;

verus! {

/// Entry type of a role.
pub const ROLE_TYPE: &'static str = "role";

/// Entry type of an assignment of a role to an agent.
pub const ASSIGNMENT_TYPE: &'static str = "role_assignment";

/// Link type from a role to its assignments.
pub const ROLE_ASSIGNMENT_LINK_TYPE: &'static str = "role->role_assignment";

/// Link type from an agent to its assignments.
pub const AGENT_ASSIGNMENT_LINK_TYPE: &'static str = "agent->role_assignment";

/// Name of the role whose holders are administrators.
pub const ADMINISTRATOR_ROLE: &'static str = "Administrator";

/// Initialises the zome; it has nothing to set up.
pub fn init() -> (res: Result<(), String>)
    ensures
        res is Ok,
{
    Ok(())
}

/// Validates the agent that joins the network, given its address: every agent
/// is accepted.
pub fn validate_agent(agent_address: &String) -> (res: Result<(), String>)
    ensures
        res is Ok,
{
    Ok(())
}

/// The definition of the role entry type.
pub fn role_entry_def() -> (def: EntryDefinition)
    ensures
        def@ == role::role_definition(),
{
    role::role_entry_definition()
}

/// The definition of the assignment entry type.
pub fn assignment_entry_def() -> (def: EntryDefinition)
    ensures
        def@ == assignment::assignment_definition(),
{
    assignment::assignment_entry_definition()
}

} // verus!
