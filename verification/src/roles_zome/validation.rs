//! Whether an agent holds a role, judged from the entries of its own chain.
use vstd::prelude::*;

use super::assignment::{Assignment, AssignmentView};
use crate::owned;
use crate::validation::bool_result_view;

verus! {

/// An entry of an agent's source chain, as the role checks see it.
#[derive(Debug, Clone, PartialEq, Eq)]
pub enum ChainEntry {
    /// The agent's identity entry, with the agent's address.
    AgentId(String),
    /// An entry of the assignment type that reads as an assignment.
    Assignment(Assignment),
    /// Any other entry.
    Other,
}

pub enum ChainEntryView {
    AgentId(Seq<char>),
    Assignment(AssignmentView),
    Other,
}

impl View for ChainEntry {
    type V = ChainEntryView;

    open spec fn view(&self) -> ChainEntryView {
        match self {
            ChainEntry::AgentId(a) => ChainEntryView::AgentId(a@),
            ChainEntry::Assignment(a) => ChainEntryView::Assignment(a@),
            ChainEntry::Other => ChainEntryView::Other,
        }
    }
}

pub open spec fn chain_view(chain: Seq<ChainEntry>) -> Seq<ChainEntryView> {
    chain.map_values(|e: ChainEntry| e@)
}

/// Message of the error when a chain holds no identity entry.
pub const NO_AGENT_ID: &'static str = "no agent id entry in the chain";

/// The agent whose chain this is: the address in its first identity entry.
pub open spec fn chain_agent(chain: Seq<ChainEntryView>) -> Result<Seq<char>, Seq<char>>
    decreases chain.len(),
{
    if chain.len() == 0 {
        Err(NO_AGENT_ID@)
    } else {
        match chain[0] {
            ChainEntryView::AgentId(a) => Ok(a),
            _ => chain_agent(chain.drop_first()),
        }
    }
}

/// The entry assigns the role at `role_address` to `agent`.
pub open spec fn entry_assigns(entry: ChainEntryView, role_address: Seq<char>, agent: Seq<char>) -> bool {
    match entry {
        ChainEntryView::Assignment(a) => a.role_address == role_address && a.agent_address == agent,
        _ => false,
    }
}

/// The chain holds an assignment of the role at `role_address` to `agent`.
pub open spec fn chain_assigns(chain: Seq<ChainEntryView>, role_address: Seq<char>, agent: Seq<char>) -> bool {
    exists|i: int| 0 <= i < chain.len() && #[trigger] entry_assigns(chain[i], role_address, agent)
}

pub open spec fn string_result_view(r: Result<String, String>) -> Result<Seq<char>, Seq<char>> {
    match r {
        Ok(s) => Ok(s@),
        Err(e) => Err(e@),
    }
}

/// The address of the agent whose chain this is.
pub fn get_chain_agent_id(chain_entries: &Vec<ChainEntry>) -> (agent: Result<String, String>)
    ensures
        string_result_view(agent) == chain_agent(chain_view(chain_entries@)),
{
    let ghost c = chain_view(chain_entries@);
    let mut i: usize = 0;
    assert(c.subrange(0, c.len() as int) =~= c);
    while i < chain_entries.len()
        invariant
            i <= chain_entries.len(),
            c == chain_view(chain_entries@),
            chain_agent(c) == chain_agent(c.subrange(i as int, c.len() as int)),
        decreases chain_entries.len() - i,
    {
        assert(c.subrange(i as int, c.len() as int).drop_first() =~= c.subrange(i + 1, c.len() as int));
        if let ChainEntry::AgentId(a) = &chain_entries[i] {
            return Ok(a.clone());
        }
        i = i + 1;
    }
    assert(c.subrange(i as int, c.len() as int) =~= Seq::<ChainEntryView>::empty());
    Err(owned(NO_AGENT_ID))
}

/// Whether the agent whose chain this is holds the role at `role_address` (as
/// read, with its error, from the address of the role's entry): it does when
/// its chain holds an assignment of that role to it.
pub open spec fn chain_has_role(chain: Seq<ChainEntryView>, role_address: Result<Seq<char>, Seq<char>>) -> Result<bool, Seq<char>> {
    match chain_agent(chain) {
        Err(e) => Err(e),
        Ok(agent) => match role_address {
            Err(e) => Err(e),
            Ok(r) => Ok(chain_assigns(chain, r, agent)),
        },
    }
}

fn find_assignment(chain_entries: &Vec<ChainEntry>, role_address: &String, agent_address: &String) -> (found: bool)
    ensures
        found == chain_assigns(chain_view(chain_entries@), role_address@, agent_address@),
{
    let ghost c = chain_view(chain_entries@);
    let mut i: usize = 0;
    while i < chain_entries.len()
        invariant
            i <= chain_entries.len(),
            c == chain_view(chain_entries@),
            forall|j: int| 0 <= j < i ==> !#[trigger] entry_assigns(c[j], role_address@, agent_address@),
        decreases chain_entries.len() - i,
    {
        if let ChainEntry::Assignment(a) = &chain_entries[i] {
            if a.assigns(role_address, agent_address) {
                assert(entry_assigns(c[i as int], role_address@, agent_address@));
                return true;
            }
        }
        i = i + 1;
    }
    false
}

/// Whether the agent whose chain this is holds a role, given the address of
/// the role's entry (or the error of computing it).
pub fn agent_has_role(role_address: &Result<String, String>, chain_entries: &Vec<ChainEntry>) -> (held: Result<bool, String>)
    ensures
        bool_result_view(held) == chain_has_role(chain_view(chain_entries@), string_result_view(*role_address)),
{
    let agent_address = get_chain_agent_id(chain_entries)?;
    match role_address {
        Ok(role) => Ok(find_assignment(chain_entries, role, &agent_address)),
        Err(e) => Err(e.clone()),
    }
}

} // verus!
