//! Assignment entries of the roles zome.
use vstd::prelude::*;

use super::role::ZOME_ENTRY_DESCRIPTION;
use super::{AGENT_ASSIGNMENT_LINK_TYPE, ASSIGNMENT_TYPE};
use crate::entry_def::{
    EntryDefinition, EntryDefinitionView, LinkDefinition, LinkDefinitionView, LinkDirection, Rule,
    RuleView, Sharing,
};
use crate::{owned, opt_view, AGENT_ID_TYPE};

verus! {

/// An assignment of the role at `role_address` to the agent at
/// `agent_address`, with optional JSON metadata.
#[derive(Debug, Clone, PartialEq, Eq)]
pub struct Assignment {
    role_address: String,
    agent_address: String,
    metadata: Option<String>,
}

pub struct AssignmentView {
    pub role_address: Seq<char>,
    pub agent_address: Seq<char>,
    pub metadata: Option<Seq<char>>,
}

impl View for Assignment {
    type V = AssignmentView;

    closed spec fn view(&self) -> AssignmentView {
        AssignmentView {
            role_address: self.role_address@,
            agent_address: self.agent_address@,
            metadata: opt_view(self.metadata),
        }
    }
}

impl Assignment {
    /// The assignment of the role at `role_address` to the agent at
    /// `agent_address`, with `metadata`.
    pub fn new(role_address: String, agent_address: String, metadata: Option<String>) -> (a: Assignment)
        ensures
            a@ == (AssignmentView { role_address: role_address@, agent_address: agent_address@, metadata: opt_view(metadata) }),
    {
        Assignment { role_address, agent_address, metadata }
    }

    /// Whether this assigns the role at `role_address` to the agent at
    /// `agent_address`.
    pub fn assigns(&self, role_address: &String, agent_address: &String) -> (res: bool)
        ensures
            res == (self@.role_address == role_address@ && self@.agent_address == agent_address@),
    {
        self.role_address == *role_address && self.agent_address == *agent_address
    }
}

/// The assignment entry type: public; every operation on assignments and their
/// links is valid; agents link to their assignments.
pub open spec fn assignment_definition() -> EntryDefinitionView {
    EntryDefinitionView {
        name: ASSIGNMENT_TYPE@,
        description: ZOME_ENTRY_DESCRIPTION@,
        sharing: Sharing::Public,
        on_create: RuleView::Accept,
        on_modify: RuleView::Accept,
        on_delete: RuleView::Accept,
        links: seq![
            LinkDefinitionView {
                direction: LinkDirection::From,
                other_type: AGENT_ID_TYPE@,
                link_type: AGENT_ASSIGNMENT_LINK_TYPE@,
                on_add: RuleView::Accept,
                on_remove: RuleView::Accept,
            },
        ],
    }
}

/// The definition of the assignment entry type.
pub fn assignment_entry_definition() -> (def: EntryDefinition)
    ensures
        def@ == assignment_definition(),
{
    let mut links: Vec<LinkDefinition> = Vec::new();
    links.push(LinkDefinition {
        direction: LinkDirection::From,
        other_type: owned(AGENT_ID_TYPE),
        link_type: owned(AGENT_ASSIGNMENT_LINK_TYPE),
        on_add: Rule::Accept,
        on_remove: Rule::Accept,
    });
    let def = EntryDefinition {
        name: owned(ASSIGNMENT_TYPE),
        description: owned(ZOME_ENTRY_DESCRIPTION),
        sharing: Sharing::Public,
        on_create: Rule::Accept,
        on_modify: Rule::Accept,
        on_delete: Rule::Accept,
        links,
    };
    assert(def@.links =~= assignment_definition().links);
    def
}

} // verus!
