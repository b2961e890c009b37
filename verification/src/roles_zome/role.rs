//! Role entries of the roles zome.
use vstd::prelude::*;

use super::{ASSIGNMENT_TYPE, ROLE_ASSIGNMENT_LINK_TYPE, ROLE_TYPE};
use crate::entry_def::{
    EntryDefinition, EntryDefinitionView, LinkDefinition, LinkDefinitionView, LinkDirection, Rule,
    RuleView, Sharing,
};
use crate::owned;

verus! {

/// A role, known by its name.
#[derive(Debug, Clone, PartialEq, Eq)]
pub struct Role {
    name: String,
}

impl View for Role {
    type V = Seq<char>;

    closed spec fn view(&self) -> Seq<char> {
        self.name@
    }
}

impl Role {
    /// The role called `name`.
    pub fn from(name: String) -> (role: Role)
        ensures
            role@ == name@,
    {
        Role { name }
    }

    /// The role's name.
    pub fn name(&self) -> (name: &String)
        ensures
            name@ == self@,
    {
        &self.name
    }
}

/// Description of the role and assignment entry types.
pub const ZOME_ENTRY_DESCRIPTION: &'static str = "Anchors are used as the base for links so linked entries can be found with a text search.";

/// The role entry type: public; every operation on roles and their links is
/// valid; roles link to their assignments.
pub open spec fn role_definition() -> EntryDefinitionView {
    EntryDefinitionView {
        name: ROLE_TYPE@,
        description: ZOME_ENTRY_DESCRIPTION@,
        sharing: Sharing::Public,
        on_create: RuleView::Accept,
        on_modify: RuleView::Accept,
        on_delete: RuleView::Accept,
        links: seq![
            LinkDefinitionView {
                direction: LinkDirection::To,
                other_type: ASSIGNMENT_TYPE@,
                link_type: ROLE_ASSIGNMENT_LINK_TYPE@,
                on_add: RuleView::Accept,
                on_remove: RuleView::Accept,
            },
        ],
    }
}

/// The definition of the role entry type.
pub fn role_entry_definition() -> (def: EntryDefinition)
    ensures
        def@ == role_definition(),
{
    let mut links: Vec<LinkDefinition> = Vec::new();
    links.push(LinkDefinition {
        direction: LinkDirection::To,
        other_type: owned(ASSIGNMENT_TYPE),
        link_type: owned(ROLE_ASSIGNMENT_LINK_TYPE),
        on_add: Rule::Accept,
        on_remove: Rule::Accept,
    });
    let def = EntryDefinition {
        name: owned(ROLE_TYPE),
        description: owned(ZOME_ENTRY_DESCRIPTION),
        sharing: Sharing::Public,
        on_create: Rule::Accept,
        on_modify: Rule::Accept,
        on_delete: Rule::Accept,
        links,
    };
    assert(def@.links =~= role_definition().links);
    def
}

} // verus!
