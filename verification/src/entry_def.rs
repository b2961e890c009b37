//! Entry type definitions as data: the entry's name, description and sharing,
//! the links it takes part in, and the rule that validates each operation.
use vstd::prelude::*;

use crate::validation::{
    bool_result_view, consults_history, history_scannable, opt_history_result_view, required_role_verdict,
    unit_result_view, validate_required_role, HistoryItem, HistoryItemView,
};
use crate::example_zome::{consults_example_history, example_role_verdict, live_history_searchable};

verus! {

/// Who may see entries of a type.
#[derive(Debug, PartialEq, Eq, Structural, Clone, Copy)]
pub enum Sharing {
    Public,
    Private,
}

/// How an operation on an entry or a link is validated.
#[derive(Debug, Clone, PartialEq, Eq)]
pub enum Rule {
    /// Every such operation is valid.
    Accept,
    /// No such operation is valid; the message says why.
    Reject(String),
    /// Valid when the agent that made it held the named role when it committed
    /// it (see `validation::validate_required_role`).
    RequireRole(String),
    /// Valid when the agent that made it held the named role when it committed
    /// it, judged by whether its assignment of the role was alive then (see
    /// `example_zome::validate_required_role`).
    RequireLiveRole(String),
    /// Valid when the agent that made it is an administrator now; refused with
    /// the message otherwise.
    RequireAdmin(String),
    /// Valid when the entry passes its type's own content check and the agent
    /// that made it is an administrator now; refused with the content check's
    /// message, or with this message when the agent is not an administrator.
    RequireValidContentByAdmin(String),
}

pub enum RuleView {
    Accept,
    Reject(Seq<char>),
    RequireRole(Seq<char>),
    RequireLiveRole(Seq<char>),
    RequireAdmin(Seq<char>),
    RequireValidContentByAdmin(Seq<char>),
}

impl View for Rule {
    type V = RuleView;

    open spec fn view(&self) -> RuleView {
        match self {
            Rule::Accept => RuleView::Accept,
            Rule::Reject(m) => RuleView::Reject(m@),
            Rule::RequireRole(r) => RuleView::RequireRole(r@),
            Rule::RequireLiveRole(r) => RuleView::RequireLiveRole(r@),
            Rule::RequireAdmin(m) => RuleView::RequireAdmin(m@),
            Rule::RequireValidContentByAdmin(m) => RuleView::RequireValidContentByAdmin(m@),
        }
    }
}

/// Which end of a link an entry type stands at.
#[derive(Debug, PartialEq, Eq, Structural, Clone, Copy)]
pub enum LinkDirection {
    /// Links of `link_type` go from entries of `other_type` to this type.
    From,
    /// Links of `link_type` go from this type to entries of `other_type`.
    To,
}

/// A link that an entry type takes part in, with the rules for adding and
/// removing such links.
#[derive(Debug, Clone, PartialEq, Eq)]
pub struct LinkDefinition {
    pub direction: LinkDirection,
    pub other_type: String,
    pub link_type: String,
    pub on_add: Rule,
    pub on_remove: Rule,
}

pub struct LinkDefinitionView {
    pub direction: LinkDirection,
    pub other_type: Seq<char>,
    pub link_type: Seq<char>,
    pub on_add: RuleView,
    pub on_remove: RuleView,
}

impl View for LinkDefinition {
    type V = LinkDefinitionView;

    open spec fn view(&self) -> LinkDefinitionView {
        LinkDefinitionView {
            direction: self.direction,
            other_type: self.other_type@,
            link_type: self.link_type@,
            on_add: self.on_add@,
            on_remove: self.on_remove@,
        }
    }
}

/// An entry type: its name, description, sharing, the rules for creating,
/// modifying and deleting its entries, and its links.
#[derive(Debug, Clone, PartialEq, Eq)]
pub struct EntryDefinition {
    pub name: String,
    pub description: String,
    pub sharing: Sharing,
    pub on_create: Rule,
    pub on_modify: Rule,
    pub on_delete: Rule,
    pub links: Vec<LinkDefinition>,
}

pub struct EntryDefinitionView {
    pub name: Seq<char>,
    pub description: Seq<char>,
    pub sharing: Sharing,
    pub on_create: RuleView,
    pub on_modify: RuleView,
    pub on_delete: RuleView,
    pub links: Seq<LinkDefinitionView>,
}

impl View for EntryDefinition {
    type V = EntryDefinitionView;

    open spec fn view(&self) -> EntryDefinitionView {
        EntryDefinitionView {
            name: self.name@,
            description: self.description@,
            sharing: self.sharing,
            on_create: self.on_create@,
            on_modify: self.on_modify@,
            on_delete: self.on_delete@,
            links: self.links@.map_values(|l: LinkDefinition| l@),
        }
    }
}

/// An operation on an entry.
#[derive(Debug, PartialEq, Eq, Structural, Clone, Copy)]
pub enum Operation {
    Create,
    Modify,
    Delete,
}

impl EntryDefinition {
    /// The rule that validates `op` on entries of this type.
    pub fn rule(&self, op: Operation) -> (rule: &Rule)
        ensures
            rule@ == match op {
                Operation::Create => self@.on_create,
                Operation::Modify => self@.on_modify,
                Operation::Delete => self@.on_delete,
            },
    {
        match op {
            Operation::Create => &self.on_create,
            Operation::Modify => &self.on_modify,
            Operation::Delete => &self.on_delete,
        }
    }
}

/// What the administrator test decides: refusal with `message` when the agent
/// is not an administrator, the test's own error when it failed.
pub open spec fn admin_verdict(is_admin: Result<bool, Seq<char>>, message: Seq<char>) -> Result<(), Seq<char>> {
    match is_admin {
        Err(e) => Err(e),
        Ok(true) => Ok(()),
        Ok(false) => Err(message),
    }
}

/// The verdict of `rule` on an operation by `agent` on an entry at
/// `entry_address` committed at `t`: refusal with the rule's message; the
/// required-role check of `validation::required_role_verdict`; the
/// example zome's liveness check of `example_zome::example_role_verdict`; or
/// the administrator check on `is_admin` (the answer of the application's own
/// administrator check for the agent), after `content_check` (the verdict of
/// the entry type's own check on the entry's content) for the rule that asks
/// for it.
pub open spec fn rule_verdict(
    rule: RuleView,
    agent: Seq<char>,
    progenitor_property: Seq<char>,
    entry_address: Seq<char>,
    t: i64,
    role_history: Result<Option<Seq<HistoryItemView>>, Seq<char>>,
    is_admin: Result<bool, Seq<char>>,
    content_check: Result<(), Seq<char>>,
) -> Result<(), Seq<char>> {
    match rule {
        RuleView::Accept => Ok(()),
        RuleView::Reject(m) => Err(m),
        RuleView::RequireRole(r) => required_role_verdict(agent, r, progenitor_property, entry_address, t, role_history),
        RuleView::RequireLiveRole(r) => example_role_verdict(agent, r, progenitor_property, entry_address, t, role_history),
        RuleView::RequireAdmin(m) => admin_verdict(is_admin, m),
        RuleView::RequireValidContentByAdmin(m) => match content_check {
            Err(e) => Err(e),
            Ok(()) => admin_verdict(is_admin, m),
        },
    }
}

fn admin_check(is_admin: &Result<bool, String>, message: &String) -> (verdict: Result<(), String>)
    ensures
        unit_result_view(verdict) == admin_verdict(bool_result_view(*is_admin), message@),
{
    match is_admin {
        Err(e) => Err(e.clone()),
        Ok(true) => Ok(()),
        Ok(false) => Err(message.clone()),
    }
}

/// Validates an operation by `agent_address` on an entry at `entry_address`
/// committed at `timestamp` by `rule`. `role_history` is the read of the
/// history of the agent's initial assignment of the role the rule requires,
/// `is_admin` the answer of the administrator check for the agent, and
/// `content_check` the verdict of the entry type's own check on the entry; each
/// is looked at only by the rules that need it.
pub fn validate_by_rule(
    rule: &Rule,
    agent_address: &String,
    progenitor_property: &str,
    entry_address: &String,
    timestamp: i64,
    role_history: &Result<Option<Vec<HistoryItem>>, String>,
    is_admin: &Result<bool, String>,
    content_check: &Result<(), String>,
) -> (verdict: Result<(), String>)
    requires
        rule@ is RequireRole && consults_history(agent_address@, rule@->RequireRole_0, progenitor_property@)
            ==> history_scannable(opt_history_result_view(*role_history), timestamp),
        rule@ is RequireLiveRole && consults_example_history(agent_address@, rule@->RequireLiveRole_0, progenitor_property@)
            ==> live_history_searchable(opt_history_result_view(*role_history), timestamp),
    ensures
        unit_result_view(verdict) == rule_verdict(
            rule@,
            agent_address@,
            progenitor_property@,
            entry_address@,
            timestamp,
            opt_history_result_view(*role_history),
            bool_result_view(*is_admin),
            unit_result_view(*content_check),
        ),
{
    match rule {
        Rule::Accept => Ok(()),
        Rule::Reject(m) => Err(m.clone()),
        Rule::RequireRole(r) => validate_required_role(agent_address, r, progenitor_property, entry_address, timestamp, role_history),
        Rule::RequireLiveRole(r) => crate::example_zome::validate_required_role(
            agent_address,
            r,
            progenitor_property,
            entry_address,
            timestamp,
            role_history,
        ),
        Rule::RequireAdmin(m) => admin_check(is_admin, m),
        Rule::RequireValidContentByAdmin(m) => match content_check {
            Err(e) => Err(e.clone()),
            Ok(()) => admin_check(is_admin, m),
        },
    }
}

} // verus!
