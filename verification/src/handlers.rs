//! Assigning and unassigning roles, and listing who holds which role.
//!
//! An update of an assignment reads and writes the DHT several times, deciding
//! between the calls. [`AssignmentUpdate`] holds those decisions: the caller
//! performs each [`HostCall`] it asks for and hands back the [`HostReply`].
use vstd::prelude::*;

use crate::{
    initial_assignment, owned, RoleAssignment, RoleAssignmentView,
    AGENT_TO_ASSIGNMENT_LINK_TYPE, ROLE_TO_ASSIGNMENT_LINK_TYPE,
};

verus! {

/// A call into the host that an assignment update asks for.
#[derive(Debug, Clone, PartialEq, Eq)]
pub enum HostCall {
    /// Read the targets of the links of `link_type` and `tag` from `base`.
    GetLinks { base: String, link_type: String, tag: String },
    /// Read the role assignment entry stored at `address`.
    LoadAssignment { address: String },
    /// Commit `assignment` as a new entry.
    CommitAssignment { assignment: RoleAssignment },
    /// Update the entry at `address` to `assignment`, as a new version of it.
    UpdateAssignment { address: String, assignment: RoleAssignment },
    /// Link `base` to `target` with `link_type` and `tag`.
    LinkEntries { base: String, target: String, link_type: String, tag: String },
}

/// What the host answered to a [`HostCall`].
#[derive(Debug, Clone, PartialEq, Eq)]
pub enum HostReply {
    /// The link targets that `GetLinks` found, in the order the host gave them.
    Addresses(Vec<String>),
    /// The entry that `LoadAssignment` read.
    Assignment(RoleAssignment),
    /// The address of the entry that `CommitAssignment` committed, or of the
    /// version that `UpdateAssignment` wrote.
    Address(String),
    /// `LinkEntries` succeeded.
    Done,
    /// The call failed with this message.
    Failed(String),
}

/// Where an assignment update stands: each step waits for the reply to one call.
#[derive(Debug, PartialEq, Eq)]
pub enum UpdateStep {
    ReadingAgentLinks,
    LoadingPrevious { previous_address: String },
    Committing,
    Updating,
    LinkingAgent { assignment_address: String },
    LinkingRole { assignment_address: String },
    Finished { result: Result<(), String> },
}

/// An update of the assignment of `role_name` to `agent_address` towards
/// `assigned`, where `role_anchor` is the address of the role's anchor.
#[derive(Debug, PartialEq, Eq)]
pub struct AssignmentUpdate {
    pub role_name: String,
    pub agent_address: String,
    pub assigned: bool,
    pub role_anchor: String,
    pub step: UpdateStep,
}

/// Mathematical model of a [`HostCall`].
pub enum CallView {
    GetLinks { base: Seq<char>, link_type: Seq<char>, tag: Seq<char> },
    LoadAssignment { address: Seq<char> },
    CommitAssignment { assignment: RoleAssignmentView },
    UpdateAssignment { address: Seq<char>, assignment: RoleAssignmentView },
    LinkEntries { base: Seq<char>, target: Seq<char>, link_type: Seq<char>, tag: Seq<char> },
}

/// Mathematical model of a [`HostReply`].
pub enum ReplyView {
    Addresses(Seq<Seq<char>>),
    Assignment(RoleAssignmentView),
    Address(Seq<char>),
    Done,
    Failed(Seq<char>),
}

/// Mathematical model of an [`UpdateStep`].
pub enum StepView {
    ReadingAgentLinks,
    LoadingPrevious { previous_address: Seq<char> },
    Committing,
    Updating,
    LinkingAgent { assignment_address: Seq<char> },
    LinkingRole { assignment_address: Seq<char> },
    Finished { result: Result<(), Seq<char>> },
}

/// Mathematical model of an [`AssignmentUpdate`].
pub struct UpdateView {
    pub role_name: Seq<char>,
    pub agent_address: Seq<char>,
    pub assigned: bool,
    pub role_anchor: Seq<char>,
    pub step: StepView,
}

impl View for HostCall {
    type V = CallView;

    open spec fn view(&self) -> CallView {
        match self {
            HostCall::GetLinks { base, link_type, tag } => CallView::GetLinks {
                base: base@,
                link_type: link_type@,
                tag: tag@,
            },
            HostCall::LoadAssignment { address } => CallView::LoadAssignment { address: address@ },
            HostCall::CommitAssignment { assignment } => CallView::CommitAssignment {
                assignment: assignment@,
            },
            HostCall::UpdateAssignment { address, assignment } => CallView::UpdateAssignment {
                address: address@,
                assignment: assignment@,
            },
            HostCall::LinkEntries { base, target, link_type, tag } => CallView::LinkEntries {
                base: base@,
                target: target@,
                link_type: link_type@,
                tag: tag@,
            },
        }
    }
}

impl View for HostReply {
    type V = ReplyView;

    open spec fn view(&self) -> ReplyView {
        match self {
            HostReply::Addresses(v) => ReplyView::Addresses(v.deep_view()),
            HostReply::Assignment(a) => ReplyView::Assignment(a@),
            HostReply::Address(a) => ReplyView::Address(a@),
            HostReply::Done => ReplyView::Done,
            HostReply::Failed(e) => ReplyView::Failed(e@),
        }
    }
}

impl View for UpdateStep {
    type V = StepView;

    open spec fn view(&self) -> StepView {
        match self {
            UpdateStep::ReadingAgentLinks => StepView::ReadingAgentLinks,
            UpdateStep::LoadingPrevious { previous_address } => StepView::LoadingPrevious {
                previous_address: previous_address@,
            },
            UpdateStep::Committing => StepView::Committing,
            UpdateStep::Updating => StepView::Updating,
            UpdateStep::LinkingAgent { assignment_address } => StepView::LinkingAgent {
                assignment_address: assignment_address@,
            },
            UpdateStep::LinkingRole { assignment_address } => StepView::LinkingRole {
                assignment_address: assignment_address@,
            },
            UpdateStep::Finished { result } => StepView::Finished {
                result: match result {
                    Ok(()) => Ok(()),
                    Err(e) => Err(e@),
                },
            },
        }
    }
}

impl View for AssignmentUpdate {
    type V = UpdateView;

    open spec fn view(&self) -> UpdateView {
        UpdateView {
            role_name: self.role_name@,
            agent_address: self.agent_address@,
            assigned: self.assigned,
            role_anchor: self.role_anchor@,
            step: self.step@,
        }
    }
}

/// The view of an optional call.
pub open spec fn opt_call_view(c: Option<HostCall>) -> Option<CallView> {
    match c {
        Some(c) => Some(c@),
        None => None,
    }
}

/// Message of an update that got a reply that does not answer the call it made.
pub const UNEXPECTED_REPLY: &'static str = "unexpected reply from the host";

impl UpdateView {
    pub open spec fn with_step(self, step: StepView) -> UpdateView {
        UpdateView { step, ..self }
    }

    /// The call that reads the agent's links to its assignment of the role.
    pub open spec fn read_agent_links(self) -> CallView {
        CallView::GetLinks {
            base: self.agent_address,
            link_type: AGENT_TO_ASSIGNMENT_LINK_TYPE@,
            tag: self.role_name,
        }
    }

    /// The link from the agent to the assignment at `target`, tagged with the
    /// role: its base, target, link type and tag.
    pub open spec fn agent_link(self, target: Seq<char>) -> (Seq<char>, Seq<char>, Seq<char>, Seq<char>) {
        (self.agent_address, target, AGENT_TO_ASSIGNMENT_LINK_TYPE@, self.role_name)
    }

    /// The link from the role anchor to the assignment at `target`, tagged with
    /// the agent: its base, target, link type and tag.
    pub open spec fn role_link(self, target: Seq<char>) -> (Seq<char>, Seq<char>, Seq<char>, Seq<char>) {
        (self.role_anchor, target, ROLE_TO_ASSIGNMENT_LINK_TYPE@, self.agent_address)
    }

    /// The update finished with `result`, making no further call.
    pub open spec fn finish(self, result: Result<(), Seq<char>>) -> (UpdateView, Option<CallView>) {
        (self.with_step(StepView::Finished { result }), None)
    }
}

/// The call that makes a link.
pub open spec fn link_entries_call(l: (Seq<char>, Seq<char>, Seq<char>, Seq<char>)) -> CallView {
    CallView::LinkEntries { base: l.0, target: l.1, link_type: l.2, tag: l.3 }
}

/// The assignment that replaces `previous`, stored at `previous_address`, when
/// the update asks for `assigned`.
pub open spec fn replacement(previous: RoleAssignmentView, previous_address: Seq<char>, assigned: bool) -> RoleAssignmentView {
    RoleAssignmentView {
        assigned,
        previous_assignment_address: Some(previous_address),
        ..previous
    }
}

/// The update's first call, and the step that waits for its reply.
pub open spec fn update_start(role_name: Seq<char>, agent_address: Seq<char>, assigned: bool, role_anchor: Seq<char>) -> (UpdateView, CallView) {
    let u = UpdateView { role_name, agent_address, assigned, role_anchor, step: StepView::ReadingAgentLinks };
    (u, u.read_agent_links())
}

/// How an update moves on a reply: its next step and the next call, if any.
///
/// A failed call ends the update with the call's message. A reply of the wrong
/// kind ends it with [`UNEXPECTED_REPLY`]. A finished update stays as it is.
pub open spec fn update_next(u: UpdateView, reply: ReplyView) -> (UpdateView, Option<CallView>) {
    match u.step {
        StepView::Finished { .. } => (u, None),
        _ => match reply {
            ReplyView::Failed(e) => u.finish(Err(e)),
            _ => match (u.step, reply) {
                (StepView::ReadingAgentLinks, ReplyView::Addresses(links)) => {
                    if links.len() > 0 {
                        (
                            u.with_step(StepView::LoadingPrevious { previous_address: links[0] }),
                            Some(CallView::LoadAssignment { address: links[0] }),
                        )
                    } else if !u.assigned {
                        u.finish(Ok(()))
                    } else {
                        (
                            u.with_step(StepView::Committing),
                            Some(CallView::CommitAssignment {
                                assignment: initial_assignment(u.role_name, u.agent_address),
                            }),
                        )
                    }
                },
                (StepView::LoadingPrevious { previous_address }, ReplyView::Assignment(previous)) => {
                    if previous.assigned == u.assigned {
                        u.finish(Ok(()))
                    } else {
                        (
                            u.with_step(StepView::Updating),
                            Some(CallView::UpdateAssignment {
                                address: previous_address,
                                assignment: replacement(previous, previous_address, u.assigned),
                            }),
                        )
                    }
                },
                (StepView::Committing, ReplyView::Address(a)) | (StepView::Updating, ReplyView::Address(a)) => (
                    u.with_step(StepView::LinkingAgent { assignment_address: a }),
                    Some(link_entries_call(u.agent_link(a))),
                ),
                (StepView::LinkingAgent { assignment_address }, ReplyView::Done) => (
                    u.with_step(StepView::LinkingRole { assignment_address }),
                    Some(link_entries_call(u.role_link(assignment_address))),
                ),
                (StepView::LinkingRole { .. }, ReplyView::Done) => u.finish(Ok(())),
                _ => u.finish(Err(UNEXPECTED_REPLY@)),
            },
        },
    }
}

fn link_entries(base: &String, target: &String, link_type: &str, tag: &String) -> (call: HostCall)
    ensures
        call@ == (CallView::LinkEntries { base: base@, target: target@, link_type: link_type@, tag: tag@ }),
{
    HostCall::LinkEntries { base: base.clone(), target: target.clone(), link_type: owned(link_type), tag: tag.clone() }
}

impl AssignmentUpdate {
    /// Starts updating the assignment of `role_name` to `agent_address` towards
    /// `assigned`; `role_anchor` is the address of the role's anchor.
    pub fn start(role_name: String, agent_address: String, assigned: bool, role_anchor: String) -> (res: (AssignmentUpdate, HostCall))
        ensures
            (res.0@, res.1@) == update_start(role_name@, agent_address@, assigned, role_anchor@),
    {
        let call = HostCall::GetLinks {
            base: agent_address.clone(),
            link_type: owned(AGENT_TO_ASSIGNMENT_LINK_TYPE),
            tag: role_name.clone(),
        };
        (AssignmentUpdate { role_name, agent_address, assigned, role_anchor, step: UpdateStep::ReadingAgentLinks }, call)
    }

    /// Whether the update has finished, and how.
    pub fn outcome(&self) -> (res: Option<Result<(), String>>)
        ensures
            match self@.step {
                StepView::Finished { result } => res is Some && match (res->0, result) {
                    (Ok(()), Ok(())) => true,
                    (Err(e), Err(f)) => e@ == f,
                    _ => false,
                },
                _ => res is None,
            },
    {
        match &self.step {
            UpdateStep::Finished { result } => match result {
                Ok(()) => Some(Ok(())),
                Err(e) => Some(Err(e.clone())),
            },
            _ => None,
        }
    }

    fn finish(&mut self, result: Result<(), String>) -> (call: Option<HostCall>)
        ensures
            (final(self)@, opt_call_view(call)) == old(self)@.finish(match result {
                Ok(()) => Ok(()),
                Err(e) => Err(e@),
            }),
    {
        self.step = UpdateStep::Finished { result };
        None
    }

    /// Moves the update on the host's reply to its last call; returns the next
    /// call to make, or `None` once the update has finished.
    pub fn next(&mut self, reply: HostReply) -> (call: Option<HostCall>)
        ensures
            (final(self)@, opt_call_view(call)) == update_next(old(self)@, reply@),
    {
        if let UpdateStep::Finished { .. } = &self.step {
            return None;
        }
        let mut step = UpdateStep::ReadingAgentLinks;
        std::mem::swap(&mut step, &mut self.step);
        match (step, reply) {
            (_, HostReply::Failed(e)) => self.finish(Err(e)),
            (UpdateStep::ReadingAgentLinks, HostReply::Addresses(links)) => {
                if links.len() > 0 {
                    let previous_address = links[0].clone();
                    let call = HostCall::LoadAssignment { address: previous_address.clone() };
                    self.step = UpdateStep::LoadingPrevious { previous_address };
                    Some(call)
                } else if !self.assigned {
                    self.finish(Ok(()))
                } else {
                    let assignment = RoleAssignment::from(self.role_name.clone(), self.agent_address.clone());
                    self.step = UpdateStep::Committing;
                    Some(HostCall::CommitAssignment { assignment })
                }
            },
            (UpdateStep::LoadingPrevious { previous_address }, HostReply::Assignment(previous)) => {
                if previous.assigned == self.assigned {
                    self.finish(Ok(()))
                } else {
                    let updated = RoleAssignment {
                        assigned: self.assigned,
                        previous_assignment_address: Some(previous_address.clone()),
                        ..previous
                    };
                    self.step = UpdateStep::Updating;
                    Some(HostCall::UpdateAssignment { address: previous_address, assignment: updated })
                }
            },
            (UpdateStep::Committing, HostReply::Address(assignment_address))
            | (UpdateStep::Updating, HostReply::Address(assignment_address)) => {
                let call = link_entries(&self.agent_address, &assignment_address, AGENT_TO_ASSIGNMENT_LINK_TYPE, &self.role_name);
                self.step = UpdateStep::LinkingAgent { assignment_address };
                Some(call)
            },
            (UpdateStep::LinkingAgent { assignment_address }, HostReply::Done) => {
                let call = link_entries(&self.role_anchor, &assignment_address, ROLE_TO_ASSIGNMENT_LINK_TYPE, &self.agent_address);
                self.step = UpdateStep::LinkingRole { assignment_address };
                Some(call)
            },
            (UpdateStep::LinkingRole { .. }, HostReply::Done) => self.finish(Ok(())),
            _ => self.finish(Err(owned(UNEXPECTED_REPLY))),
        }
    }
}

} // verus!

verus! {

/// Starts assigning the role `role_name` to `agent_address`, where
/// `role_anchor` is the address of the role's anchor: the update and its first
/// call.
pub fn assign_role(role_name: String, agent_address: String, role_anchor: String) -> (res: (AssignmentUpdate, HostCall))
    ensures
        (res.0@, res.1@) == update_start(role_name@, agent_address@, true, role_anchor@),
{
    AssignmentUpdate::start(role_name, agent_address, true, role_anchor)
}

/// Starts unassigning the role `role_name` from `agent_address`, where
/// `role_anchor` is the address of the role's anchor: the update and its first
/// call.
pub fn unassign_role(role_name: String, agent_address: String, role_anchor: String) -> (res: (AssignmentUpdate, HostCall))
    ensures
        (res.0@, res.1@) == update_start(role_name@, agent_address@, false, role_anchor@),
{
    AssignmentUpdate::start(role_name, agent_address, false, role_anchor)
}

/// The views of a list of assignments.
pub open spec fn assignments_view(assignments: Seq<RoleAssignment>) -> Seq<RoleAssignmentView> {
    assignments.map_values(|a: RoleAssignment| a@)
}

/// The role names of the assignments that are in force, in their order.
pub open spec fn assigned_role_names(assignments: Seq<RoleAssignmentView>) -> Seq<Seq<char>>
    decreases assignments.len(),
{
    if assignments.len() == 0 {
        seq![]
    } else {
        let rest = assigned_role_names(assignments.drop_last());
        if assignments.last().assigned {
            rest.push(assignments.last().role_name)
        } else {
            rest
        }
    }
}

/// The agents of the assignments that are in force, in their order.
pub open spec fn assigned_agents(assignments: Seq<RoleAssignmentView>) -> Seq<Seq<char>>
    decreases assignments.len(),
{
    if assignments.len() == 0 {
        seq![]
    } else {
        let rest = assigned_agents(assignments.drop_last());
        if assignments.last().assigned {
            rest.push(assignments.last().agent_address)
        } else {
            rest
        }
    }
}

/// The roles of `agent_address`: those of its assignments that are in force,
/// then the administrator role if the agent is the progenitor.
pub open spec fn agent_roles(agent_address: Seq<char>, assignments: Seq<RoleAssignmentView>, progenitor: Seq<char>) -> Seq<Seq<char>> {
    let roles = assigned_role_names(assignments);
    if progenitor == agent_address {
        roles.push(crate::ADMIN_ROLE_NAME@)
    } else {
        roles
    }
}

/// The roles of `agent_address`, given the assignments that its
/// agent-to-assignment links lead to and the text of the `progenitor` property.
///
/// Fails where the property is not an address.
pub fn get_agent_roles(agent_address: &String, assignments: &Vec<RoleAssignment>, progenitor_property: &str) -> (roles: Result<Vec<String>, String>)
    ensures
        match crate::progenitor::progenitor_of(progenitor_property@) {
            Ok(p) => roles is Ok && roles->Ok_0.deep_view() == agent_roles(agent_address@, assignments_view(assignments@), p),
            Err(e) => roles is Err && roles->Err_0@ == e,
        },
{
    let mut role_names: Vec<String> = Vec::new();
    let mut i: usize = 0;
    while i < assignments.len()
        invariant
            i <= assignments.len(),
            role_names.deep_view() == assigned_role_names(assignments_view(assignments@.take(i as int))),
        decreases assignments.len() - i,
    {
        assert(assignments_view(assignments@.take(i + 1)).drop_last() =~= assignments_view(assignments@.take(i as int)));
        if assignments[i].assigned {
            role_names.push(assignments[i].role_name.clone());
        }
        i = i + 1;
    }
    assert(assignments@.take(i as int) =~= assignments@);
    let progenitor = crate::progenitor::get_progenitor_address(progenitor_property)?;
    if progenitor == *agent_address {
        role_names.push(owned(crate::ADMIN_ROLE_NAME));
    }
    Ok(role_names)
}

/// The agents that hold a role, given the assignments that the role's links
/// lead to: those of the assignments in force, in their order.
pub fn get_agents_with_role(assignments: &Vec<RoleAssignment>) -> (agents: Vec<String>)
    ensures
        agents.deep_view() == assigned_agents(assignments_view(assignments@)),
{
    let mut agents: Vec<String> = Vec::new();
    let mut i: usize = 0;
    while i < assignments.len()
        invariant
            i <= assignments.len(),
            agents.deep_view() == assigned_agents(assignments_view(assignments@.take(i as int))),
        decreases assignments.len() - i,
    {
        assert(assignments_view(assignments@.take(i + 1)).drop_last() =~= assignments_view(assignments@.take(i as int)));
        if assignments[i].assigned {
            agents.push(assignments[i].agent_address.clone());
        }
        i = i + 1;
    }
    assert(assignments@.take(i as int) =~= assignments@);
    agents
}

} // verus!

verus! {

/// Appends the call made on a reply, if any, in front of the calls made after it.
pub open spec fn opt_cons(c: Option<CallView>, calls: Seq<CallView>) -> Seq<CallView> {
    match c {
        Some(c) => seq![c] + calls,
        None => calls,
    }
}

/// An update after it got `replies`, one after another, and the calls it made
/// on them, in order.
pub open spec fn update_run(u: UpdateView, replies: Seq<ReplyView>) -> (UpdateView, Seq<CallView>)
    decreases replies.len(),
{
    if replies.len() == 0 {
        (u, Seq::empty())
    } else {
        let n = update_next(u, replies[0]);
        let rest = update_run(n.0, replies.drop_first());
        (rest.0, opt_cons(n.1, rest.1))
    }
}

/// An update of the assignment of `role_name` to `agent_address` towards
/// `assigned`, started and then given `replies`: where it ends, and all the
/// calls it made, its first call included.
pub open spec fn update_calls(
    role_name: Seq<char>,
    agent_address: Seq<char>,
    assigned: bool,
    role_anchor: Seq<char>,
    replies: Seq<ReplyView>,
) -> (UpdateView, Seq<CallView>) {
    let s = update_start(role_name, agent_address, assigned, role_anchor);
    let run = update_run(s.0, replies);
    (run.0, seq![s.1] + run.1)
}

/// The most replies an update in this step waits for before it finishes.
pub open spec fn steps_left(step: StepView) -> nat {
    match step {
        StepView::ReadingAgentLinks => 5,
        StepView::LoadingPrevious { .. } => 4,
        StepView::Committing => 3,
        StepView::Updating => 3,
        StepView::LinkingAgent { .. } => 2,
        StepView::LinkingRole { .. } => 1,
        StepView::Finished { .. } => 0,
    }
}

proof fn lemma_next_progress(u: UpdateView, reply: ReplyView)
    ensures
        u.step is Finished ==> update_next(u, reply) == (u, None::<CallView>),
        !(u.step is Finished) ==> steps_left(update_next(u, reply).0.step) < steps_left(u.step),
{
}

/// A finished update stays as it is, and makes no more calls, whatever it is
/// told.
pub proof fn lemma_finished_stays(u: UpdateView, replies: Seq<ReplyView>)
    requires
        u.step is Finished,
    ensures
        update_run(u, replies) == (u, Seq::<CallView>::empty()),
    decreases replies.len(),
{
    if replies.len() > 0 {
        lemma_next_progress(u, replies[0]);
        lemma_finished_stays(u, replies.drop_first());
    }
}

/// Every update finishes: after as many replies as [`steps_left`] counts
/// (at most five from the start), whatever the replies are.
pub proof fn lemma_update_finishes(u: UpdateView, replies: Seq<ReplyView>)
    requires
        replies.len() >= steps_left(u.step),
    ensures
        update_run(u, replies).0.step is Finished,
    decreases replies.len(),
{
    if u.step is Finished {
        lemma_finished_stays(u, replies);
    } else {
        lemma_next_progress(u, replies[0]);
        lemma_update_finishes(update_next(u, replies[0]).0, replies.drop_first());
    }
}

/// The call touches only what the update `u0` is about: it reads or writes
/// the agent's links to its assignments of the role (tagged with the role's
/// name) or the role anchor's links to the agent's assignments (tagged with the
/// agent's address), reads an assignment, or commits or updates an assignment
/// to one with the flag the update asks for.
pub open spec fn concerns(u0: UpdateView, c: CallView) -> bool {
    let agent_side = |base: Seq<char>, link_type: Seq<char>, tag: Seq<char>|
        base == u0.agent_address && link_type == AGENT_TO_ASSIGNMENT_LINK_TYPE@ && tag == u0.role_name;
    let role_side = |base: Seq<char>, link_type: Seq<char>, tag: Seq<char>|
        base == u0.role_anchor && link_type == ROLE_TO_ASSIGNMENT_LINK_TYPE@ && tag == u0.agent_address;
    match c {
        CallView::GetLinks { base, link_type, tag } => agent_side(base, link_type, tag),
        CallView::LoadAssignment { .. } => true,
        CallView::CommitAssignment { assignment } => assignment.assigned == u0.assigned,
        CallView::UpdateAssignment { assignment, .. } => assignment.assigned == u0.assigned,
        CallView::LinkEntries { base, link_type, tag, .. } => agent_side(base, link_type, tag) || role_side(
            base,
            link_type,
            tag,
        ),
    }
}

/// `u` is a later state of the update `u0`.
pub open spec fn same_update(u0: UpdateView, u: UpdateView) -> bool {
    &&& u.role_name == u0.role_name
    &&& u.agent_address == u0.agent_address
    &&& u.assigned == u0.assigned
    &&& u.role_anchor == u0.role_anchor
}

proof fn lemma_next_concerns(u0: UpdateView, u: UpdateView, reply: ReplyView)
    requires
        same_update(u0, u),
    ensures
        same_update(u0, update_next(u, reply).0),
        update_next(u, reply).1 matches Some(c) ==> concerns(u0, c),
{
}

proof fn lemma_run_concerns(u0: UpdateView, u: UpdateView, replies: Seq<ReplyView>)
    requires
        same_update(u0, u),
    ensures
        forall|i: int| 0 <= i < update_run(u, replies).1.len() ==> concerns(u0, #[trigger] update_run(u, replies).1[i]),
    decreases replies.len(),
{
    if replies.len() > 0 {
        let n = update_next(u, replies[0]);
        lemma_next_concerns(u0, u, replies[0]);
        lemma_run_concerns(u0, n.0, replies.drop_first());
        let rest = update_run(n.0, replies.drop_first()).1;
        assert forall|i: int| 0 <= i < opt_cons(n.1, rest).len() implies concerns(u0, #[trigger] opt_cons(n.1, rest)[i]) by {
            if n.1 is Some && i > 0 {
                assert(opt_cons(n.1, rest)[i] == rest[i - 1]);
            }
        }
    }
}

/// Whatever the host replies, an update of an assignment only reads and writes
/// the links between the agent, the role's anchor and their assignments (with
/// the tags that name the role and the agent), reads assignments, and commits
/// or updates assignments to ones that carry the flag it was asked to set.
pub proof fn lemma_update_concerns_only_its_pair(
    role_name: Seq<char>,
    agent_address: Seq<char>,
    assigned: bool,
    role_anchor: Seq<char>,
    replies: Seq<ReplyView>,
)
    ensures
        forall|i: int|
            0 <= i < update_calls(role_name, agent_address, assigned, role_anchor, replies).1.len() ==> concerns(
                update_start(role_name, agent_address, assigned, role_anchor).0,
                #[trigger] update_calls(role_name, agent_address, assigned, role_anchor, replies).1[i],
            ),
{
    let s = update_start(role_name, agent_address, assigned, role_anchor);
    lemma_run_concerns(s.0, s.0, replies);
    let calls = update_calls(role_name, agent_address, assigned, role_anchor, replies).1;
    let rest = update_run(s.0, replies).1;
    assert forall|i: int| 0 <= i < calls.len() implies concerns(s.0, #[trigger] calls[i]) by {
        if i > 0 {
            assert(calls[i] == rest[i - 1]);
        }
    }
}

/// The calls of an update that ends well, given the host's replies: it reads
/// the agent's links to its assignment of the role. Then
/// - with no such link, an unassignment is done at once, and an assignment
///   commits the initial assignment and links the agent and the role anchor to
///   the address the commit gave;
/// - with a link, it reads the assignment the first link leads to; when that
///   already carries the asked flag it is done; otherwise it updates that entry
///   to its replacement (the asked flag, pointing back to it), and links the
///   agent and the role anchor to the address of the new version.
pub open spec fn protocol_calls(u0: UpdateView, replies: Seq<ReplyView>) -> Seq<CallView> {
    let first = u0.read_agent_links();
    let links = replies[0]->Addresses_0;
    if links.len() == 0 {
        if !u0.assigned {
            seq![first]
        } else {
            let a = replies[1]->Address_0;
            seq![
                first,
                CallView::CommitAssignment { assignment: initial_assignment(u0.role_name, u0.agent_address) },
                link_entries_call(u0.agent_link(a)),
                link_entries_call(u0.role_link(a)),
            ]
        }
    } else {
        let p = links[0];
        let previous = replies[1]->Assignment_0;
        if previous.assigned == u0.assigned {
            seq![first, CallView::LoadAssignment { address: p }]
        } else {
            let a = replies[2]->Address_0;
            seq![
                first,
                CallView::LoadAssignment { address: p },
                CallView::UpdateAssignment { address: p, assignment: replacement(previous, p, u0.assigned) },
                link_entries_call(u0.agent_link(a)),
                link_entries_call(u0.role_link(a)),
            ]
        }
    }
}

pub open spec fn finished_ok(u: UpdateView) -> bool {
    u.step == (StepView::Finished { result: Ok(()) })
}

proof fn lemma_run_step(u: UpdateView, replies: Seq<ReplyView>)
    requires
        replies.len() > 0,
    ensures
        update_run(u, replies) == ({
            let n = update_next(u, replies[0]);
            let rest = update_run(n.0, replies.drop_first());
            (rest.0, opt_cons(n.1, rest.1))
        }),
{
}

/// After the next reply, the run either ends at once or goes on from the state
/// that reply led to.
proof fn lemma_step_or_stop(u: UpdateView, replies: Seq<ReplyView>)
    requires
        !(u.step is Finished),
    ensures
        replies.len() == 0 ==> !finished_ok(update_run(u, replies).0),
        replies.len() > 0 ==> update_run(u, replies) == ({
            let n = update_next(u, replies[0]);
            let rest = update_run(n.0, replies.drop_first());
            (rest.0, opt_cons(n.1, rest.1))
        }),
        replies.len() > 0 && update_next(u, replies[0]).0.step is Finished ==> update_run(u, replies) == (
            update_next(u, replies[0]).0,
            opt_cons(update_next(u, replies[0]).1, Seq::empty()),
        ),
{
    if replies.len() > 0 {
        lemma_run_step(u, replies);
        if update_next(u, replies[0]).0.step is Finished {
            lemma_finished_stays(update_next(u, replies[0]).0, replies.drop_first());
        }
    }
}

proof fn lemma_tail_linking_role(u: UpdateView, replies: Seq<ReplyView>)
    requires
        u.step is LinkingRole,
    ensures
        finished_ok(update_run(u, replies).0) ==> replies.len() >= 1,
        finished_ok(update_run(u, replies).0) ==> update_run(u, replies).1 =~= Seq::<CallView>::empty(),
{
    lemma_step_or_stop(u, replies);
}

proof fn lemma_tail_linking_agent(u: UpdateView, replies: Seq<ReplyView>)
    requires
        u.step is LinkingAgent,
    ensures
        finished_ok(update_run(u, replies).0) ==> replies.len() >= 2,
        finished_ok(update_run(u, replies).0) ==> update_run(u, replies).1 =~= seq![
            link_entries_call(u.role_link(u.step->LinkingAgent_assignment_address)),
        ],
{
    lemma_step_or_stop(u, replies);
    if replies.len() > 0 && !(update_next(u, replies[0]).0.step is Finished) {
        lemma_tail_linking_role(update_next(u, replies[0]).0, replies.drop_first());
    }
}

proof fn lemma_tail_writing(u: UpdateView, replies: Seq<ReplyView>)
    requires
        u.step is Committing || u.step is Updating,
    ensures
        finished_ok(update_run(u, replies).0) ==> replies.len() >= 3,
        finished_ok(update_run(u, replies).0) ==> update_run(u, replies).1 =~= seq![
            link_entries_call(u.agent_link(replies[0]->Address_0)),
            link_entries_call(u.role_link(replies[0]->Address_0)),
        ],
{
    lemma_step_or_stop(u, replies);
    if replies.len() > 0 && !(update_next(u, replies[0]).0.step is Finished) {
        lemma_tail_linking_agent(update_next(u, replies[0]).0, replies.drop_first());
    }
}

proof fn lemma_tail_loading_previous(u: UpdateView, replies: Seq<ReplyView>)
    requires
        u.step is LoadingPrevious,
    ensures
        finished_ok(update_run(u, replies).0) ==> replies.len() >= 1,
        finished_ok(update_run(u, replies).0) && replies[0]->Assignment_0.assigned != u.assigned ==> replies.len() >= 4,
        finished_ok(update_run(u, replies).0) ==> update_run(u, replies).1 =~= ({
            let p = u.step->LoadingPrevious_previous_address;
            let previous = replies[0]->Assignment_0;
            if previous.assigned == u.assigned {
                Seq::<CallView>::empty()
            } else {
                seq![
                    CallView::UpdateAssignment { address: p, assignment: replacement(previous, p, u.assigned) },
                    link_entries_call(u.agent_link(replies[1]->Address_0)),
                    link_entries_call(u.role_link(replies[1]->Address_0)),
                ]
            }
        }),
{
    lemma_step_or_stop(u, replies);
    if replies.len() > 0 && !(update_next(u, replies[0]).0.step is Finished) {
        let rest = replies.drop_first();
        lemma_tail_writing(update_next(u, replies[0]).0, rest);
        if rest.len() > 0 {
            assert(rest[0] == replies[1]);
        }
    }
}

/// An assignment update that ends well made exactly the calls of
/// [`protocol_calls`] on the replies it got: no write when the assignment
/// already said what was asked (or there was nothing to unassign), and
/// otherwise the commit of the initial assignment or the update of the linked
/// one to the asked flag, and the links from the agent and the role anchor to
/// the entry written.
pub proof fn lemma_update_protocol(
    role_name: Seq<char>,
    agent_address: Seq<char>,
    assigned: bool,
    role_anchor: Seq<char>,
    replies: Seq<ReplyView>,
)
    requires
        finished_ok(update_calls(role_name, agent_address, assigned, role_anchor, replies).0),
    ensures
        update_calls(role_name, agent_address, assigned, role_anchor, replies).1 =~= protocol_calls(
            update_start(role_name, agent_address, assigned, role_anchor).0,
            replies,
        ),
{
    let s = update_start(role_name, agent_address, assigned, role_anchor);
    let u0 = s.0;
    lemma_step_or_stop(u0, replies);
    let calls = update_calls(role_name, agent_address, assigned, role_anchor, replies).1;
    assert(calls == seq![s.1] + update_run(u0, replies).1);
    let n = update_next(u0, replies[0]);
    if n.0.step is Finished {
        assert(calls =~= protocol_calls(u0, replies));
    } else {
        let u1 = n.0;
        let rest = replies.drop_first();
        let tail = update_run(u1, rest).1;
        assert(update_run(u0, replies).1 == opt_cons(n.1, tail));
        if u1.step is Committing {
            lemma_tail_writing(u1, rest);
            assert(rest[0] == replies[1]);
            assert(calls =~= protocol_calls(u0, replies));
        } else {
            lemma_tail_loading_previous(u1, rest);
            assert(rest[0] == replies[1]);
            if rest[0]->Assignment_0.assigned != assigned {
                assert(rest[1] == replies[2]);
            }
            assert(calls =~= protocol_calls(u0, replies));
        }
    }
}

} // verus!
