//! Whether an agent holds a role: now, at the time it committed an entry, and
//! whether it is an administrator.
use vstd::prelude::*;
use vstd::string::StringExecFns;

use crate::progenitor::{get_progenitor_address, progenitor_of};
use crate::{owned, RoleAssignment, RoleAssignmentView, ADMIN_ROLE_NAME};

verus! {

/// An entry read from the DHT, as the role checks see it.
#[derive(Debug, Clone, PartialEq, Eq)]
pub enum StoredEntry {
    /// No entry, or an entry that is not an application entry.
    Absent,
    /// An application entry that reads as a role assignment.
    Assignment(RoleAssignment),
    /// An application entry that does not read as a role assignment, with the
    /// message of the failed read.
    Unreadable(String),
}

pub enum StoredEntryView {
    Absent,
    Assignment(RoleAssignmentView),
    Unreadable(Seq<char>),
}

impl View for StoredEntry {
    type V = StoredEntryView;

    open spec fn view(&self) -> StoredEntryView {
        match self {
            StoredEntry::Absent => StoredEntryView::Absent,
            StoredEntry::Assignment(a) => StoredEntryView::Assignment(a@),
            StoredEntry::Unreadable(e) => StoredEntryView::Unreadable(e@),
        }
    }
}

/// The life-cycle status of a version of an entry.
#[derive(Debug, PartialEq, Eq, Structural, Clone, Copy)]
pub enum CrudStatus {
    Live,
    Rejected,
    Deleted,
    Modified,
    Locked,
}

/// One version of an entry in its history: the timestamps of the headers that
/// committed it, the entry, and its status where the host gave one.
#[derive(Debug, Clone, PartialEq, Eq)]
pub struct HistoryItem {
    pub header_timestamps: Vec<i64>,
    pub entry: StoredEntry,
    pub crud_status: Option<CrudStatus>,
}

pub struct HistoryItemView {
    pub header_timestamps: Seq<i64>,
    pub entry: StoredEntryView,
    pub crud_status: Option<CrudStatus>,
}

impl View for HistoryItem {
    type V = HistoryItemView;

    open spec fn view(&self) -> HistoryItemView {
        HistoryItemView {
            header_timestamps: self.header_timestamps@,
            entry: self.entry@,
            crud_status: self.crud_status,
        }
    }
}

pub open spec fn history_view(items: Seq<HistoryItem>) -> Seq<HistoryItemView> {
    items.map_values(|i: HistoryItem| i@)
}

/// Every version of the history was committed by at least one header.
pub open spec fn headed(items: Seq<HistoryItemView>) -> bool {
    forall|i: int| 0 <= i < items.len() ==> #[trigger] items[i].header_timestamps.len() > 0
}

/// The versions that a search for the version in force at `t` looks at (each
/// one up to the first committed after `t`) were each committed by at least
/// one header: the search takes the earliest of their timestamps.
pub open spec fn scan_headed(items: Seq<HistoryItemView>, t: i64) -> bool
    decreases items.len(),
{
    if items.len() == 0 {
        true
    } else if items[0].header_timestamps.len() == 0 {
        false
    } else if earliest(items[0].header_timestamps) > t {
        true
    } else {
        scan_headed(items.drop_first(), t)
    }
}

/// The smallest of a non-empty list of timestamps.
pub open spec fn earliest(ts: Seq<i64>) -> i64
    decreases ts.len(),
{
    if ts.len() <= 1 {
        ts[0]
    } else {
        let rest = earliest(ts.drop_last());
        if ts.last() < rest {
            ts.last()
        } else {
            rest
        }
    }
}

/// The index of the first version first committed after `t`, or the length of
/// the history when there is none.
pub open spec fn first_started_after(items: Seq<HistoryItemView>, t: i64) -> int
    decreases items.len(),
{
    if items.len() == 0 {
        0
    } else if earliest(items[0].header_timestamps) > t {
        0
    } else {
        1 + first_started_after(items.drop_first(), t)
    }
}

/// The version in force at time `t`: the one before the first version committed
/// after `t`, or the last version when none was; none when the first version
/// itself was committed after `t`.
pub open spec fn version_in_force(items: Seq<HistoryItemView>, t: i64) -> Option<int> {
    let k = first_started_after(items, t);
    if k == items.len() {
        if items.len() > 0 {
            Some(items.len() - 1)
        } else {
            None
        }
    } else if k == 0 {
        None
    } else {
        Some(k - 1)
    }
}

/// Whether an entry read as an assignment says the role is held.
pub open spec fn assignment_status(entry: StoredEntryView) -> Result<bool, Seq<char>> {
    match entry {
        StoredEntryView::Absent => Ok(false),
        StoredEntryView::Assignment(a) => Ok(a.assigned),
        StoredEntryView::Unreadable(e) => Err(e),
    }
}

pub open spec fn bool_result_view(r: Result<bool, String>) -> Result<bool, Seq<char>> {
    match r {
        Ok(b) => Ok(b),
        Err(e) => Err(e@),
    }
}

pub open spec fn unit_result_view(r: Result<(), String>) -> Result<(), Seq<char>> {
    match r {
        Ok(()) => Ok(()),
        Err(e) => Err(e@),
    }
}

/// Whether the search for the version in force at `t` can take the earliest
/// timestamp of each version it looks at (see [`scan_headed`]).
pub fn is_scannable(items: &Vec<HistoryItem>, t: i64) -> (ok: bool)
    ensures
        ok == scan_headed(history_view(items@), t),
{
    let ghost h = history_view(items@);
    let mut i: usize = 0;
    assert(h.subrange(0, h.len() as int) =~= h);
    while i < items.len()
        invariant
            0 <= i <= items.len(),
            h == history_view(items@),
            scan_headed(h, t) == scan_headed(h.subrange(i as int, h.len() as int), t),
        decreases items.len() - i,
    {
        assert(h.subrange(i as int, h.len() as int)[0] == h[i as int]);
        if items[i].header_timestamps.len() == 0 {
            return false;
        }
        if earliest_timestamp(&items[i].header_timestamps) > t {
            return true;
        }
        assert(h.subrange(i as int, h.len() as int).drop_first() =~= h.subrange(i + 1, h.len() as int));
        i = i + 1;
    }
    assert(h.subrange(i as int, h.len() as int) =~= Seq::<HistoryItemView>::empty());
    true
}

/// The smallest of the timestamps of a version's headers.
pub fn earliest_timestamp(timestamps: &Vec<i64>) -> (t: i64)
    requires
        timestamps.len() > 0,
    ensures
        t == earliest(timestamps@),
{
    let mut t: i64 = timestamps[0];
    let mut i: usize = 1;
    while i < timestamps.len()
        invariant
            1 <= i <= timestamps.len(),
            t == earliest(timestamps@.take(i as int)),
        decreases timestamps.len() - i,
    {
        assert(timestamps@.take(i + 1).drop_last() =~= timestamps@.take(i as int));
        if timestamps[i] < t {
            t = timestamps[i];
        }
        i = i + 1;
    }
    assert(timestamps@.take(i as int) =~= timestamps@);
    t
}

/// The index of the version of a history in force at time `t` (see
/// [`version_in_force`]).
pub fn version_at(items: &Vec<HistoryItem>, t: i64) -> (index: Option<usize>)
    requires
        scan_headed(history_view(items@), t),
    ensures
        match (index, version_in_force(history_view(items@), t)) {
            (Some(i), Some(j)) => i == j,
            (None, None) => true,
            _ => false,
        },
        index matches Some(i) ==> i < items.len(),
{
    let ghost h = history_view(items@);
    assert(h.subrange(0, h.len() as int) =~= h);
    let mut i: usize = 0;
    while i < items.len()
        invariant
            0 <= i <= items.len(),
            h == history_view(items@),
            scan_headed(h.subrange(i as int, h.len() as int), t),
            first_started_after(h, t) == i + first_started_after(h.subrange(i as int, h.len() as int), t),
        decreases items.len() - i,
    {
        assert(h.subrange(i as int, h.len() as int)[0] == h[i as int]);
        assert(h[i as int].header_timestamps.len() > 0);
        let e = earliest_timestamp(&items[i].header_timestamps);
        if e > t {
            assert(first_started_after(h.subrange(i as int, h.len() as int), t) == 0);
            if i == 0 {
                return None;
            } else {
                return Some(i - 1);
            }
        }
        assert(h.subrange(i as int, h.len() as int).drop_first() =~= h.subrange(i + 1, h.len() as int));
        i = i + 1;
    }
    assert(h.subrange(i as int, h.len() as int) =~= Seq::<HistoryItemView>::empty());
    if items.len() > 0 {
        Some(items.len() - 1)
    } else {
        None
    }
}

/// Whether a stored entry, read as a role assignment, says the role is held:
/// not when there is no entry, the assignment's flag when it reads as one, and
/// the read's error when it does not.
pub fn is_agent_assigned(entry: &StoredEntry) -> (held: Result<bool, String>)
    ensures
        bool_result_view(held) == assignment_status(entry@),
{
    match entry {
        StoredEntry::Absent => Ok(false),
        StoredEntry::Assignment(a) => Ok(a.assigned),
        StoredEntry::Unreadable(e) => Err(e.clone()),
    }
}

/// Whether the agent held the role at time `t`, given the history of the
/// entry at the address of its initial assignment (`None` where there is no
/// such entry).
pub open spec fn held_at(history: Option<Seq<HistoryItemView>>, t: i64) -> Result<bool, Seq<char>> {
    match history {
        None => Ok(false),
        Some(items) => match version_in_force(items, t) {
            None => Ok(false),
            Some(i) => assignment_status(items[i].entry),
        },
    }
}

pub open spec fn opt_history_view(history: Option<Vec<HistoryItem>>) -> Option<Seq<HistoryItemView>> {
    match history {
        Some(v) => Some(history_view(v@)),
        None => None,
    }
}

/// Whether the agent had the role at time `t`, given the history of the entry
/// at the address of its initial assignment of that role.
pub fn had_agent_role(history: &Option<Vec<HistoryItem>>, t: i64) -> (had: Result<bool, String>)
    requires
        history matches Some(items) ==> scan_headed(history_view(items@), t),
    ensures
        bool_result_view(had) == held_at(opt_history_view(*history), t),
{
    match history {
        None => Ok(false),
        Some(items) => match version_at(items, t) {
            None => Ok(false),
            Some(i) => is_agent_assigned(&items[i].entry),
        },
    }
}

/// What the host answered to a request for all versions of an entry.
#[derive(Debug, Clone, PartialEq, Eq)]
pub enum EntryLookup {
    /// A single version, and whether it holds an entry.
    Single { has_entry: bool },
    /// All versions of the entry.
    All(Vec<HistoryItem>),
}

/// Message of the error when a request for all versions got a single one.
pub const UNEXPECTED_LOOKUP: &'static str = "shouldn't happen";

/// The history of an entry from the host's answer to a request for all of its
/// versions: none when nothing was found (no entry in a single answer, no
/// versions in a full one), the versions when there are some, and an error when
/// the host answered a single version that holds an entry.
pub fn get_entry_history_with_meta(lookup: EntryLookup) -> (history: Result<Option<Vec<HistoryItem>>, String>)
    ensures
        match lookup {
            EntryLookup::Single { has_entry } => if has_entry {
                history is Err && history->Err_0@ == UNEXPECTED_LOOKUP@
            } else {
                history == Ok::<Option<Vec<HistoryItem>>, String>(None)
            },
            EntryLookup::All(items) => if items.len() == 0 {
                history == Ok::<Option<Vec<HistoryItem>>, String>(None)
            } else {
                history == Ok::<Option<Vec<HistoryItem>>, String>(Some(items))
            },
        },
{
    match lookup {
        EntryLookup::Single { has_entry } => {
            if has_entry {
                Err(owned(UNEXPECTED_LOOKUP))
            } else {
                Ok(None)
            }
        },
        EntryLookup::All(items) => {
            if items.len() == 0 {
                Ok(None)
            } else {
                Ok(Some(items))
            }
        },
    }
}

pub open spec fn read_status(read: Result<StoredEntryView, Seq<char>>) -> Result<bool, Seq<char>> {
    match read {
        Ok(entry) => assignment_status(entry),
        Err(e) => Err(e),
    }
}

pub open spec fn read_view(read: Result<StoredEntry, String>) -> Result<StoredEntryView, Seq<char>> {
    match read {
        Ok(entry) => Ok(entry@),
        Err(e) => Err(e@),
    }
}

/// Whether the agent holds the role, given the read of the entry at the address
/// of its initial assignment of that role.
pub fn has_agent_role(assignment_read: &Result<StoredEntry, String>) -> (held: Result<bool, String>)
    ensures
        bool_result_view(held) == read_status(read_view(*assignment_read)),
{
    match assignment_read {
        Ok(entry) => is_agent_assigned(entry),
        Err(e) => Err(e.clone()),
    }
}

/// Whether `agent` is an administrator: the progenitor is one; any other agent
/// is one when it holds the administrator role.
pub open spec fn admin_status(agent: Seq<char>, progenitor_property: Seq<char>, admin_read: Result<StoredEntryView, Seq<char>>) -> Result<bool, Seq<char>> {
    match progenitor_of(progenitor_property) {
        Err(e) => Err(e),
        Ok(p) => if p == agent {
            Ok(true)
        } else {
            read_status(admin_read)
        },
    }
}

/// Whether `agent_address` is an administrator, given the text of the
/// `progenitor` property and the read of the entry at the address of its
/// initial assignment of the administrator role (which is not looked at when
/// the agent is the progenitor).
pub fn is_agent_admin(agent_address: &String, progenitor_property: &str, admin_read: &Result<StoredEntry, String>) -> (admin: Result<bool, String>)
    ensures
        bool_result_view(admin) == admin_status(agent_address@, progenitor_property@, read_view(*admin_read)),
{
    let progenitor_address = get_progenitor_address(progenitor_property)?;
    if progenitor_address == *agent_address {
        return Ok(true);
    }
    has_agent_role(admin_read)
}

/// Message of a validation refused because the agent lacked the role.
pub open spec fn missing_role_message(agent: Seq<char>, role_name: Seq<char>, entry_address: Seq<char>) -> Seq<char> {
    "Agent "@ + agent + " did not have the role "@ + role_name + " when committing entry "@ + entry_address
}

pub fn missing_role(agent_address: &String, role_name: &String, entry_address: &String) -> (message: String)
    ensures
        message@ == missing_role_message(agent_address@, role_name@, entry_address@),
{
    let mut message = owned("Agent ");
    message.append(agent_address.as_str());
    message.append(" did not have the role ");
    message.append(role_name.as_str());
    message.append(" when committing entry ");
    message.append(entry_address.as_str());
    message
}

pub open spec fn opt_history_result_view(h: Result<Option<Vec<HistoryItem>>, String>) -> Result<Option<Seq<HistoryItemView>>, Seq<char>> {
    match h {
        Ok(o) => Ok(opt_history_view(o)),
        Err(e) => Err(e@),
    }
}

/// A history read, where it was read and found, can be searched at `t`.
pub open spec fn history_scannable(history: Result<Option<Seq<HistoryItemView>>, Seq<char>>, t: i64) -> bool {
    match history {
        Ok(Some(items)) => scan_headed(items, t),
        _ => true,
    }
}

/// Whether a required-role check looks at the history: it does unless the
/// progenitor property is unreadable (the check fails first) or the agent is
/// the progenitor and the role the administrator role.
pub open spec fn consults_history(agent: Seq<char>, role_name: Seq<char>, progenitor_property: Seq<char>) -> bool {
    match progenitor_of(progenitor_property) {
        Ok(p) => !(role_name == ADMIN_ROLE_NAME@ && p == agent),
        Err(_) => false,
    }
}

/// Whether [`validate_required_role`] looks at the history for these
/// arguments (see [`consults_history`]).
pub fn looks_at_history(agent_address: &String, role_name: &String, progenitor_property: &str) -> (looks: bool)
    ensures
        looks == consults_history(agent_address@, role_name@, progenitor_property@),
{
    match get_progenitor_address(progenitor_property) {
        Ok(p) => !(*role_name == owned(ADMIN_ROLE_NAME) && p == *agent_address),
        Err(_) => false,
    }
}

/// Whether a validation that requires `role_name` of `agent`, for an entry at
/// `entry_address` committed at time `t`, is granted: the progenitor is granted
/// the administrator role; anyone else is granted a role it held at `t`, and
/// refused with a message naming the agent, the role and the entry otherwise.
pub open spec fn required_role_verdict(
    agent: Seq<char>,
    role_name: Seq<char>,
    progenitor_property: Seq<char>,
    entry_address: Seq<char>,
    t: i64,
    history: Result<Option<Seq<HistoryItemView>>, Seq<char>>,
) -> Result<(), Seq<char>> {
    match progenitor_of(progenitor_property) {
        Err(e) => Err(e),
        Ok(p) => if role_name == ADMIN_ROLE_NAME@ && p == agent {
            Ok(())
        } else {
            match history {
                Err(e) => Err(e),
                Ok(h) => match held_at(h, t) {
                    Err(e) => Err(e),
                    Ok(true) => Ok(()),
                    Ok(false) => Err(missing_role_message(agent, role_name, entry_address)),
                },
            }
        },
    }
}

/// Validates that `agent_address`, the first source of an entry at
/// `entry_address` committed at `timestamp`, had the role `role_name` at that
/// time. `history` is the read of the history of the entry at the address of
/// the agent's initial assignment of the role; it is not looked at when the
/// agent is the progenitor and the role is the administrator role.
pub fn validate_required_role(
    agent_address: &String,
    role_name: &String,
    progenitor_property: &str,
    entry_address: &String,
    timestamp: i64,
    history: &Result<Option<Vec<HistoryItem>>, String>,
) -> (verdict: Result<(), String>)
    requires
        consults_history(agent_address@, role_name@, progenitor_property@) ==> history_scannable(
            opt_history_result_view(*history),
            timestamp,
        ),
    ensures
        unit_result_view(verdict) == required_role_verdict(
            agent_address@,
            role_name@,
            progenitor_property@,
            entry_address@,
            timestamp,
            opt_history_result_view(*history),
        ),
{
    let progenitor_address = get_progenitor_address(progenitor_property)?;
    let admin = owned(ADMIN_ROLE_NAME);
    if *role_name == admin && progenitor_address == *agent_address {
        return Ok(());
    }
    let had = match history {
        Ok(h) => had_agent_role(h, timestamp)?,
        Err(e) => return Err(e.clone()),
    };
    if had {
        Ok(())
    } else {
        Err(missing_role(agent_address, role_name, entry_address))
    }
}

} // verus!
