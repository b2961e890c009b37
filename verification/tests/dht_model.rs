use std::collections::HashMap;

use holochain_roles::entry_def::validate_by_rule;
use holochain_roles::handlers::{assign_role, get_agent_roles, unassign_role, AssignmentUpdate, HostCall, HostReply};
use holochain_roles::validation::{
    had_agent_role, has_agent_role, validate_required_role, CrudStatus, HistoryItem, StoredEntry,
};
use holochain_roles::{role_assignment_entry_def, RoleAssignment};

/// A small in-memory DHT that answers the calls of an assignment update: an
/// entry lives at the address of its content, an update adds a version to the
/// entry, and a read of any version's address gives the newest version.
#[derive(Default)]
struct Dht {
    links: HashMap<(String, String, String), Vec<String>>,
    /// The versions of each entry, keyed by the address of its first version.
    chains: HashMap<String, Vec<(RoleAssignment, i64)>>,
    /// For each version's address, the address of its entry's first version.
    versions: HashMap<String, String>,
    now: i64,
    writes: usize,
}

fn address_of(a: &RoleAssignment) -> String {
    format!("Qm[{}|{}|{}|{:?}]", a.role_name, a.agent_address, a.assigned, a.previous_assignment_address)
}

impl Dht {
    fn chain(&self, address: &str) -> Option<&Vec<(RoleAssignment, i64)>> {
        self.versions.get(address).and_then(|first| self.chains.get(first))
    }

    fn newest(&self, address: &str) -> Option<RoleAssignment> {
        self.chain(address).and_then(|c| c.last()).map(|v| v.0.clone())
    }

    fn answer(&mut self, call: HostCall) -> HostReply {
        match call {
            HostCall::GetLinks { base, link_type, tag } => {
                HostReply::Addresses(self.links.get(&(base, link_type, tag)).cloned().unwrap_or_default())
            }
            HostCall::LoadAssignment { address } => match self.newest(&address) {
                Some(a) => HostReply::Assignment(a),
                None => HostReply::Failed("not found".to_string()),
            },
            HostCall::CommitAssignment { assignment } => {
                let address = address_of(&assignment);
                if !self.versions.contains_key(&address) {
                    self.writes += 1;
                    self.chains.insert(address.clone(), vec![(assignment, self.now)]);
                    self.versions.insert(address.clone(), address.clone());
                }
                HostReply::Address(address)
            }
            HostCall::UpdateAssignment { address, assignment } => match self.versions.get(&address).cloned() {
                Some(first) => {
                    self.writes += 1;
                    let new_address = address_of(&assignment);
                    self.chains.get_mut(&first).unwrap().push((assignment, self.now));
                    self.versions.insert(new_address.clone(), first);
                    HostReply::Address(new_address)
                }
                None => HostReply::Failed("not found".to_string()),
            },
            HostCall::LinkEntries { base, target, link_type, tag } => {
                self.links.entry((base, link_type, tag)).or_default().push(target);
                HostReply::Done
            }
        }
    }

    fn run(&mut self, (mut update, first): (AssignmentUpdate, HostCall)) -> Option<Result<(), String>> {
        self.now += 10;
        let mut call = Some(first);
        let mut calls = 0;
        while let Some(c) = call {
            let reply = self.answer(c);
            call = update.next(reply);
            calls += 1;
        }
        assert!(calls <= 5);
        update.outcome()
    }

    fn agent_assignments(&self, agent: &str) -> Vec<RoleAssignment> {
        let mut out = Vec::new();
        for ((base, link_type, _), targets) in &self.links {
            if base == agent && link_type == "agent->role_assignment" {
                for t in targets {
                    out.push(self.newest(t).unwrap());
                }
            }
        }
        out
    }

    fn initial_address(role: &str, agent: &str) -> String {
        address_of(&RoleAssignment::from(role.to_string(), agent.to_string()))
    }

    /// What `has_agent_role` is handed: the entry read at the address of the
    /// agent's initial assignment of the role.
    fn read(&self, role: &str, agent: &str) -> Result<StoredEntry, String> {
        Ok(match self.newest(&Dht::initial_address(role, agent)) {
            Some(a) => StoredEntry::Assignment(a),
            None => StoredEntry::Absent,
        })
    }

    /// What `had_agent_role` is handed: all versions at that address.
    fn history(&self, role: &str, agent: &str) -> Option<Vec<HistoryItem>> {
        self.chain(&Dht::initial_address(role, agent)).map(|c| {
            c.iter()
                .enumerate()
                .map(|(i, (a, t))| HistoryItem {
                    header_timestamps: vec![*t],
                    entry: StoredEntry::Assignment(a.clone()),
                    crud_status: Some(if i + 1 == c.len() { CrudStatus::Live } else { CrudStatus::Modified }),
                })
                .collect()
        })
    }
}

fn s(x: &str) -> String {
    x.to_string()
}

#[test]
fn assignments_take_effect_in_the_dht() {
    let mut dht = Dht::default();
    let prop = "\"QmProgenitor\"";
    assert_eq!(dht.run(assign_role(s("editor"), s("QmAgent"), s("QmAnchor"))), Some(Ok(())));
    let home = Dht::initial_address("editor", "QmAgent");
    assert_eq!(dht.links[&(s("QmAgent"), s("agent->role_assignment"), s("editor"))], vec![home.clone()]);
    assert_eq!(has_agent_role(&dht.read("editor", "QmAgent")), Ok(true));
    let roles = get_agent_roles(&s("QmAgent"), &dht.agent_assignments("QmAgent"), prop).unwrap();
    assert_eq!(roles, vec![s("editor")]);
    // Assigning again writes nothing.
    assert_eq!(dht.run(assign_role(s("editor"), s("QmAgent"), s("QmAnchor"))), Some(Ok(())));
    assert_eq!(dht.writes, 1);
    assert_eq!(dht.run(unassign_role(s("editor"), s("QmAgent"), s("QmAnchor"))), Some(Ok(())));
    assert_eq!(dht.writes, 2);
    // The unassignment is the newest version at the address the checks read.
    assert_eq!(has_agent_role(&dht.read("editor", "QmAgent")), Ok(false));
    let roles = get_agent_roles(&s("QmAgent"), &dht.agent_assignments("QmAgent"), prop).unwrap();
    assert!(roles.is_empty());
    let newest = dht.newest(&home).unwrap();
    assert!(!newest.assigned);
    assert_eq!(newest.previous_assignment_address, Some(home.clone()));
    // The anchor's links for the agent lead where the agent's links do.
    assert_eq!(
        dht.links[&(s("QmAnchor"), s("role->role_assignment"), s("QmAgent"))],
        dht.links[&(s("QmAgent"), s("agent->role_assignment"), s("editor"))]
    );
    assert_eq!(dht.run(assign_role(s("editor"), s("QmAgent"), s("QmAnchor"))), Some(Ok(())));
    assert_eq!(has_agent_role(&dht.read("editor", "QmAgent")), Ok(true));
    let roles = get_agent_roles(&s("QmAgent"), &dht.agent_assignments("QmAgent"), prop).unwrap();
    assert_eq!(roles, vec![s("editor"), s("editor"), s("editor")]);
    assert_eq!(dht.chains[&home].len(), 3);
}

#[test]
fn past_checks_see_the_version_of_their_time() {
    let mut dht = Dht::default();
    let prop = "\"QmProgenitor\"";
    dht.run(assign_role(s("editor"), s("QmAgent"), s("QmAnchor"))); // written at 10
    dht.run(unassign_role(s("editor"), s("QmAgent"), s("QmAnchor"))); // written at 20
    let history = dht.history("editor", "QmAgent");
    assert_eq!(had_agent_role(&history, 5), Ok(false));
    assert_eq!(had_agent_role(&history, 15), Ok(true));
    assert_eq!(had_agent_role(&history, 20), Ok(false));
    assert_eq!(had_agent_role(&history, 1000), Ok(false));
    assert_eq!(validate_required_role(&s("QmAgent"), &s("editor"), prop, &s("QmE"), 15, &Ok(history.clone())), Ok(()));
    assert_eq!(
        validate_required_role(&s("QmAgent"), &s("editor"), prop, &s("QmE"), 25, &Ok(history)),
        Err(s("Agent QmAgent did not have the role editor when committing entry QmE"))
    );
}

#[test]
fn an_unassigned_admin_loses_its_rights() {
    let mut dht = Dht::default();
    let prop = "\"QmProgenitor\"";
    dht.run(assign_role(s("Admin"), s("QmAgent"), s("QmAdminAnchor")));
    let history = dht.history("Admin", "QmAgent");
    let def = role_assignment_entry_def();
    assert_eq!(validate_by_rule(&def.on_modify, &s("QmAgent"), prop, &s("QmE"), 11, &Ok(history), &Ok(true), &Ok(())), Ok(()));
    dht.run(unassign_role(s("Admin"), s("QmAgent"), s("QmAdminAnchor")));
    let history = dht.history("Admin", "QmAgent");
    assert_eq!(
        validate_by_rule(&def.on_create, &s("QmAgent"), prop, &s("QmE"), 21, &Ok(history), &Ok(false), &Ok(())),
        Err(s("Agent QmAgent did not have the role Admin when committing entry QmE"))
    );
    // The progenitor stays an administrator without any assignment.
    assert_eq!(validate_by_rule(&def.on_delete, &s("QmProgenitor"), prop, &s("QmE"), 21, &Ok(None), &Ok(true), &Ok(())), Ok(()));
}

#[test]
fn unassigning_first_leaves_the_dht_untouched() {
    let mut dht = Dht::default();
    assert_eq!(dht.run(unassign_role(s("editor"), s("QmAgent"), s("QmAnchor"))), Some(Ok(())));
    assert_eq!(dht.writes, 0);
    assert!(dht.links.is_empty());
    assert_eq!(has_agent_role(&dht.read("editor", "QmAgent")), Ok(false));
    assert_eq!(had_agent_role(&dht.history("editor", "QmAgent"), 100), Ok(false));
}

#[test]
fn assignment_entries_are_changed_by_admins_only() {
    let def = role_assignment_entry_def();
    let prop = "\"QmProgenitor\"";
    assert_eq!(
        validate_by_rule(&def.on_modify, &s("QmOther"), prop, &s("QmE"), 1, &Ok(None), &Ok(true), &Ok(())),
        Err(s("Agent QmOther did not have the role Admin when committing entry QmE"))
    );
    assert_eq!(validate_by_rule(&def.on_modify, &s("QmProgenitor"), prop, &s("QmE"), 1, &Ok(None), &Ok(false), &Ok(())), Ok(()));
    assert_eq!(validate_by_rule(&def.on_create, &s("QmProgenitor"), prop, &s("QmE"), 1, &Ok(None), &Ok(false), &Ok(())), Ok(()));
    assert_eq!(
        validate_by_rule(&def.on_delete, &s("QmOther"), prop, &s("QmE"), 1, &Ok(None), &Ok(true), &Ok(())),
        Err(s("Agent QmOther did not have the role Admin when committing entry QmE"))
    );
}
