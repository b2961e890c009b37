//! Administrators of the roles zome: the agents named in the DNA's
//! `initial_admins` property, and the holders of the administrator role.
use vstd::prelude::*;

use super::validation::{agent_has_role, chain_agent, chain_has_role, chain_view, get_chain_agent_id, string_result_view, ChainEntry, ChainEntryView};
use crate::owned;
use crate::validation::bool_result_view;

verus! {

/// What `serde_json` reads from `text` as a JSON array of strings: the
/// strings, or `None` when `text` is not one such array.
pub uninterp spec fn json_string_list(text: Seq<char>) -> Option<Seq<Seq<char>>>;

/// Calls `serde_json::from_str::<Vec<String>>` on `text`.
///
/// Trusted: the strings read are `json_string_list` of the text, in order, and
/// the call fails exactly where that name is `None`. What the name is on given
/// texts (the JSON grammar) is left to `serde_json` and not stated here.
#[verifier::external_body]
fn parse_json_string_list(text: &str) -> (list: Option<Vec<String>>)
    ensures
        match list {
            Some(v) => json_string_list(text@) == Some(v.deep_view()),
            None => json_string_list(text@) is None,
        },
{
    serde_json::from_str::<Vec<String>>(text).ok()
}

/// Message of the error when the `initial_admins` property is not a list of
/// addresses.
pub const INITIAL_ADMINS_ERROR: &'static str = "could not get initial admins list";

pub open spec fn initial_admins_of(initial_admins_property: Seq<char>) -> Result<Seq<Seq<char>>, Seq<char>> {
    match json_string_list(initial_admins_property) {
        Some(list) => Ok(list),
        None => Err(INITIAL_ADMINS_ERROR@),
    }
}

/// The initial administrators from the list of addresses that the property
/// read to (`None` where it did not read as one).
pub fn initial_admins_from(parsed: Option<Vec<String>>) -> (admins: Result<Vec<String>, String>)
    ensures
        match parsed {
            Some(v) => admins is Ok && admins->Ok_0.deep_view() == v.deep_view(),
            None => admins is Err && admins->Err_0@ == INITIAL_ADMINS_ERROR@,
        },
{
    match parsed {
        Some(admins) => Ok(admins),
        None => Err(owned(INITIAL_ADMINS_ERROR)),
    }
}

/// Reads the initial administrators from the text of the DNA's
/// `initial_admins` property.
pub fn get_initial_admins(initial_admins_property: &str) -> (admins: Result<Vec<String>, String>)
    ensures
        match initial_admins_of(initial_admins_property@) {
            Ok(list) => admins is Ok && admins->Ok_0.deep_view() == list,
            Err(e) => admins is Err && admins->Err_0@ == e,
        },
{
    initial_admins_from(parse_json_string_list(initial_admins_property))
}

pub open spec fn is_initial_admin(agent: Seq<char>, initial_admins_property: Seq<char>) -> Result<bool, Seq<char>> {
    match initial_admins_of(initial_admins_property) {
        Ok(list) => Ok(list.contains(agent)),
        Err(e) => Err(e),
    }
}

/// Whether `agent_address` is among the initial administrators.
pub fn is_agent_initial_admin(agent_address: &String, initial_admins_property: &str) -> (admin: Result<bool, String>)
    ensures
        bool_result_view(admin) == is_initial_admin(agent_address@, initial_admins_property@),
{
    let initial_admins = get_initial_admins(initial_admins_property)?;
    let ghost list = initial_admins.deep_view();
    let mut i: usize = 0;
    while i < initial_admins.len()
        invariant
            i <= initial_admins.len(),
            list == initial_admins.deep_view(),
            initial_admins_of(initial_admins_property@) == Ok::<Seq<Seq<char>>, Seq<char>>(list),
            forall|j: int| 0 <= j < i ==> list[j] != agent_address@,
        decreases initial_admins.len() - i,
    {
        if initial_admins[i] == *agent_address {
            assert(list[i as int] == agent_address@);
            assert(list.contains(agent_address@));
            return Ok(true);
        }
        i = i + 1;
    }
    assert(!list.contains(agent_address@));
    Ok(false)
}

/// Whether the agent whose chain this is, is an administrator: it is when
/// the `initial_admins` property names it, and otherwise when its chain assigns
/// it the administrator role.
pub open spec fn chain_admin_status(chain: Seq<ChainEntryView>, initial_admins_property: Seq<char>, admin_role_address: Result<Seq<char>, Seq<char>>) -> Result<bool, Seq<char>> {
    match chain_agent(chain) {
        Err(e) => Err(e),
        Ok(agent) => match is_initial_admin(agent, initial_admins_property) {
            Err(e) => Err(e),
            Ok(true) => Ok(true),
            Ok(false) => chain_has_role(chain, admin_role_address),
        },
    }
}

/// Whether the agent whose chain this is, is an administrator, given the text
/// of the `initial_admins` property and the address of the administrator
/// role's entry (or the error of computing it).
pub fn is_agent_admin(chain_entries: &Vec<ChainEntry>, initial_admins_property: &str, admin_role_address: &Result<String, String>) -> (admin: Result<bool, String>)
    ensures
        bool_result_view(admin) == chain_admin_status(chain_view(chain_entries@), initial_admins_property@, string_result_view(*admin_role_address)),
{
    let agent_address = get_chain_agent_id(chain_entries)?;
    if is_agent_initial_admin(&agent_address, initial_admins_property)? {
        return Ok(true);
    }
    agent_has_role(admin_role_address, chain_entries)
}

} // verus!
