//! Addresses of agent sessions, and the directory that finds the live ones.

use crate::inbound::tmux::{
    is_pane_alive, is_semver_like, list_panes_command, pane_command_query, relay_keys,
    relay_to_tmux_pane, scan_live_panes, scan_spec,
};
use crate::text::trim;
use crate::util::{str_eq, Invocation};
use vstd::prelude::*;

verus! {

/// How to reach an agent session. The identifier stays the same for as long
/// as the session lives; the label is for people and may change.
#[derive(Debug)]
pub enum AgentAddress {
    TmuxPane { pane_id: String, label: String },
}

/// An address as plain text.
pub struct AddressView {
    pub pane_id: Seq<char>,
    pub label: Seq<char>,
}

impl View for AgentAddress {
    type V = AddressView;

    open spec fn view(&self) -> AddressView {
        match self {
            AgentAddress::TmuxPane { pane_id, label } => AddressView {
                pane_id: pane_id@,
                label: label@,
            },
        }
    }
}

/// The plain-text form of each address of a list.
pub open spec fn addresses(v: Seq<AgentAddress>) -> Seq<AddressView> {
    Seq::new(v.len(), |i: int| v[i]@)
}

/// Two addresses reach the same session when their identifiers agree; labels
/// do not count.
pub open spec fn same_target_spec(a: AddressView, b: AddressView) -> bool {
    a.pane_id == b.pane_id
}

impl Clone for AgentAddress {
    fn clone(&self) -> (r: Self)
        ensures
            r@ == self@,
    {
        match self {
            AgentAddress::TmuxPane { pane_id, label } => AgentAddress::TmuxPane {
                pane_id: pane_id.clone(),
                label: label.clone(),
            },
        }
    }
}

impl AgentAddress {
    /// The name under which the session is shown to people.
    pub fn label(&self) -> (r: &str)
        ensures
            r@ == self@.label,
    {
        match self {
            AgentAddress::TmuxPane { label, .. } => label.as_str(),
        }
    }

    /// The identifier of the pane that the session runs in.
    pub fn pane_id(&self) -> (r: &str)
        ensures
            r@ == self@.pane_id,
    {
        match self {
            AgentAddress::TmuxPane { pane_id, .. } => pane_id.as_str(),
        }
    }

    /// Whether both addresses reach the same session.
    pub fn same_target(&self, other: &AgentAddress) -> (r: bool)
        ensures
            r == same_target_spec(self@, other@),
    {
        str_eq(self.pane_id(), other.pane_id())
    }

    /// The commands that hand `text` to this session: its characters, free of
    /// escape sequences and control codes, typed into the pane, and then the
    /// Enter key.
    pub fn relay(&self, text: &str) -> (r: Vec<Invocation>)
        ensures
            r@.map_values(|c: Invocation| c@) == relay_keys(self@.pane_id, text@),
    {
        relay_to_tmux_pane(self.pane_id(), text)
    }
}

/// One pane of a listing: its identifier and its label.
#[derive(Debug)]
pub struct PaneInfo {
    pub pane_id: String,
    pub label: String,
}

impl PaneInfo {
    /// The address of the session that runs in this pane.
    pub fn into_address(self) -> (r: AgentAddress)
        ensures
            r@ == (AddressView { pane_id: self.pane_id@, label: self.label@ }),
    {
        AgentAddress::TmuxPane { pane_id: self.pane_id, label: self.label }
    }
}

/// A way to find out which agent sessions are live.
#[derive(Debug)]
pub enum AgentDirectory {
    /// Every pane is listed with the process that runs in it. A pane is an
    /// agent session while that process is named like a runtime version.
    TmuxProcessScan,
}

impl AgentDirectory {
    /// The command whose output `discover` reads.
    pub fn discover_command(&self) -> (c: Invocation)
        ensures
            c@ == crate::inbound::tmux::list_panes_spec(),
    {
        match self {
            AgentDirectory::TmuxProcessScan => list_panes_command(),
        }
    }

    /// The live sessions that a listing reports, in the order of its lines.
    pub fn discover(&self, listing: &str) -> (r: Vec<AgentAddress>)
        ensures
            addresses(r@) == scan_spec(listing@),
    {
        match self {
            AgentDirectory::TmuxProcessScan => scan_live_panes(listing),
        }
    }

    /// The command whose output `is_alive` reads for `addr`.
    pub fn probe_command(&self, addr: &AgentAddress) -> (c: Invocation)
        ensures
            c@ == crate::inbound::tmux::pane_command_spec(addr@.pane_id),
    {
        match self {
            AgentDirectory::TmuxProcessScan => pane_command_query(addr.pane_id()),
        }
    }

    /// Whether the session at `addr` is still live, given what its pane
    /// reported as its current process; `None` where the pane gave no answer.
    pub fn is_alive(&self, addr: &AgentAddress, current_command: Option<&str>) -> (r: bool)
        ensures
            r == match current_command {
                Some(out) => is_semver_like(trim(out@)),
                None => false,
            },
    {
        match self {
            AgentDirectory::TmuxProcessScan => is_pane_alive(current_command),
        }
    }
}

} // verus!
