//! What the user is doing: choosing a process, or holding one.

use crate::control::{
    flag_after, outcome_of, request_for, toggle_outcome, toggle_request, ControlRequest, OsReply,
};
use crate::error::ControlError;
use crate::filter::{filter, shown};
use crate::process::{views, Process, ProcessView};
use vstd::prelude::*;

verus! {

/// The two phases of a session. Nothing of it outlives the session.
#[derive(Debug)]
pub enum SelectionState {
    /// No process is chosen yet: the inventory is listed under a filter.
    ProcessSelect {
        /// The inventory, as it was taken at startup.
        processes: Vec<Process>,
        /// The filter text.
        search_string: String,
        /// Whether processes with a parent are left out of the list.
        hide_childs: bool,
    },
    /// A process is chosen.
    Main {
        /// The chosen process.
        process: Process,
        /// Whether the process is held to be suspended. Nothing else says
        /// so: the operating system is not asked.
        paused: bool,
    },
}

impl SelectionState {
    /// The state at startup: the whole inventory is listed.
    pub fn new(processes: Vec<Process>) -> (state: Self)
        ensures
            state matches SelectionState::ProcessSelect {
                processes: listed,
                search_string,
                hide_childs,
            } && listed == processes && search_string@.len() == 0 && !hide_childs,
    {
        SelectionState::ProcessSelect {
            processes,
            search_string: String::new(),
            hide_childs: false,
        }
    }

    /// The records that the list shows in this state: none once a process
    /// is chosen.
    pub open spec fn listing(self) -> Seq<ProcessView> {
        match self {
            SelectionState::ProcessSelect { processes, search_string, hide_childs } => shown(
                views(processes@),
                search_string@,
                hide_childs,
            ),
            SelectionState::Main { .. } => Seq::empty(),
        }
    }

    /// The request that a toggle makes in this state: none while no process
    /// is chosen.
    pub open spec fn request(self) -> Option<ControlRequest> {
        match self {
            SelectionState::ProcessSelect { .. } => None,
            SelectionState::Main { process, paused } => Some(request_for(process.pid, paused)),
        }
    }

    /// The state after the user asked to hide or show the processes with a
    /// parent.
    pub open spec fn after_flip(self) -> Self {
        match self {
            SelectionState::ProcessSelect {
                processes,
                search_string,
                hide_childs,
            } => SelectionState::ProcessSelect {
                processes,
                search_string,
                hide_childs: !hide_childs,
            },
            SelectionState::Main { .. } => self,
        }
    }

    /// The state after the process `chosen` was picked from the list.
    pub open spec fn after_choice(self, chosen: Process) -> Self {
        match self {
            SelectionState::ProcessSelect { .. } => SelectionState::Main {
                process: chosen,
                paused: false,
            },
            SelectionState::Main { .. } => self,
        }
    }

    /// The state after the operating system answered a toggle.
    pub open spec fn after_reply(self, reply: OsReply) -> Self {
        match self {
            SelectionState::ProcessSelect { .. } => self,
            SelectionState::Main { process, paused } => SelectionState::Main {
                process,
                paused: flag_after(paused, outcome_of(paused, reply)),
            },
        }
    }

    /// Returns the records to list.
    pub fn visible(&self) -> (records: Vec<Process>)
        ensures
            views(records@) == self.listing(),
    {
        match self {
            SelectionState::ProcessSelect { processes, search_string, hide_childs } => filter(
                processes,
                search_string.as_str(),
                *hide_childs,
            ),
            SelectionState::Main { .. } => Vec::new(),
        }
    }

    /// Shows the processes with a parent if they were hidden, and hides
    /// them if they were shown. Does nothing once a process is chosen.
    pub fn toggle_hide_childs(&mut self)
        ensures
            *final(self) == old(self).after_flip(),
    {
        match self {
            SelectionState::ProcessSelect { hide_childs, .. } => {
                *hide_childs = !*hide_childs;
            },
            SelectionState::Main { .. } => {},
        }
    }

    /// Takes `chosen` as the process to hold, not paused. Returns whether
    /// the state changed: once a process is chosen, the choice stays.
    pub fn select(&mut self, chosen: Process) -> (changed: bool)
        ensures
            *final(self) == old(self).after_choice(chosen),
            changed == (*old(self) is ProcessSelect),
    {
        match self {
            SelectionState::ProcessSelect { .. } => {
                *self = SelectionState::Main { process: chosen, paused: false };
                true
            },
            SelectionState::Main { .. } => false,
        }
    }

    /// Returns the request to make when the user asks for a toggle.
    pub fn pending_request(&self) -> (request: Option<ControlRequest>)
        ensures
            request == self.request(),
    {
        match self {
            SelectionState::ProcessSelect { .. } => None,
            SelectionState::Main { process, paused } => Some(toggle_request(process.pid, *paused)),
        }
    }

    /// Takes in the operating system's answer to the pending request. The
    /// paused flag follows a success and stays after a failure. Returns
    /// what the toggle reports, or `None` while no process is chosen.
    pub fn settle(&mut self, reply: OsReply) -> (report: Option<Result<bool, ControlError>>)
        ensures
            *final(self) == old(self).after_reply(reply),
            report == match *old(self) {
                SelectionState::ProcessSelect { .. } => None,
                SelectionState::Main { paused, .. } => Some(outcome_of(paused, reply)),
            },
    {
        match self {
            SelectionState::ProcessSelect { .. } => None,
            SelectionState::Main { paused, .. } => {
                let outcome = toggle_outcome(*paused, reply);
                if let Ok(now_paused) = outcome {
                    *paused = now_paused;
                }
                Some(outcome)
            },
        }
    }
}

} // verus!
