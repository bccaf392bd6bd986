//! Process inventory and suspend/resume control for a pause button.
//!
//! The library holds the decisions of the tool and none of its windows: which
//! processes of a snapshot are listed and in what order, which of them a
//! filter shows, and what a toggle asks of the operating system and reports
//! back. The caller takes the snapshot, draws the list and performs the
//! operating-system calls.

pub mod control;
pub mod error;
pub mod filter;
pub mod inventory;
pub mod order;
pub mod process;
pub mod selection;
pub mod table;
pub mod text;

pub use control::{
    toggle_outcome, toggle_request, toggle_suspend, ControlRequest, OsReply, Primitive,
};
pub use error::ControlError;
pub use filter::filter;
pub use inventory::build_inventory;
pub use order::sort_by_pid;
pub use process::{Process, ProcessView};
pub use selection::SelectionState;
pub use table::{name_of, parent_label, parent_of, TableEntry, LAUNCHER_NAME, NOT_FOUND};
pub use text::{chars_of, contains_chars, name_matches};
