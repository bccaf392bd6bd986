//! Suspending and resuming one process.
//!
//! A toggle is one call to the operating system and two decisions: which
//! call to make, and what its answer means for the paused flag. The
//! decisions are here. The call itself is the caller's: it opens the
//! process, applies the primitive, releases the handle and reports what
//! happened. Nothing reads the process's state back, so the paused flag
//! that the caller keeps is the only record of it.

use crate::error::ControlError;
use vstd::prelude::*;

verus! {

/// The two calls that change whether a process is scheduled.
#[derive(Clone, Copy, Debug, PartialEq, Eq, Structural)]
pub enum Primitive {
    /// Stop scheduling the process.
    Suspend,
    /// Schedule the process again.
    Resume,
}

/// What a toggle asks of the operating system: open the process `pid` with
/// the right to suspend and resume, apply `primitive` to it, and release the
/// handle. Only that process is touched, never its children.
#[derive(Clone, Copy, Debug, PartialEq, Eq, Structural)]
pub struct ControlRequest {
    pub pid: u32,
    pub primitive: Primitive,
}

/// What the operating system answered to a [`ControlRequest`].
#[derive(Clone, Copy, Debug, PartialEq, Eq, Structural)]
pub enum OsReply {
    /// No handle could be opened for the process.
    NoHandle,
    /// A handle was opened, and the primitive returned this status.
    Status(i32),
}

/// A status reports success when it is not negative.
pub open spec fn is_success(status: i32) -> bool {
    status >= 0
}

/// The request that a toggle makes: a running process is suspended, a
/// paused one resumed.
pub open spec fn request_for(pid: u32, currently_paused: bool) -> ControlRequest {
    ControlRequest {
        pid,
        primitive: if currently_paused {
            Primitive::Resume
        } else {
            Primitive::Suspend
        },
    }
}

/// What a toggle reports after the operating system's answer: the new
/// paused flag, the opposite of the old one, where the primitive succeeded,
/// and otherwise which step failed.
pub open spec fn outcome_of(currently_paused: bool, reply: OsReply) -> Result<bool, ControlError> {
    match reply {
        OsReply::NoHandle => Err(ControlError::HandleAcquisitionFailure),
        OsReply::Status(status) => if is_success(status) {
            Ok(!currently_paused)
        } else {
            Err(ControlError::PrimitiveFailure)
        },
    }
}

/// The paused flag to keep after a toggle: the reported one after a
/// success, the old one after a failure.
pub open spec fn flag_after(currently_paused: bool, outcome: Result<bool, ControlError>) -> bool {
    match outcome {
        Ok(now_paused) => now_paused,
        Err(_) => currently_paused,
    }
}

/// Decides which request a toggle of the process `pid` makes.
pub fn toggle_request(pid: u32, currently_paused: bool) -> (request: ControlRequest)
    ensures
        request == request_for(pid, currently_paused),
{
    let primitive = if currently_paused {
        Primitive::Resume
    } else {
        Primitive::Suspend
    };
    ControlRequest { pid, primitive }
}

/// Decides what a toggle reports, given the operating system's answer.
pub fn toggle_outcome(currently_paused: bool, reply: OsReply) -> (outcome: Result<
    bool,
    ControlError,
>)
    ensures
        outcome == outcome_of(currently_paused, reply),
{
    match reply {
        OsReply::NoHandle => Err(ControlError::HandleAcquisitionFailure),
        OsReply::Status(status) => if status >= 0 {
            Ok(!currently_paused)
        } else {
            Err(ControlError::PrimitiveFailure)
        },
    }
}

/// Toggles the process `pid`: hands `perform` the request that the paused
/// flag calls for, once, and reports what its answer means. `perform` stands
/// for the operating system.
pub fn toggle_suspend<F: FnOnce(ControlRequest) -> OsReply>(
    pid: u32,
    currently_paused: bool,
    perform: F,
) -> (outcome: Result<bool, ControlError>)
    requires
        perform.requires((request_for(pid, currently_paused),)),
    ensures
        exists|reply: OsReply| #[trigger]
            perform.ensures((request_for(pid, currently_paused),), reply) && outcome
                == outcome_of(currently_paused, reply),
{
    let request = toggle_request(pid, currently_paused);
    let reply = perform(request);
    toggle_outcome(currently_paused, reply)
}

/// Two toggles in a row that both succeed bring the paused flag back to
/// where it was.
pub proof fn lemma_two_toggles_restore(currently_paused: bool, first: OsReply, second: OsReply)
    requires
        outcome_of(currently_paused, first) is Ok,
        outcome_of(outcome_of(currently_paused, first)->Ok_0, second) is Ok,
    ensures
        outcome_of(outcome_of(currently_paused, first)->Ok_0, second) == Ok::<bool, ControlError>(
            currently_paused,
        ),
{
}

/// A toggle that succeeds flips the paused flag and one that fails leaves
/// it: the flag changes exactly when the primitive was applied.
pub proof fn lemma_flag_follows_primitive(currently_paused: bool, reply: OsReply)
    ensures
        flag_after(currently_paused, outcome_of(currently_paused, reply)) == (if reply matches OsReply::Status(
            status,
        ) && is_success(status) {
            !currently_paused
        } else {
            currently_paused
        }),
{
}

} // verus!
