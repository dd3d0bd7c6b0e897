//! The decisions of the ledger's save protocol: write the snapshot to a
//! temporary file, rename it over the ledger file, and on a failed rename
//! remove the destination and rename once more. The caller performs each
//! step and reports whether it succeeded.

use vstd::prelude::*;

verus! {

/// A step of the save protocol.
#[derive(Clone, Copy, Debug, PartialEq, Eq, Structural)]
pub enum PersistStep {
    /// Create the data directory if it is missing.
    CreateDir,
    /// Serialize the snapshot.
    Encode,
    /// Write the serialized snapshot to the temporary file.
    WriteTemp,
    /// Rename the temporary file over the ledger file.
    Rename,
    /// Remove the ledger file (its result does not matter).
    RemoveDestination,
    /// Rename the temporary file over the ledger file once more.
    RetryRename,
    /// Remove the temporary file (its result does not matter).
    RemoveTemp,
}

/// How a save ended.
#[derive(Clone, Copy, Debug, PartialEq, Eq, Structural)]
pub enum PersistEnd {
    /// The ledger file now holds the snapshot.
    Saved,
    /// The data directory could not be created.
    DirFailed,
    /// The snapshot could not be serialized.
    EncodeFailed,
    /// The temporary file could not be written.
    WriteFailed,
    /// Both renames failed; the temporary file was discarded.
    RenameFailed,
}

/// What the caller does next.
#[derive(Clone, Copy, Debug, PartialEq, Eq, Structural)]
pub enum PersistAction {
    Run(PersistStep),
    Finish(PersistEnd),
}

/// The protocol's table: the action after `done` succeeded (`ok`) or failed.
pub open spec fn next_action(done: PersistStep, ok: bool) -> PersistAction {
    match done {
        PersistStep::CreateDir => if ok {
            PersistAction::Run(PersistStep::Encode)
        } else {
            PersistAction::Finish(PersistEnd::DirFailed)
        },
        PersistStep::Encode => if ok {
            PersistAction::Run(PersistStep::WriteTemp)
        } else {
            PersistAction::Finish(PersistEnd::EncodeFailed)
        },
        PersistStep::WriteTemp => if ok {
            PersistAction::Run(PersistStep::Rename)
        } else {
            PersistAction::Finish(PersistEnd::WriteFailed)
        },
        PersistStep::Rename => if ok {
            PersistAction::Finish(PersistEnd::Saved)
        } else {
            PersistAction::Run(PersistStep::RemoveDestination)
        },
        PersistStep::RemoveDestination => PersistAction::Run(PersistStep::RetryRename),
        PersistStep::RetryRename => if ok {
            PersistAction::Finish(PersistEnd::Saved)
        } else {
            PersistAction::Run(PersistStep::RemoveTemp)
        },
        PersistStep::RemoveTemp => PersistAction::Finish(PersistEnd::RenameFailed),
    }
}

/// Position of a step in the protocol; every transition moves forward.
pub open spec fn step_rank(s: PersistStep) -> int {
    match s {
        PersistStep::CreateDir => 0,
        PersistStep::Encode => 1,
        PersistStep::WriteTemp => 2,
        PersistStep::Rename => 3,
        PersistStep::RemoveDestination => 4,
        PersistStep::RetryRename => 5,
        PersistStep::RemoveTemp => 6,
    }
}

/// The step a save starts with.
pub fn first_step() -> (r: PersistStep)
    ensures
        r == PersistStep::CreateDir,
        step_rank(r) == 0,
{
    PersistStep::CreateDir
}

/// The action after step `done` succeeded (`ok`) or failed. Every step that
/// follows comes later in the protocol, so a save takes at most seven steps
/// and renames at most twice; it is saved only by a successful rename.
pub fn persist_next(done: PersistStep, ok: bool) -> (r: PersistAction)
    ensures
        r == next_action(done, ok),
        r matches PersistAction::Run(s) ==> step_rank(s) > step_rank(done),
        r == PersistAction::Finish(PersistEnd::Saved) ==> ok && (done == PersistStep::Rename
            || done == PersistStep::RetryRename),
        r == PersistAction::Finish(PersistEnd::RenameFailed) ==> done == PersistStep::RemoveTemp,
{
    match done {
        PersistStep::CreateDir => if ok {
            PersistAction::Run(PersistStep::Encode)
        } else {
            PersistAction::Finish(PersistEnd::DirFailed)
        },
        PersistStep::Encode => if ok {
            PersistAction::Run(PersistStep::WriteTemp)
        } else {
            PersistAction::Finish(PersistEnd::EncodeFailed)
        },
        PersistStep::WriteTemp => if ok {
            PersistAction::Run(PersistStep::Rename)
        } else {
            PersistAction::Finish(PersistEnd::WriteFailed)
        },
        PersistStep::Rename => if ok {
            PersistAction::Finish(PersistEnd::Saved)
        } else {
            PersistAction::Run(PersistStep::RemoveDestination)
        },
        PersistStep::RemoveDestination => PersistAction::Run(PersistStep::RetryRename),
        PersistStep::RetryRename => if ok {
            PersistAction::Finish(PersistEnd::Saved)
        } else {
            PersistAction::Run(PersistStep::RemoveTemp)
        },
        PersistStep::RemoveTemp => PersistAction::Finish(PersistEnd::RenameFailed),
    }
}

/// Whether the end of a save is reported to the operator's log: every
/// failure is, except a snapshot that could not be serialized.
pub fn is_logged(end: PersistEnd) -> (r: bool)
    ensures
        r == (end != PersistEnd::Saved && end != PersistEnd::EncodeFailed),
{
    match end {
        PersistEnd::Saved => false,
        PersistEnd::EncodeFailed => false,
        _ => true,
    }
}

} // verus!
