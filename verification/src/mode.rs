//! Which mode the program starts in, decided from the requested command
//! and whether any source is configured.

use vstd::prelude::*;

verus! {

/// The command given on the command line.
#[derive(Debug, Clone, Copy, PartialEq, Eq, Structural)]
pub enum RequestedCommand {
    /// No command: the interactive dashboard.
    Default,
    Snapshot,
    Sources,
}

#[derive(Debug, Clone, Copy, PartialEq, Eq, Structural)]
pub enum Mode {
    /// Nothing is configured yet: open the Sources screen with a prompt
    /// to add a source.
    FirstRunSources,
    Dashboard,
    Sources,
    SnapshotHeadless,
    /// A headless snapshot was asked for with nothing configured: there
    /// is nothing to do (no prompt can be answered headless).
    NothingToSnapshot,
}

pub open spec fn mode_for(sources_is_empty: bool, requested: RequestedCommand) -> Mode {
    match requested {
        RequestedCommand::Sources => Mode::Sources,
        RequestedCommand::Snapshot => if sources_is_empty {
            Mode::NothingToSnapshot
        } else {
            Mode::SnapshotHeadless
        },
        RequestedCommand::Default => if sources_is_empty {
            Mode::FirstRunSources
        } else {
            Mode::Dashboard
        },
    }
}

/// The mode for the requested command, given whether any source is
/// configured.
pub fn determine_mode(sources_is_empty: bool, requested: RequestedCommand) -> (r: Mode)
    ensures
        r == mode_for(sources_is_empty, requested),
{
    match (requested, sources_is_empty) {
        (RequestedCommand::Sources, _) => Mode::Sources,
        (RequestedCommand::Snapshot, true) => Mode::NothingToSnapshot,
        (RequestedCommand::Snapshot, false) => Mode::SnapshotHeadless,
        (RequestedCommand::Default, true) => Mode::FirstRunSources,
        (RequestedCommand::Default, false) => Mode::Dashboard,
    }
}

/// With no source configured, nothing ever fetches: neither the
/// dashboard nor a headless snapshot is entered.
pub proof fn lemma_no_fetch_without_sources(requested: RequestedCommand)
    ensures
        mode_for(true, requested) != Mode::Dashboard,
        mode_for(true, requested) != Mode::SnapshotHeadless,
{
}

} // verus!
