//! Outcomes of the manager commands and the texts shown to the user.

use crate::directory::Channel;
use vstd::prelude::*;

verus! {

/// What registering a logging channel came to.
pub enum AddOutcome {
    /// The guild already has a logging channel; nothing was changed.
    /// `existing` is that channel, named in the conflict reply.
    AlreadyRegistered { existing: Channel },
    /// No logging channel was registered, so the flag was set on the row
    /// matching the requested channel. `rows_affected` is 0 when the channel
    /// is not in the directory, 1 when it is; the user-facing reply does not
    /// distinguish the two.
    Registered { rows_affected: u64 },
}

/// What deregistering a logging channel came to.
pub enum RemoveOutcome {
    /// The guild's logging channel had its flag cleared.
    Removed { rows_affected: u64 },
    /// The guild had no logging channel to deregister.
    NothingToRemove,
}

impl AddOutcome {
    /// The reply shown to the user for this outcome.
    pub fn user_message(&self) -> (m: &'static str)
        ensures
            m@ == if self is AlreadyRegistered {
                "Logging channel already registered"@
            } else {
                "Set logging channel successfully"@
            },
    {
        match self {
            AddOutcome::AlreadyRegistered { .. } => "Logging channel already registered",
            AddOutcome::Registered { .. } => "Set logging channel successfully",
        }
    }
}

impl RemoveOutcome {
    /// The reply shown to the user for this outcome.
    pub fn user_message(&self) -> (m: &'static str)
        ensures
            m@ == if self is Removed {
                "Logging channel was successfully removed."@
            } else {
                "No logging channel to deregister for this guild!"@
            },
    {
        match self {
            RemoveOutcome::Removed { .. } => "Logging channel was successfully removed.",
            RemoveOutcome::NothingToRemove => "No logging channel to deregister for this guild!",
        }
    }
}

/// The reply shown when the lookup of an existing logging channel fails in
/// the persistence layer.
pub fn check_failed_message() -> (m: &'static str)
    ensures
        m@ == "Error checking existing logging channel"@,
{
    "Error checking existing logging channel"
}

/// The reply shown when the write registering a logging channel fails in
/// the persistence layer.
pub fn set_failed_message() -> (m: &'static str)
    ensures
        m@ == "Unable to set logging channel!"@,
{
    "Unable to set logging channel!"
}

} // verus!
