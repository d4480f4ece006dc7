//! The scheduler's side of a feed: what one tick of a poll does.

use vstd::prelude::*;
use crate::fetch::FetchError;

pub mod informative_reports;
pub mod programs;
pub mod reports;
pub mod reputation;

verus! {

/// Why a tick failed. A failed tick changes nothing in the store; the next
/// tick tries again.
#[derive(Debug, Clone, Copy, PartialEq, Eq, Structural)]
pub enum TickError {
    /// The current list could not be fetched.
    Fetch(FetchError),
    /// The fetched list is empty although the previous snapshot is not: taken
    /// for a passing fault of the upstream.
    EmptySnapshotGuard,
    /// Two entries of the fetched list are the same participant.
    DuplicateIdentity,
    /// The store did not take or give what it was asked for.
    Persistence,
    /// An entry of the stored snapshot could not be read back.
    MalformedSnapshot,
    /// Something was reported that the tick was not waiting for.
    UnexpectedEvent,
}

} // verus!
