//! Consent-gated archival of group-chat history, with deterministic
//! anonymized rendering of archived conversations.
//!
//! The crate models the whole system state (`archive::Archive`) in memory:
//! a consent registry, a community directory, a deduplicated message store,
//! and the table of archived conversations.  The two central operations are
//! `Archive::archive`, which captures a window of messages atomically and
//! refuses to persist anything when an author has opted out, and
//! `Archive::render`, which reconstructs an archived conversation as an
//! anonymized, tagged view.

use vstd::prelude::*;

pub mod archive;
pub mod codec;
pub mod colors;
pub mod consent;
pub mod directory;
pub mod render;
pub mod store;

verus! {

/// Per-user consent to having messages archived and published.
///
/// Users start out `Pending` unless they are automated accounts, which are
/// created already `OptedIn`.  Only an explicit `OptedOut` blocks archival.
#[derive(Clone, Copy, Debug, PartialEq, Eq, Structural)]
pub enum ConsentState {
    Pending,
    OptedIn,
    OptedOut,
}

/// The error taxonomy shared by every operation of the crate.
#[derive(Clone, Copy, Debug, PartialEq, Eq, Structural)]
pub enum ArchiveError {
    /// A lookup (user, message, or conversation) missed.
    NotFound,
    /// At least one author in the window opted out; carries the first such
    /// author id in window order.
    ConsentDenied(u64),
    /// The capture window was empty or larger than the supported bound.
    InvalidWindow,
    /// An internally-inconsistent reference was hit; evidence of a defect,
    /// not an expected runtime case.
    StorageFailure,
}

} // verus!
