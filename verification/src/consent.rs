//! Consent registry: one tri-state consent value per user id.

use vstd::prelude::*;

use std::collections::HashMap;

use crate::ArchiveError;
use crate::ConsentState;

verus! {

/// The consent a freshly registered account receives.
pub open spec fn initial_consent(is_automated: bool) -> ConsentState {
    if is_automated {
        ConsentState::OptedIn
    } else {
        ConsentState::Pending
    }
}

/// Model of one `register` call: insert-or-ignore on the consent table.
pub open spec fn register_map(
    m: Map<u64, ConsentState>,
    user_id: u64,
    is_automated: bool,
) -> Map<u64, ConsentState> {
    if m.contains_key(user_id) {
        m
    } else {
        m.insert(user_id, initial_consent(is_automated))
    }
}

/// Tracks one consent value per user id.  Users are never deleted.
pub struct ConsentRegistry {
    table: HashMap<u64, ConsentState>,
}

impl View for ConsentRegistry {
    type V = Map<u64, ConsentState>;

    closed spec fn view(&self) -> Map<u64, ConsentState> {
        self.table@
    }
}

impl ConsentRegistry {
    /// An empty registry.
    pub fn new() -> (r: Self)
        ensures
            r@ == Map::<u64, ConsentState>::empty(),
    {
        ConsentRegistry { table: HashMap::new() }
    }

    /// Idempotent upsert.  Automated accounts are created already opted in,
    /// everyone else defaults to pending.  Returns whether this call created
    /// a new record (the caller's cue to send an out-of-band consent prompt).
    pub fn register(&mut self, user_id: u64, is_automated: bool) -> (created: bool)
        ensures
            final(self)@ == register_map(old(self)@, user_id, is_automated),
            created == !old(self)@.contains_key(user_id),
    {
        if self.table.contains_key(&user_id) {
            false
        } else {
            let state = if is_automated {
                ConsentState::OptedIn
            } else {
                ConsentState::Pending
            };
            self.table.insert(user_id, state);
            true
        }
    }

    /// Current consent of a user; fails for a user never registered.
    pub fn get(&self, user_id: u64) -> (r: Result<ConsentState, ArchiveError>)
        ensures
            self@.contains_key(user_id) ==> r == Ok::<ConsentState, ArchiveError>(
                self@[user_id],
            ),
            !self@.contains_key(user_id) ==> r == Err::<ConsentState, ArchiveError>(
                ArchiveError::NotFound,
            ),
    {
        match self.table.get(&user_id) {
            Some(state) => Ok(*state),
            None => Err(ArchiveError::NotFound),
        }
    }

    /// Externally-driven consent update (a user answering the prompt).
    /// Setting consent on an unregistered user is an error.
    pub fn set_consent(&mut self, user_id: u64, state: ConsentState) -> (r: Result<
        (),
        ArchiveError,
    >)
        ensures
            old(self)@.contains_key(user_id) ==> r == Ok::<(), ArchiveError>(())
                && final(self)@ == old(self)@.insert(user_id, state),
            !old(self)@.contains_key(user_id) ==> r == Err::<(), ArchiveError>(
                ArchiveError::NotFound,
            ) && final(self)@ == old(self)@,
    {
        if self.table.contains_key(&user_id) {
            self.table.insert(user_id, state);
            Ok(())
        } else {
            Err(ArchiveError::NotFound)
        }
    }
}

/// Law: registration is idempotent.  Registering a user a second time, with
/// any automation flag, leaves the table exactly as the first registration
/// left it; in particular it never changes an existing consent state.
pub proof fn lemma_register_idempotent(
    m: Map<u64, ConsentState>,
    user_id: u64,
    first_automated: bool,
    second_automated: bool,
)
    ensures
        register_map(register_map(m, user_id, first_automated), user_id, second_automated)
            == register_map(m, user_id, first_automated),
        m.contains_key(user_id) ==> register_map(m, user_id, first_automated) == m,
        register_map(m, user_id, first_automated).contains_key(user_id),
{
}

} // verus!
