//! The completion slot: a one-shot cell that pairs a request with its
//! eventual response.

use crate::error::BridgeError;
use vstd::prelude::*;

verus! {

/// A write-once, read-once cell for a response body.
///
/// The engine side resolves it once; the connection that waits on it reads
/// the body once, by taking the slot apart.
#[derive(Debug, PartialEq, Eq)]
pub enum CompletionSlot {
    /// No response has been written yet.
    Waiting,
    /// The response body, not yet read.
    Resolved(String),
}

impl CompletionSlot {
    pub open spec fn spec_is_resolved(&self) -> bool {
        *self is Resolved
    }

    /// A slot that waits for its response.
    pub fn new() -> (slot: Self)
        ensures
            slot == CompletionSlot::Waiting,
    {
        CompletionSlot::Waiting
    }

    #[verifier::when_used_as_spec(spec_is_resolved)]
    pub fn is_resolved(&self) -> (b: bool)
        ensures
            b == self.spec_is_resolved(),
    {
        match self {
            CompletionSlot::Waiting => false,
            CompletionSlot::Resolved(_) => true,
        }
    }

    /// Writes `body` into a waiting slot. A slot that already holds a body
    /// keeps it and reports `DoubleCompletion`.
    pub fn resolve(&mut self, body: String) -> (r: Result<(), BridgeError>)
        ensures
            match r {
                Ok(()) => *old(self) == CompletionSlot::Waiting && *final(self)
                    == CompletionSlot::Resolved(body),
                Err(e) => old(self).is_resolved() && e == BridgeError::DoubleCompletion
                    && *final(self) == *old(self),
            },
    {
        match self {
            CompletionSlot::Waiting => {
                *self = CompletionSlot::Resolved(body);
                Ok(())
            },
            CompletionSlot::Resolved(_) => Err(BridgeError::DoubleCompletion),
        }
    }

    /// Reads the slot and destroys it: the body if one was written, `None`
    /// if the slot was still waiting.
    pub fn into_body(self) -> (body: Option<String>)
        ensures
            body == match self {
                CompletionSlot::Waiting => None::<String>,
                CompletionSlot::Resolved(b) => Some(b),
            },
    {
        match self {
            CompletionSlot::Waiting => None,
            CompletionSlot::Resolved(b) => Some(b),
        }
    }
}

} // verus!
