//! The conditions the bridge reports to its callers.

use vstd::prelude::*;

verus! {

/// What can go wrong at the bridge.
///
/// `UnknownHandle` and `DoubleCompletion` are reported to the engine, which
/// may carry on with a fresh poll. `QueueClosed` and `EngineBootFailure` end
/// the worker's script routing.
#[derive(Clone, Copy, Debug, PartialEq, Eq, Structural)]
pub enum BridgeError {
    /// The handle names nothing in the table: it was never issued, it was
    /// already consumed, or it names a resource of another kind.
    UnknownHandle,
    /// The dispatch queue is closed.
    QueueClosed,
    /// A completion slot was resolved a second time.
    DoubleCompletion,
    /// The worker's engine did not start.
    EngineBootFailure,
}

impl BridgeError {
    /// The name of the condition as it is written on the wire.
    pub open spec fn spec_code(&self) -> Seq<char> {
        match self {
            BridgeError::UnknownHandle => "unknown_handle"@,
            BridgeError::QueueClosed => "queue_closed"@,
            BridgeError::DoubleCompletion => "double_completion"@,
            BridgeError::EngineBootFailure => "engine_boot_failure"@,
        }
    }

    /// Whether the worker has to stop routing requests to its engine.
    pub open spec fn spec_is_fatal(&self) -> bool {
        *self == BridgeError::QueueClosed || *self == BridgeError::EngineBootFailure
    }

    pub fn code(&self) -> (s: &'static str)
        ensures
            s@ == self.spec_code(),
    {
        match self {
            BridgeError::UnknownHandle => "unknown_handle",
            BridgeError::QueueClosed => "queue_closed",
            BridgeError::DoubleCompletion => "double_completion",
            BridgeError::EngineBootFailure => "engine_boot_failure",
        }
    }

    #[verifier::when_used_as_spec(spec_is_fatal)]
    pub fn is_fatal(&self) -> (f: bool)
        ensures
            f == self.spec_is_fatal(),
    {
        match self {
            BridgeError::UnknownHandle => false,
            BridgeError::QueueClosed => true,
            BridgeError::DoubleCompletion => false,
            BridgeError::EngineBootFailure => true,
        }
    }
}

} // verus!
