use rws::error::BridgeError;
use rws::slot::CompletionSlot;

#[test]
fn a_slot_is_written_once() {
    let mut slot = CompletionSlot::new();
    assert!(!slot.is_resolved());
    assert_eq!(slot.resolve("first".to_string()), Ok(()));
    assert!(slot.is_resolved());
    assert_eq!(
        slot.resolve("second".to_string()),
        Err(BridgeError::DoubleCompletion)
    );
    assert_eq!(slot, CompletionSlot::Resolved("first".to_string()));
    assert_eq!(slot.into_body(), Some("first".to_string()));
}

#[test]
fn a_waiting_slot_holds_no_body() {
    assert_eq!(CompletionSlot::new().into_body(), None);
}

#[test]
fn conditions_have_wire_names_and_only_two_are_fatal() {
    assert_eq!(BridgeError::UnknownHandle.code(), "unknown_handle");
    assert_eq!(BridgeError::QueueClosed.code(), "queue_closed");
    assert_eq!(BridgeError::DoubleCompletion.code(), "double_completion");
    assert_eq!(BridgeError::EngineBootFailure.code(), "engine_boot_failure");
    assert!(!BridgeError::UnknownHandle.is_fatal());
    assert!(!BridgeError::DoubleCompletion.is_fatal());
    assert!(BridgeError::QueueClosed.is_fatal());
    assert!(BridgeError::EngineBootFailure.is_fatal());
}
