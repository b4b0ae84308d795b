use ireplay::wifi::{
    needs_start, retry_delay, stack_step, StackStage, POLL_INTERVAL_MS, RECONNECT_DELAY_MS,
};

#[test]
fn stack_waits_for_link_then_address() {
    assert_eq!(stack_step(StackStage::AwaitingLink, false, false), (StackStage::AwaitingLink, Some(500)));
    assert_eq!(stack_step(StackStage::AwaitingLink, true, false), (StackStage::AwaitingAddress, None));
    assert_eq!(stack_step(StackStage::AwaitingAddress, true, false), (StackStage::AwaitingAddress, Some(POLL_INTERVAL_MS)));
    assert_eq!(stack_step(StackStage::AwaitingAddress, false, true), (StackStage::Ready, None));
    assert_eq!(stack_step(StackStage::Ready, false, false), (StackStage::Ready, None));
}

#[test]
fn station_is_started_unless_known_started() {
    assert!(!needs_start(Some(true)));
    assert!(needs_start(Some(false)));
    assert!(needs_start(None));
}

#[test]
fn failed_connection_waits_before_retrying() {
    assert_eq!(retry_delay(true), None);
    assert_eq!(retry_delay(false), Some(RECONNECT_DELAY_MS));
    assert_eq!(RECONNECT_DELAY_MS, 5000);
}
