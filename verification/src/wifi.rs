//! Decisions of the Wi-Fi bring-up: waiting for the network stack to get a
//! link and an address, and keeping the station connection alive.
use vstd::prelude::*;

verus! {

/// Pause between two polls of the network stack, in milliseconds.
pub const POLL_INTERVAL_MS: u64 = 500;

/// Pause after losing the connection or failing to connect, in milliseconds.
pub const RECONNECT_DELAY_MS: u64 = 5000;

/// How far the network stack has come up.
#[derive(Clone, Copy, Debug, PartialEq, Eq, Structural)]
pub enum StackStage {
    /// The link is not up yet.
    AwaitingLink,
    /// The link is up; no IPv4 address has been configured yet.
    AwaitingAddress,
    /// The link is up and an IPv4 address is configured.
    Ready,
}

/// One step of bringing the stack up, given whether the link is up and
/// whether an IPv4 address is configured: the next stage, and the pause
/// before the next poll (none when the stage moved on at once).
pub open spec fn stack_transition(stage: StackStage, link_up: bool, has_address: bool) -> (
    StackStage,
    Option<u64>,
) {
    match stage {
        StackStage::AwaitingLink => if link_up {
            (StackStage::AwaitingAddress, None)
        } else {
            (StackStage::AwaitingLink, Some(POLL_INTERVAL_MS))
        },
        StackStage::AwaitingAddress => if has_address {
            (StackStage::Ready, None)
        } else {
            (StackStage::AwaitingAddress, Some(POLL_INTERVAL_MS))
        },
        StackStage::Ready => (StackStage::Ready, None),
    }
}

/// One step of bringing the stack up: first wait for the link, then for an
/// IPv4 address, polling every `POLL_INTERVAL_MS` milliseconds.
pub fn stack_step(stage: StackStage, link_up: bool, has_address: bool) -> (r: (
    StackStage,
    Option<u64>,
))
    ensures
        r == stack_transition(stage, link_up, has_address),
{
    match stage {
        StackStage::AwaitingLink => if link_up {
            (StackStage::AwaitingAddress, None)
        } else {
            (StackStage::AwaitingLink, Some(POLL_INTERVAL_MS))
        },
        StackStage::AwaitingAddress => if has_address {
            (StackStage::Ready, None)
        } else {
            (StackStage::AwaitingAddress, Some(POLL_INTERVAL_MS))
        },
        StackStage::Ready => (StackStage::Ready, None),
    }
}

/// The stack becomes ready only from waiting for an address, once one is
/// configured; no step goes back to an earlier stage.
pub proof fn lemma_stack_stage_only_advances(stage: StackStage, link_up: bool, has_address: bool)
    ensures
        stack_transition(stage, link_up, has_address).0 == StackStage::Ready ==> (stage
            == StackStage::Ready || (stage == StackStage::AwaitingAddress && has_address)),
        stage == StackStage::AwaitingAddress ==> stack_transition(stage, link_up, has_address).0
            != StackStage::AwaitingLink,
        stage == StackStage::Ready ==> stack_transition(stage, link_up, has_address).0
            == StackStage::Ready,
{
}

/// Whether the connection supervisor must configure the station with the
/// network credentials and start it, given what asking whether the
/// controller is started gave (`None` where asking failed): unless it is
/// known to be started.
pub fn needs_start(started: Option<bool>) -> (start: bool)
    ensures
        start == (started != Some(true)),
{
    match started {
        Some(true) => false,
        _ => true,
    }
}

/// The pause after an attempt to connect: none after success, else
/// `RECONNECT_DELAY_MS` milliseconds before the next round.
pub fn retry_delay(connected: bool) -> (delay: Option<u64>)
    ensures
        delay == (if connected {
            None
        } else {
            Some(RECONNECT_DELAY_MS)
        }),
{
    if connected {
        None
    } else {
        Some(RECONNECT_DELAY_MS)
    }
}

/// The bring-up waits for the link, then for an address, and the address
/// wait no longer looks at the link: while awaiting the link it moves on at
/// once when the link is up (whatever the address) and otherwise polls
/// again after `POLL_INTERVAL_MS`; while awaiting an address it is ready at
/// once when one is configured (whatever the link) and otherwise polls
/// again after `POLL_INTERVAL_MS`; once ready it stays ready with no pause.
pub proof fn lemma_stack_bring_up(link_up: bool, has_address: bool)
    ensures
        stack_transition(StackStage::AwaitingLink, true, has_address) == (
            StackStage::AwaitingAddress,
            None::<u64>,
        ),
        stack_transition(StackStage::AwaitingLink, false, has_address) == (
            StackStage::AwaitingLink,
            Some(500u64),
        ),
        stack_transition(StackStage::AwaitingAddress, link_up, true) == (
            StackStage::Ready,
            None::<u64>,
        ),
        stack_transition(StackStage::AwaitingAddress, link_up, false) == (
            StackStage::AwaitingAddress,
            Some(500u64),
        ),
        stack_transition(StackStage::Ready, link_up, has_address) == (
            StackStage::Ready,
            None::<u64>,
        ),
{
}

} // verus!
