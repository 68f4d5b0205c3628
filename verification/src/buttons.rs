//! Button events.
//!
//! Control scheme: the left button cycles through the options, the right
//! button selects the option.
use vstd::prelude::*;

verus! {

#[derive(Clone, Copy, PartialEq, Eq, Structural, Debug)]
pub enum Button {
    Left,
    Right,
}

#[derive(Clone, Copy, PartialEq, Eq, Structural, Debug)]
pub enum EventType {
    /// The button was released; holds the time since the previous release of
    /// the same button, in timer ticks.
    Released(u64),
    Pressed,
}

#[derive(Clone, Copy, PartialEq, Eq, Structural, Debug)]
pub struct Event {
    pub event_type: EventType,
    pub button: Button,
}

impl Event {
    pub fn new(button: Button, event_type: EventType) -> (res: Self)
        ensures
            res.button == button,
            res.event_type == event_type,
    {
        Self { event_type, button }
    }
}

/// Whether a wait for a released button stops at `event`; other events are
/// discarded.
pub fn accepts_released(event: &Event) -> (res: bool)
    ensures
        res == (event.event_type is Released),
{
    matches!(event.event_type, EventType::Released(_))
}

/// Whether a wait for a pressed button stops at `event`; other events are
/// discarded.
pub fn accepts_pressed(event: &Event) -> (res: bool)
    ensures
        res == (event.event_type is Pressed),
{
    matches!(event.event_type, EventType::Pressed)
}

/// Where the debouncing of one button stands.
#[derive(Clone, Copy, PartialEq, Eq, Structural, Debug)]
pub enum DebounceState {
    /// Waiting for the line to rise (the button being released).
    WaitingRise,
    /// The line rose; waiting for it to stay still for the debounce time.
    Settling,
}

/// What the debouncing of one button sees happen.
#[derive(Clone, Copy, PartialEq, Eq, Structural, Debug)]
pub enum DebounceEvent {
    RisingEdge,
    /// Any edge, rising or falling.
    AnyEdge,
    /// The debounce time has passed.
    TimerExpired,
}

/// What the debouncing of one button does next.
#[derive(Clone, Copy, PartialEq, Eq, Structural, Debug)]
pub enum DebounceAction {
    /// Start the debounce timer and watch for any edge.
    ArmTimer,
    /// Wait for a rising edge.
    Wait,
    /// The button was released.
    Released,
}

/// The next state and action of the debouncing of one button.
pub open spec fn debounce(state: DebounceState, event: DebounceEvent) -> (DebounceState, DebounceAction) {
    match (state, event) {
        (DebounceState::WaitingRise, DebounceEvent::RisingEdge) => (DebounceState::Settling, DebounceAction::ArmTimer),
        (DebounceState::WaitingRise, _) => (DebounceState::WaitingRise, DebounceAction::Wait),
        (DebounceState::Settling, DebounceEvent::TimerExpired) => (DebounceState::WaitingRise, DebounceAction::Released),
        (DebounceState::Settling, _) => (DebounceState::WaitingRise, DebounceAction::Wait),
    }
}

/// One step of the debouncing of a button: a rising edge arms the timer; if
/// the line stays still until the timer expires, the button was released;
/// any edge before that (the line bounced) starts over from waiting for a
/// rising edge.
pub fn debounce_step(state: DebounceState, event: DebounceEvent) -> (res: (DebounceState, DebounceAction))
    ensures
        res == debounce(state, event),
        state == DebounceState::WaitingRise && event == DebounceEvent::RisingEdge ==> res == (
            DebounceState::Settling,
            DebounceAction::ArmTimer,
        ),
        state == DebounceState::Settling && event != DebounceEvent::TimerExpired ==> res == (
            DebounceState::WaitingRise,
            DebounceAction::Wait,
        ),
        res.1 == DebounceAction::Released <==> (state == DebounceState::Settling && event
            == DebounceEvent::TimerExpired),
{
    match state {
        DebounceState::WaitingRise => match event {
            DebounceEvent::RisingEdge => (DebounceState::Settling, DebounceAction::ArmTimer),
            _ => (DebounceState::WaitingRise, DebounceAction::Wait),
        },
        DebounceState::Settling => match event {
            DebounceEvent::TimerExpired => (DebounceState::WaitingRise, DebounceAction::Released),
            _ => (DebounceState::WaitingRise, DebounceAction::Wait),
        },
    }
}

/// The state of the debouncing after `events`, from waiting for a rise.
pub open spec fn debounce_state_after(events: Seq<DebounceEvent>) -> DebounceState
    decreases events.len(),
{
    if events.len() == 0 {
        DebounceState::WaitingRise
    } else {
        debounce(debounce_state_after(events.drop_last()), events.last()).0
    }
}

/// The debouncing is settling exactly when the last event was a rising edge
/// seen while waiting for one.
pub proof fn lemma_settling_after_rise(events: Seq<DebounceEvent>)
    ensures
        debounce_state_after(events) == DebounceState::Settling <==> (events.len() > 0 && events.last()
            == DebounceEvent::RisingEdge && debounce_state_after(events.drop_last())
            == DebounceState::WaitingRise),
{
}

/// A release is reported only when the debounce time expires right after a
/// rising edge, with no edge in between.
pub proof fn lemma_release_follows_rise(events: Seq<DebounceEvent>, k: int)
    requires
        0 <= k < events.len(),
        debounce(debounce_state_after(events.take(k)), events[k]).1 == DebounceAction::Released,
    ensures
        events[k] == DebounceEvent::TimerExpired,
        k >= 1,
        events[k - 1] == DebounceEvent::RisingEdge,
{
    lemma_settling_after_rise(events.take(k));
    if k >= 1 {
        assert(events.take(k).last() == events[k - 1]);
    }
}

} // verus!
