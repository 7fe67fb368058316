//! The decisions of the render/update loop.
//!
//! The loop itself needs the terminal, the widget tree and the queue of
//! incoming items, none of which live here. What lives here is what the loop
//! decides: given where it stands and what just happened, where it goes next
//! and what has to be done.

use crate::input::Event;
use vstd::prelude::*;

verus! {

/// One item of the queue that feeds the loop: a message for the application,
/// a batch of events for the widgets, both, or neither.
#[derive(Debug)]
pub struct UiMessage<M> {
    pub app_message: Option<M>,
    pub events: Vec<Event>,
}

impl<M> UiMessage<M> {
    /// An item that carries events for the widgets.
    pub fn from_events(events: Vec<Event>) -> (item: UiMessage<M>)
        ensures
            item.app_message is None,
            item.events == events,
    {
        UiMessage { app_message: None, events }
    }

    /// An item that carries a message for the application.
    pub fn from_app_message(app_message: M) -> (item: UiMessage<M>)
        ensures
            item.app_message == Some(app_message),
            item.events@.len() == 0,
    {
        UiMessage { app_message: Some(app_message), events: Vec::new() }
    }

    /// An item that carries nothing and only makes the loop go round once.
    pub fn tick() -> (item: UiMessage<M>)
        ensures
            item.app_message is None,
            item.events@.len() == 0,
    {
        UiMessage { app_message: None, events: Vec::new() }
    }

    /// Whether the item has events that the widgets must be told of.
    pub fn has_events(&self) -> (yes: bool)
        ensures
            yes == (self.events@.len() > 0),
    {
        self.events.len() > 0
    }

    /// Takes the item apart: the messages it hands to the application
    /// directly, and the events for the widgets.
    pub fn into_parts(self) -> (parts: (Vec<M>, Vec<Event>))
        ensures
            parts.0@ == match self.app_message {
                Some(message) => seq![message],
                None => Seq::empty(),
            },
            parts.1 == self.events,
    {
        let mut messages: Vec<M> = Vec::new();
        if let Some(message) = self.app_message {
            messages.push(message);
        }
        (messages, self.events)
    }
}

/// Where the loop stands.
#[derive(Debug, Clone, Copy, PartialEq, Eq, Structural)]
pub enum LoopPhase {
    /// A frame is due.
    Rendering,
    /// The frame is on the screen; the held input, if any, is due.
    Dispatching,
    /// The input was handled; the next item is due.
    AwaitingInput,
    /// The application asked to end. Nothing is due any more.
    Terminated,
}

/// The input that the loop holds for the current round.
#[derive(Debug, Clone, Copy, PartialEq, Eq, Structural)]
pub enum Held {
    /// Nothing, as in the first round.
    Nothing,
    /// The item that the queue handed over.
    Received,
    /// An item that carries nothing, made up to go round once more.
    Tick,
}

/// What a receive that does not block came back with.
#[derive(Debug, Clone, Copy, PartialEq, Eq, Structural)]
pub enum Polled {
    /// An item.
    Item,
    /// Nothing yet.
    Empty,
    /// Nothing, and the queue is closed.
    Closed,
}

/// What happened since the loop last decided.
#[derive(Debug, Clone, Copy, PartialEq, Eq, Structural)]
pub enum LoopEvent {
    /// The frame was laid out, drawn and painted.
    Painted,
    /// The held input was handled: `messages` messages went through the
    /// application's update, `routed_events` says whether events were routed
    /// through the widgets, and `exit` is what the application's termination
    /// predicate says after the update.
    Updated { messages: usize, routed_events: bool, exit: Option<u8> },
    /// A receive that does not block returned.
    Polled(Polled),
}

/// What has to be done next.
#[derive(Debug, Clone, Copy, PartialEq, Eq, Structural)]
pub enum LoopAction {
    /// Lay out, draw and paint a frame, then report `Painted`.
    Paint,
    /// Handle the held input, then report `Updated`.
    Update(Held),
    /// Try to receive the next item without blocking, then report `Polled`.
    Poll,
    /// Wait for one poll interval, then do as for `Poll`.
    Wait,
    /// Restore the terminal and end the process with this status code.
    Exit(u8),
    /// Nothing.
    Idle,
}

/// The state of the loop between two decisions.
#[derive(Debug, Clone, Copy, PartialEq, Eq, Structural)]
pub struct LoopState {
    pub phase: LoopPhase,
    /// The input held for the current round.
    pub held: Held,
    /// Whether handling the input changed anything in this round.
    pub state_updated: bool,
}

/// The state in which the loop starts: the first frame is due, with no input.
pub open spec fn initial_state() -> LoopState {
    LoopState { phase: LoopPhase::Rendering, held: Held::Nothing, state_updated: false }
}

/// The state after `event`, and what has to be done next.
///
/// After a frame the held input is handled. After the update the loop ends
/// where the application asks for it, and else asks the queue. An item from
/// the queue starts the next round. Without an item the loop goes round once
/// more at once where the last update changed something, and waits
/// otherwise; a closed queue is waited on like an empty one. An event that
/// the phase does not wait for changes nothing.
pub open spec fn next(state: LoopState, event: LoopEvent) -> (LoopState, LoopAction) {
    match (state.phase, event) {
        (LoopPhase::Rendering, LoopEvent::Painted) => (
            LoopState { phase: LoopPhase::Dispatching, ..state },
            LoopAction::Update(state.held),
        ),
        (LoopPhase::Dispatching, LoopEvent::Updated { messages, routed_events, exit }) => match exit {
            Some(code) => (
                LoopState {
                    phase: LoopPhase::Terminated,
                    held: Held::Nothing,
                    state_updated: messages > 0 || routed_events,
                },
                LoopAction::Exit(code),
            ),
            None => (
                LoopState {
                    phase: LoopPhase::AwaitingInput,
                    held: Held::Nothing,
                    state_updated: messages > 0 || routed_events,
                },
                LoopAction::Poll,
            ),
        },
        (LoopPhase::AwaitingInput, LoopEvent::Polled(Polled::Item)) => (
            LoopState { phase: LoopPhase::Rendering, held: Held::Received, state_updated: false },
            LoopAction::Paint,
        ),
        (LoopPhase::AwaitingInput, LoopEvent::Polled(Polled::Empty)) => if state.state_updated {
            (
                LoopState { phase: LoopPhase::Rendering, held: Held::Tick, state_updated: false },
                LoopAction::Paint,
            )
        } else {
            (state, LoopAction::Wait)
        },
        (LoopPhase::AwaitingInput, LoopEvent::Polled(Polled::Closed)) => (state, LoopAction::Wait),
        _ => (state, LoopAction::Idle),
    }
}

impl LoopState {
    /// The state in which the loop starts. The first thing to do is to paint.
    pub fn start() -> (started: (LoopState, LoopAction))
        ensures
            started.0 == initial_state(),
            started.1 == LoopAction::Paint,
    {
        (
            LoopState { phase: LoopPhase::Rendering, held: Held::Nothing, state_updated: false },
            LoopAction::Paint,
        )
    }

    /// Takes in what happened and says what has to be done next.
    pub fn step(&mut self, event: LoopEvent) -> (action: LoopAction)
        ensures
            (*final(self), action) == next(*old(self), event),
    {
        match (self.phase, event) {
            (LoopPhase::Rendering, LoopEvent::Painted) => {
                self.phase = LoopPhase::Dispatching;
                LoopAction::Update(self.held)
            },
            (LoopPhase::Dispatching, LoopEvent::Updated { messages, routed_events, exit }) => {
                self.held = Held::Nothing;
                self.state_updated = messages > 0 || routed_events;
                match exit {
                    Some(code) => {
                        self.phase = LoopPhase::Terminated;
                        LoopAction::Exit(code)
                    },
                    None => {
                        self.phase = LoopPhase::AwaitingInput;
                        LoopAction::Poll
                    },
                }
            },
            (LoopPhase::AwaitingInput, LoopEvent::Polled(Polled::Item)) => {
                self.phase = LoopPhase::Rendering;
                self.held = Held::Received;
                self.state_updated = false;
                LoopAction::Paint
            },
            (LoopPhase::AwaitingInput, LoopEvent::Polled(Polled::Empty)) => {
                if self.state_updated {
                    self.phase = LoopPhase::Rendering;
                    self.held = Held::Tick;
                    self.state_updated = false;
                    LoopAction::Paint
                } else {
                    LoopAction::Wait
                }
            },
            (LoopPhase::AwaitingInput, LoopEvent::Polled(Polled::Closed)) => LoopAction::Wait,
            _ => LoopAction::Idle,
        }
    }

    /// Whether the loop has ended.
    pub fn is_terminated(&self) -> (yes: bool)
        ensures
            yes == (self.phase == LoopPhase::Terminated),
    {
        self.phase == LoopPhase::Terminated
    }
}

/// The state after a whole list of events.
pub open spec fn state_after(state: LoopState, events: Seq<LoopEvent>) -> LoopState
    decreases events.len(),
{
    if events.len() == 0 {
        state
    } else {
        next(state_after(state, events.drop_last()), events.last()).0
    }
}

/// What the loop asked for, event by event, over a whole list of events.
pub open spec fn actions_over(state: LoopState, events: Seq<LoopEvent>) -> Seq<LoopAction>
    decreases events.len(),
{
    if events.len() == 0 {
        Seq::empty()
    } else {
        actions_over(state, events.drop_last()).push(
            next(state_after(state, events.drop_last()), events.last()).1,
        )
    }
}

/// How often a list of actions asks to exit.
pub open spec fn exits_in(actions: Seq<LoopAction>) -> nat
    decreases actions.len(),
{
    if actions.len() == 0 {
        0
    } else {
        exits_in(actions.drop_last()) + if actions.last() is Exit {
            1nat
        } else {
            0nat
        }
    }
}

/// The loop asks to exit exactly when the update reports a status code, and
/// then with that code.
pub proof fn lemma_exit_follows_the_predicate(state: LoopState, event: LoopEvent)
    ensures
        next(state, event).1 is Exit <==> state.phase == LoopPhase::Dispatching && event is Updated
            && event->exit is Some,
        next(state, event).1 is Exit ==> next(state, event).1 == LoopAction::Exit(
            event->exit->0,
        ) && next(state, event).0.phase == LoopPhase::Terminated,
        next(state, event).0.phase == LoopPhase::Terminated ==> state.phase
            == LoopPhase::Terminated || next(state, event).1 is Exit,
{
}

/// Once ended, the loop stays ended and asks for nothing.
pub proof fn lemma_terminated_is_final(state: LoopState, event: LoopEvent)
    requires
        state.phase == LoopPhase::Terminated,
    ensures
        next(state, event) == (state, LoopAction::Idle),
{
}

/// Whatever happens, the loop asks to exit at most once, and once it has, it
/// has ended.
pub proof fn lemma_exit_at_most_once(state: LoopState, events: Seq<LoopEvent>)
    ensures
        exits_in(actions_over(state, events)) <= 1,
        exits_in(actions_over(state, events)) == 1 ==> state_after(state, events).phase
            == LoopPhase::Terminated,
        state.phase != LoopPhase::Terminated && state_after(state, events).phase
            == LoopPhase::Terminated ==> exits_in(actions_over(state, events)) == 1,
        state.phase == LoopPhase::Terminated ==> exits_in(actions_over(state, events)) == 0
            && state_after(state, events) == state,
    decreases events.len(),
{
    if events.len() > 0 {
        lemma_exit_at_most_once(state, events.drop_last());
        let actions = actions_over(state, events);
        assert(actions.drop_last() =~= actions_over(state, events.drop_last()));
    }
}

/// The loop never waits while the last update changed something: it paints
/// again at once.
pub proof fn lemma_changes_are_drained(state: LoopState)
    requires
        state.phase == LoopPhase::AwaitingInput,
        state.state_updated,
    ensures
        next(state, LoopEvent::Polled(Polled::Empty)).1 == LoopAction::Paint,
        next(state, LoopEvent::Polled(Polled::Empty)).0.held == Held::Tick,
{
}

/// Whether no update in a list of events reports a status code.
pub open spec fn never_asked_to_exit(events: Seq<LoopEvent>) -> bool {
    forall|i: int|
        0 <= i < events.len() && (#[trigger] events[i]) is Updated ==> events[i]->exit is None
}

/// The loop never ends on its own: as long as the application reports no
/// status code, the loop does not ask to exit and does not end.
pub proof fn lemma_never_exits_on_its_own(state: LoopState, events: Seq<LoopEvent>)
    requires
        state.phase != LoopPhase::Terminated,
        never_asked_to_exit(events),
    ensures
        exits_in(actions_over(state, events)) == 0,
        state_after(state, events).phase != LoopPhase::Terminated,
    decreases events.len(),
{
    if events.len() > 0 {
        let earlier = events.drop_last();
        assert forall|i: int|
            0 <= i < earlier.len() && (#[trigger] earlier[i]) is Updated implies earlier[i]->exit
            is None by {
            assert(earlier[i] == events[i]);
        }
        lemma_never_exits_on_its_own(state, earlier);
        let actions = actions_over(state, events);
        assert(actions.drop_last() =~= actions_over(state, earlier));
        assert(events.last() == events[events.len() - 1]);
    }
}

} // verus!
