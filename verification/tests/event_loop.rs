use iced_tui::input::Event;
use iced_tui::Held;
use iced_tui::LoopAction;
use iced_tui::LoopEvent;
use iced_tui::LoopPhase;
use iced_tui::LoopState;
use iced_tui::Polled;
use iced_tui::ScreenOp;
use iced_tui::TuiRenderer;
use iced_tui::UiMessage;

fn updated(messages: usize, routed_events: bool, exit: Option<u8>) -> LoopEvent {
    LoopEvent::Updated { messages, routed_events, exit }
}

/// Drives the loop over a list of events and collects what it asks for,
/// performing the teardown whenever it asks to exit.
fn run(events: &[LoopEvent]) -> (LoopState, Vec<LoopAction>, Vec<ScreenOp>) {
    let (mut state, first) = LoopState::start();
    let mut actions = vec![first];
    let mut teardown = Vec::new();
    for event in events {
        let action = state.step(*event);
        if let LoopAction::Exit(_) = action {
            teardown.extend(TuiRenderer::default().end_screen());
        }
        actions.push(action);
    }
    (state, actions, teardown)
}

#[test]
fn the_loop_starts_by_painting_without_input() {
    let (state, action) = LoopState::start();
    assert_eq!(action, LoopAction::Paint);
    assert_eq!(state.phase, LoopPhase::Rendering);
    assert_eq!(state.held, Held::Nothing);
    assert!(!state.state_updated);
    assert!(!state.is_terminated());
}

#[test]
fn a_round_paints_updates_and_polls() {
    let (state, actions, _) = run(&[LoopEvent::Painted, updated(0, false, None)]);
    assert_eq!(
        actions,
        vec![LoopAction::Paint, LoopAction::Update(Held::Nothing), LoopAction::Poll]
    );
    assert_eq!(state.phase, LoopPhase::AwaitingInput);
    assert!(!state.state_updated);
}

#[test]
fn an_item_starts_the_next_round() {
    let (state, actions, _) = run(&[
        LoopEvent::Painted,
        updated(0, false, None),
        LoopEvent::Polled(Polled::Item),
        LoopEvent::Painted,
    ]);
    assert_eq!(actions[3], LoopAction::Paint);
    assert_eq!(actions[4], LoopAction::Update(Held::Received));
    assert_eq!(state.phase, LoopPhase::Dispatching);
}

#[test]
fn the_loop_waits_while_nothing_arrives_and_nothing_changed() {
    let (state, actions, _) = run(&[
        LoopEvent::Painted,
        updated(0, false, None),
        LoopEvent::Polled(Polled::Empty),
        LoopEvent::Polled(Polled::Empty),
    ]);
    assert_eq!(actions[3], LoopAction::Wait);
    assert_eq!(actions[4], LoopAction::Wait);
    assert_eq!(state.phase, LoopPhase::AwaitingInput);
}

#[test]
fn the_loop_goes_round_at_once_after_a_change() {
    for (messages, routed_events) in [(1, false), (0, true), (3, true)] {
        let (state, actions, _) = run(&[
            LoopEvent::Painted,
            updated(0, false, None),
            LoopEvent::Polled(Polled::Item),
            LoopEvent::Painted,
            updated(messages, routed_events, None),
            LoopEvent::Polled(Polled::Empty),
            LoopEvent::Painted,
            updated(0, false, None),
            LoopEvent::Polled(Polled::Empty),
        ]);
        assert_eq!(actions[6], LoopAction::Paint);
        assert_eq!(actions[7], LoopAction::Update(Held::Tick));
        assert_eq!(actions[8], LoopAction::Poll);
        assert_eq!(actions[9], LoopAction::Wait);
        assert_eq!(state.phase, LoopPhase::AwaitingInput);
    }
}

#[test]
fn a_closed_queue_is_waited_on() {
    let (state, actions, _) = run(&[
        LoopEvent::Painted,
        updated(1, false, None),
        LoopEvent::Polled(Polled::Closed),
        LoopEvent::Polled(Polled::Closed),
        LoopEvent::Polled(Polled::Item),
    ]);
    assert_eq!(actions[3], LoopAction::Wait);
    assert_eq!(actions[4], LoopAction::Wait);
    assert_eq!(actions[5], LoopAction::Paint);
    assert_eq!(state.held, Held::Received);
}

#[test]
fn a_status_code_after_a_message_ends_the_loop_and_tears_down_once() {
    let (state, actions, teardown) = run(&[
        LoopEvent::Painted,
        updated(0, false, None),
        LoopEvent::Polled(Polled::Item),
        LoopEvent::Painted,
        updated(1, false, Some(3)),
        LoopEvent::Polled(Polled::Item),
        LoopEvent::Painted,
        updated(1, true, Some(4)),
        LoopEvent::Polled(Polled::Empty),
    ]);
    assert_eq!(
        actions,
        vec![
            LoopAction::Paint,
            LoopAction::Update(Held::Nothing),
            LoopAction::Poll,
            LoopAction::Paint,
            LoopAction::Update(Held::Received),
            LoopAction::Exit(3),
            LoopAction::Idle,
            LoopAction::Idle,
            LoopAction::Idle,
            LoopAction::Idle,
        ]
    );
    assert!(state.is_terminated());
    assert_eq!(
        teardown,
        vec![
            ScreenOp::LeaveAlternateScreen,
            ScreenOp::Flush,
            ScreenOp::DisableRawMode,
            ScreenOp::ResetColor,
            ScreenOp::ShowCursor,
            ScreenOp::Flush,
        ]
    );
}

#[test]
fn the_loop_can_end_in_its_first_round() {
    let (state, actions, _) = run(&[LoopEvent::Painted, updated(0, false, Some(0))]);
    assert_eq!(actions[2], LoopAction::Exit(0));
    assert!(state.is_terminated());
}

#[test]
fn the_loop_never_ends_on_its_own() {
    let mut events = Vec::new();
    for round in 0..50 {
        events.push(LoopEvent::Painted);
        events.push(updated(round % 3, round % 2 == 0, None));
        events.push(LoopEvent::Polled(Polled::Closed));
        events.push(LoopEvent::Polled(Polled::Empty));
        events.push(LoopEvent::Polled(Polled::Item));
    }
    let (state, actions, teardown) = run(&events);
    assert!(!state.is_terminated());
    assert!(teardown.is_empty());
    assert!(actions.iter().all(|action| !matches!(action, LoopAction::Exit(_))));
}

#[test]
fn an_event_out_of_turn_changes_nothing() {
    let (mut state, _) = LoopState::start();
    let before = state;
    assert_eq!(state.step(LoopEvent::Polled(Polled::Item)), LoopAction::Idle);
    assert_eq!(state.step(updated(1, true, Some(9))), LoopAction::Idle);
    assert_eq!(state, before);

    assert_eq!(state.step(LoopEvent::Painted), LoopAction::Update(Held::Nothing));
    let before = state;
    assert_eq!(state.step(LoopEvent::Painted), LoopAction::Idle);
    assert_eq!(state.step(LoopEvent::Polled(Polled::Empty)), LoopAction::Idle);
    assert_eq!(state, before);
}

#[test]
fn queue_items_carry_a_message_or_events() {
    let events = vec![Event::Resized { width: 80, height: 24 }];
    let item: UiMessage<u32> = UiMessage::from_events(events.clone());
    assert_eq!(item.app_message, None);
    assert_eq!(item.events, events);
    assert!(item.has_events());
    assert_eq!(item.into_parts(), (vec![], events));

    let item = UiMessage::from_app_message(7_u32);
    assert_eq!(item.app_message, Some(7));
    assert!(item.events.is_empty());
    assert!(!item.has_events());
    assert_eq!(item.into_parts(), (vec![7], vec![]));

    let item: UiMessage<u32> = UiMessage::tick();
    assert_eq!(item.app_message, None);
    assert!(!item.has_events());
    assert_eq!(item.into_parts(), (vec![], vec![]));
}
