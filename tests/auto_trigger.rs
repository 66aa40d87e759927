use std::time::Duration;

use photobooth::args::TriggerParams;
use photobooth::auto_trigger::{
    AutoTrigger, ControlMsg, EventMsg, Input, Transition, TriggerState, Wait,
};

fn params(until: u64, between: u64) -> TriggerParams {
    TriggerParams {
        timeout: Some(Duration::from_secs(until)),
        timeout_between: Duration::from_secs(between),
    }
}

/// Feeds inputs and collects the events announced by entered states.
fn feed(m: &mut AutoTrigger, inputs: &[Input]) -> (Vec<EventMsg>, bool) {
    let mut events = Vec::new();
    for input in inputs {
        match m.handle(*input) {
            Transition::Enter(_) => {
                if let Some(e) = m.entry_event() {
                    events.push(e);
                }
            }
            Transition::Stay => {}
            Transition::Exit => return (events, true),
        }
    }
    (events, false)
}

#[test]
fn disabled_timeout_exits_at_once() {
    let p = TriggerParams { timeout: None, timeout_between: Duration::from_secs(1) };
    assert!(AutoTrigger::new(p, 3).is_none());
}

#[test]
fn starts_waiting_with_full_timer() {
    let m = AutoTrigger::new(params(2, 1), 3).unwrap();
    assert_eq!(m.state(), TriggerState::Waiting);
    assert_eq!(m.wait(), Wait::Timer(Duration::from_secs(2)));
    assert_eq!(m.entry_event(), None);
}

#[test]
fn one_cycle_counts_down_then_triggers() {
    for k in 1..5usize {
        let mut m = AutoTrigger::new(params(2, 1), k).unwrap();
        let (events, exited) = feed(&mut m, &vec![Input::Elapsed; k + 2]);
        assert!(!exited);
        let mut expected: Vec<EventMsg> = (1..=k).rev().map(EventMsg::Countdown).collect();
        expected.push(EventMsg::Trigger);
        assert_eq!(events, expected);
        assert_eq!(m.state(), TriggerState::Waiting);
    }
}

#[test]
fn run_and_closed_commands_are_absorbed() {
    let mut m = AutoTrigger::new(params(2, 1), 2).unwrap();
    let inputs = [
        Input::Control(ControlMsg::Run),
        Input::Elapsed,
        Input::ControlClosed,
        Input::Control(ControlMsg::Run),
        Input::Elapsed,
        Input::Elapsed,
        Input::Elapsed,
    ];
    let (events, _) = feed(&mut m, &inputs);
    assert_eq!(events, vec![EventMsg::Countdown(2), EventMsg::Countdown(1), EventMsg::Trigger]);
    assert_eq!(m.state(), TriggerState::Waiting);
    assert_eq!(m.handle(Input::ControlClosed), Transition::Stay);
}

#[test]
fn stop_during_countdown_abandons_trigger() {
    let mut m = AutoTrigger::new(params(2, 1), 3).unwrap();
    let inputs = [
        Input::Elapsed,
        Input::Elapsed,
        Input::Control(ControlMsg::Stop),
        Input::Elapsed,
        Input::Elapsed,
        Input::Control(ControlMsg::Stop),
        Input::ControlClosed,
    ];
    let (events, _) = feed(&mut m, &inputs);
    assert_eq!(events, vec![EventMsg::Countdown(3), EventMsg::Countdown(2)]);
    assert_eq!(m.state(), TriggerState::Stopped);
    assert_eq!(m.wait(), Wait::Commands);
}

#[test]
fn stop_while_waiting_then_run_restarts() {
    let mut m = AutoTrigger::new(params(2, 1), 2).unwrap();
    assert_eq!(m.handle(Input::Control(ControlMsg::Stop)), Transition::Enter(TriggerState::Stopped));
    assert_eq!(m.entry_event(), None);
    assert_eq!(m.handle(Input::Control(ControlMsg::Run)), Transition::Enter(TriggerState::Waiting));
    assert_eq!(m.wait(), Wait::Timer(Duration::from_secs(2)));
    let (events, _) = feed(&mut m, &[Input::Elapsed; 4]);
    assert_eq!(events, vec![EventMsg::Countdown(2), EventMsg::Countdown(1), EventMsg::Trigger]);
}

#[test]
fn exit_terminates_from_every_state() {
    let mut m = AutoTrigger::new(params(2, 1), 1).unwrap();
    assert_eq!(m.handle(Input::Exit), Transition::Exit);
    let _ = m.handle(Input::Elapsed);
    assert_eq!(m.handle(Input::Exit), Transition::Exit);
    let _ = m.handle(Input::Control(ControlMsg::Stop));
    assert_eq!(m.state(), TriggerState::Stopped);
    assert_eq!(m.handle(Input::Exit), Transition::Exit);
}

#[test]
fn trigger_returns_to_waiting_at_once() {
    let mut m = AutoTrigger::new(params(2, 1), 1).unwrap();
    let _ = m.handle(Input::Elapsed);
    let _ = m.handle(Input::Elapsed);
    assert_eq!(m.state(), TriggerState::Trigger);
    assert_eq!(m.wait(), Wait::Immediately);
    assert_eq!(m.handle(Input::Elapsed), Transition::Enter(TriggerState::Waiting));
}

#[test]
fn end_to_end_timeline() {
    // With 2 s until the countdown, 1 s between steps and 3 steps, the events
    // come at 2 s, 3 s, 4 s and 5 s.
    let mut m = AutoTrigger::new(params(2, 1), 3).unwrap();
    let mut now = Duration::ZERO;
    let mut timeline = Vec::new();
    while timeline.len() < 4 {
        match m.wait() {
            Wait::Timer(d) => now += d,
            Wait::Immediately => {}
            Wait::Commands => panic!("no command was sent"),
        }
        if let Transition::Enter(_) = m.handle(Input::Elapsed) {
            if let Some(e) = m.entry_event() {
                timeline.push((now, e));
            }
        }
    }
    assert_eq!(
        timeline,
        vec![
            (Duration::from_secs(2), EventMsg::Countdown(3)),
            (Duration::from_secs(3), EventMsg::Countdown(2)),
            (Duration::from_secs(4), EventMsg::Countdown(1)),
            (Duration::from_secs(5), EventMsg::Trigger),
        ]
    );
}
