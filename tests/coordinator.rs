use std::time::Duration;

use photobooth::auto_trigger;
use photobooth::coordinator::{Command, Coordinator, Event, Overlay, KEY_ENTER, KEY_ESCAPE};
use photobooth::ui_thread;

fn coordinator() -> Coordinator {
    Coordinator::new(3, true, Duration::from_secs(3))
}

/// Runs a snapshot as a fake capture and display would: every command is
/// recorded, and every awaited completion is reported back.
fn record_snapshot(start: Event) -> Vec<Command> {
    let mut c = coordinator();
    let mut log = Vec::new();
    let mut pending = vec![start];
    while let Some(event) = pending.pop() {
        for cmd in c.handle(event) {
            log.push(cmd);
            match cmd {
                Command::RequestSnapshot => pending.push(Event::SnapshotTaken),
                Command::Persist => pending.push(Event::Saved),
                Command::Hold(_) => pending.push(Event::FreezeOver),
                _ => {}
            }
        }
    }
    assert!(c.is_idle());
    log
}

#[test]
fn enter_and_trigger_run_the_same_sequence() {
    let by_key = record_snapshot(Event::Ui(ui_thread::EventMsg::KeyPressed(KEY_ENTER)));
    let by_trigger = record_snapshot(Event::Trigger(auto_trigger::EventMsg::Trigger));
    assert_eq!(by_key, by_trigger);
    assert_eq!(
        by_key,
        vec![
            Command::StopTrigger,
            Command::RequestSnapshot,
            Command::Blend(Some(Overlay::Snapshot)),
            Command::Freeze,
            Command::Persist,
            Command::Hold(Duration::from_secs(3)),
            Command::Blend(None),
            Command::Live,
            Command::RunTrigger,
        ]
    );
}

#[test]
fn countdown_selects_overlay() {
    let mut c = coordinator();
    let ev = |n| Event::Trigger(auto_trigger::EventMsg::Countdown(n));
    assert_eq!(c.handle(ev(3)), vec![Command::Blend(Some(Overlay::Countdown(2)))]);
    assert_eq!(c.handle(ev(1)), vec![Command::Blend(Some(Overlay::Countdown(0)))]);
    assert_eq!(c.handle(ev(4)), vec![Command::Blend(None)]);
    assert_eq!(c.handle(ev(0)), vec![Command::Blend(None)]);
    assert!(c.is_idle());
}

#[test]
fn escape_and_closed_window_shut_down() {
    let mut c = coordinator();
    assert_eq!(c.handle(Event::Ui(ui_thread::EventMsg::KeyPressed(KEY_ESCAPE))), vec![Command::Shutdown]);
    assert!(c.is_done());
    assert!(c.handle(Event::Trigger(auto_trigger::EventMsg::Trigger)).is_empty());
    let mut c = coordinator();
    assert_eq!(c.handle(Event::Ui(ui_thread::EventMsg::WindowClosed)), vec![Command::Shutdown]);
    assert!(c.is_done());
}

#[test]
fn other_keys_are_ignored() {
    let mut c = coordinator();
    assert!(c.handle(Event::Ui(ui_thread::EventMsg::KeyPressed(32))).is_empty());
    assert!(c.is_idle());
}

#[test]
fn events_during_snapshot_are_not_serviced() {
    let mut c = coordinator();
    let _ = c.handle(Event::Trigger(auto_trigger::EventMsg::Trigger));
    assert!(!c.is_idle());
    assert!(c.handle(Event::Trigger(auto_trigger::EventMsg::Trigger)).is_empty());
    assert!(c.handle(Event::Ui(ui_thread::EventMsg::KeyPressed(KEY_ESCAPE))).is_empty());
    assert!(c.handle(Event::Saved).is_empty());
    assert_eq!(c.handle(Event::SnapshotTaken).len(), 3);
}

#[test]
fn without_snapshot_overlay_the_blend_is_cleared() {
    let mut c = Coordinator::new(0, false, Duration::from_millis(10));
    let _ = c.handle(Event::Ui(ui_thread::EventMsg::KeyPressed(KEY_ENTER)));
    assert_eq!(c.handle(Event::SnapshotTaken), vec![Command::Blend(None), Command::Freeze, Command::Persist]);
}

#[test]
fn failed_save_shuts_down() {
    let mut c = coordinator();
    let _ = c.handle(Event::Trigger(auto_trigger::EventMsg::Trigger));
    let _ = c.handle(Event::SnapshotTaken);
    assert_eq!(c.handle(Event::SaveFailed), vec![Command::Shutdown]);
    assert!(c.is_done());
}
