//! The coordinator: the single place where events from the display and the
//! trigger are turned into commands, and where the snapshot sequence is
//! ordered.
//!
//! A snapshot runs in this order, each step gated by the completion of the
//! one before: stop the trigger; request a still and wait for it; show the
//! snapshot overlay and freeze (so that the frozen frame is the blended
//! one); persist the still and wait for the outcome; hold the frozen frame
//! for the freeze time; clear the overlay, go live and run the trigger again.
//! While a snapshot is in flight, display and trigger events are not
//! serviced.
use std::time::Duration;
use vstd::prelude::*;

use crate::auto_trigger;
use crate::ui_thread;

verus! {

pub const KEY_ESCAPE: i32 = 27;

pub const KEY_ENTER: i32 = 13;

/// An input of the coordinator.
#[derive(Debug, Clone, Copy, PartialEq, Eq, Structural)]
pub enum Event {
    Ui(ui_thread::EventMsg),
    Trigger(auto_trigger::EventMsg),
    /// The requested still has arrived.
    SnapshotTaken,
    /// The still was persisted.
    Saved,
    /// Persisting the still failed.
    SaveFailed,
    /// The freeze time is over.
    FreezeOver,
}

/// Which overlay to show.
#[derive(Debug, Clone, Copy, PartialEq, Eq, Structural)]
pub enum Overlay {
    /// The countdown overlay with this index.
    Countdown(usize),
    /// The snapshot overlay.
    Snapshot,
}

/// An action for the component that runs the coordinator.
#[derive(Debug, Clone, Copy, PartialEq, Eq)]
pub enum Command {
    /// Send `Stop` to the trigger machine.
    StopTrigger,
    /// Ask the capture for a still; report `SnapshotTaken` when it arrives.
    RequestSnapshot,
    /// Show this overlay on the display, or none.
    Blend(Option<Overlay>),
    /// Freeze the display.
    Freeze,
    /// Persist the still; report `Saved` or `SaveFailed`.
    Persist,
    /// Wait this long; report `FreezeOver` afterwards.
    Hold(Duration),
    /// Show live frames again.
    Live,
    /// Send `Run` to the trigger machine.
    RunTrigger,
    /// Shut the whole program down.
    Shutdown,
}

/// Where the coordinator stands.
#[derive(Debug, Clone, Copy, PartialEq, Eq, Structural)]
pub enum Phase {
    /// Waiting for display and trigger events.
    Idle,
    /// A still was requested.
    Capturing,
    /// The still is being persisted.
    Saving,
    /// The snapshot is shown for the freeze time.
    Frozen,
    /// Shut down on request.
    Finished,
    /// Shut down because a still could not be persisted.
    Failed,
}

/// The coordinator's configuration and phase.
#[derive(Debug, Clone, Copy, PartialEq, Eq)]
pub struct Coordinator {
    pub phase: Phase,
    /// Number of countdown overlays.
    pub countdown_overlays: usize,
    /// Whether a snapshot overlay exists.
    pub snapshot_overlay: bool,
    /// How long a snapshot stays frozen.
    pub freeze: Duration,
}

/// Whether `event` starts a snapshot: the Enter key or a trigger.
pub open spec fn starts_snapshot(event: Event) -> bool {
    event == Event::Ui(ui_thread::EventMsg::KeyPressed(KEY_ENTER)) || event == Event::Trigger(
        auto_trigger::EventMsg::Trigger,
    )
}

/// Whether `event` asks to shut down: the Escape key or a closed window.
pub open spec fn asks_shutdown(event: Event) -> bool {
    event == Event::Ui(ui_thread::EventMsg::KeyPressed(KEY_ESCAPE)) || event == Event::Ui(
        ui_thread::EventMsg::WindowClosed,
    )
}

/// The overlay for countdown step `n`: overlay `n - 1` when there is one.
pub open spec fn countdown_overlay(overlays: usize, n: usize) -> Option<Overlay> {
    if 1 <= n <= overlays {
        Some(Overlay::Countdown((n - 1) as usize))
    } else {
        None
    }
}

/// The overlay shown with a snapshot.
pub open spec fn snapshot_blend(c: Coordinator) -> Option<Overlay> {
    if c.snapshot_overlay {
        Some(Overlay::Snapshot)
    } else {
        None
    }
}

/// The coordinator's table: the next phase and the commands, in order.
pub open spec fn react(c: Coordinator, event: Event) -> (Phase, Seq<Command>) {
    match c.phase {
        Phase::Idle => if starts_snapshot(event) {
            (Phase::Capturing, seq![Command::StopTrigger, Command::RequestSnapshot])
        } else if asks_shutdown(event) {
            (Phase::Finished, seq![Command::Shutdown])
        } else {
            match event {
                Event::Trigger(auto_trigger::EventMsg::Countdown(n)) => (
                    Phase::Idle,
                    seq![Command::Blend(countdown_overlay(c.countdown_overlays, n))],
                ),
                _ => (Phase::Idle, Seq::empty()),
            }
        },
        Phase::Capturing => match event {
            Event::SnapshotTaken => (
                Phase::Saving,
                seq![Command::Blend(snapshot_blend(c)), Command::Freeze, Command::Persist],
            ),
            _ => (Phase::Capturing, Seq::empty()),
        },
        Phase::Saving => match event {
            Event::Saved => (Phase::Frozen, seq![Command::Hold(c.freeze)]),
            Event::SaveFailed => (Phase::Failed, seq![Command::Shutdown]),
            _ => (Phase::Saving, Seq::empty()),
        },
        Phase::Frozen => match event {
            Event::FreezeOver => (
                Phase::Idle,
                seq![Command::Blend(None), Command::Live, Command::RunTrigger],
            ),
            _ => (Phase::Frozen, Seq::empty()),
        },
        Phase::Finished => (Phase::Finished, Seq::empty()),
        Phase::Failed => (Phase::Failed, Seq::empty()),
    }
}

/// Feeds `events` to the coordinator: where it ends and all commands issued.
pub open spec fn drive(c: Coordinator, events: Seq<Event>) -> (Coordinator, Seq<Command>)
    decreases events.len(),
{
    if events.len() == 0 {
        (c, Seq::empty())
    } else {
        let (phase, commands) = react(c, events[0]);
        let (end, rest) = drive(Coordinator { phase, ..c }, events.drop_first());
        (end, commands + rest)
    }
}

/// Every command of one snapshot, in order.
pub open spec fn snapshot_sequence(c: Coordinator) -> Seq<Command> {
    seq![
        Command::StopTrigger,
        Command::RequestSnapshot,
        Command::Blend(snapshot_blend(c)),
        Command::Freeze,
        Command::Persist,
        Command::Hold(c.freeze),
        Command::Blend(None),
        Command::Live,
        Command::RunTrigger,
    ]
}

/// The completions that a snapshot waits for, in order, after `start`.
pub open spec fn snapshot_events(start: Event) -> Seq<Event> {
    seq![start, Event::SnapshotTaken, Event::Saved, Event::FreezeOver]
}

impl Coordinator {
    /// An idle coordinator.
    pub fn new(countdown_overlays: usize, snapshot_overlay: bool, freeze: Duration) -> (r:
        Coordinator)
        ensures
            r == (Coordinator { phase: Phase::Idle, countdown_overlays, snapshot_overlay, freeze }),
    {
        Coordinator { phase: Phase::Idle, countdown_overlays, snapshot_overlay, freeze }
    }

    /// Whether the coordinator is waiting for display and trigger events.
    pub fn is_idle(&self) -> (r: bool)
        ensures
            r == (self.phase == Phase::Idle),
    {
        match self.phase {
            Phase::Idle => true,
            _ => false,
        }
    }

    /// Whether the coordinator has shut down, on request or on failure.
    pub fn is_done(&self) -> (r: bool)
        ensures
            r == (self.phase == Phase::Finished || self.phase == Phase::Failed),
    {
        match self.phase {
            Phase::Finished | Phase::Failed => true,
            _ => false,
        }
    }

    /// Takes one event and returns the commands to carry out, in order.
    pub fn handle(&mut self, event: Event) -> (r: Vec<Command>)
        ensures
            (final(self).phase, r@) == react(*old(self), event),
            final(self).countdown_overlays == old(self).countdown_overlays,
            final(self).snapshot_overlay == old(self).snapshot_overlay,
            final(self).freeze == old(self).freeze,
    {
        match self.phase {
            Phase::Idle => {
                if is_snapshot_start(event) {
                    self.phase = Phase::Capturing;
                    vec![Command::StopTrigger, Command::RequestSnapshot]
                } else if is_shutdown_request(event) {
                    self.phase = Phase::Finished;
                    vec![Command::Shutdown]
                } else {
                    match event {
                        Event::Trigger(auto_trigger::EventMsg::Countdown(n)) => {
                            let overlay = if 1 <= n && n <= self.countdown_overlays {
                                Some(Overlay::Countdown(n - 1))
                            } else {
                                None
                            };
                            vec![Command::Blend(overlay)]
                        },
                        _ => Vec::new(),
                    }
                }
            },
            Phase::Capturing => match event {
                Event::SnapshotTaken => {
                    self.phase = Phase::Saving;
                    let overlay = if self.snapshot_overlay {
                        Some(Overlay::Snapshot)
                    } else {
                        None
                    };
                    vec![Command::Blend(overlay), Command::Freeze, Command::Persist]
                },
                _ => Vec::new(),
            },
            Phase::Saving => match event {
                Event::Saved => {
                    self.phase = Phase::Frozen;
                    vec![Command::Hold(self.freeze)]
                },
                Event::SaveFailed => {
                    self.phase = Phase::Failed;
                    vec![Command::Shutdown]
                },
                _ => Vec::new(),
            },
            Phase::Frozen => match event {
                Event::FreezeOver => {
                    self.phase = Phase::Idle;
                    vec![Command::Blend(None), Command::Live, Command::RunTrigger]
                },
                _ => Vec::new(),
            },
            Phase::Finished | Phase::Failed => Vec::new(),
        }
    }
}

fn is_snapshot_start(event: Event) -> (r: bool)
    ensures
        r == starts_snapshot(event),
{
    match event {
        Event::Ui(ui_thread::EventMsg::KeyPressed(key)) => key == KEY_ENTER,
        Event::Trigger(auto_trigger::EventMsg::Trigger) => true,
        _ => false,
    }
}

fn is_shutdown_request(event: Event) -> (r: bool)
    ensures
        r == asks_shutdown(event),
{
    match event {
        Event::Ui(ui_thread::EventMsg::KeyPressed(key)) => key == KEY_ESCAPE,
        Event::Ui(ui_thread::EventMsg::WindowClosed) => true,
        _ => false,
    }
}

/// The Enter key and a trigger are the same request: in every state the
/// coordinator answers both with the same phase and the same commands.
pub proof fn lemma_enter_same_as_trigger(c: Coordinator)
    ensures
        react(c, Event::Ui(ui_thread::EventMsg::KeyPressed(KEY_ENTER))) == react(
            c,
            Event::Trigger(auto_trigger::EventMsg::Trigger),
        ),
{
}

/// From idle, a snapshot started by the Enter key or by a trigger issues
/// exactly the snapshot sequence, in order, and ends idle again.
pub proof fn lemma_snapshot_sequence(c: Coordinator, start: Event)
    requires
        c.phase == Phase::Idle,
        starts_snapshot(start),
    ensures
        drive(c, snapshot_events(start)) == (c, snapshot_sequence(c)),
{
    reveal_with_fuel(drive, 5);
    let evs = snapshot_events(start);
    let c1 = Coordinator { phase: Phase::Capturing, ..c };
    let c2 = Coordinator { phase: Phase::Saving, ..c };
    let c3 = Coordinator { phase: Phase::Frozen, ..c };
    assert(evs.drop_first() =~= seq![Event::SnapshotTaken, Event::Saved, Event::FreezeOver]);
    assert(evs.drop_first().drop_first() =~= seq![Event::Saved, Event::FreezeOver]);
    assert(evs.drop_first().drop_first().drop_first() =~= seq![Event::FreezeOver]);
    assert(evs.drop_first().drop_first().drop_first().drop_first() =~= Seq::<Event>::empty());
    assert(drive(c3, seq![Event::FreezeOver]).1 =~= seq![
        Command::Blend(None),
        Command::Live,
        Command::RunTrigger,
    ]);
    assert(drive(c2, seq![Event::Saved, Event::FreezeOver]).1 =~= seq![
        Command::Hold(c.freeze),
        Command::Blend(None),
        Command::Live,
        Command::RunTrigger,
    ]);
    assert(drive(c1, seq![Event::SnapshotTaken, Event::Saved, Event::FreezeOver]).1
        =~= snapshot_sequence(c).drop_first().drop_first());
    assert(drive(c, evs).1 =~= snapshot_sequence(c));
}

} // verus!
