//! The autonomous trigger: a timer-driven state machine that counts down and
//! fires a trigger, and that can be stopped and resumed from outside.
//!
//! The machine itself holds no timers and no channels. Whoever runs it asks
//! what the current state waits for (`wait`), delivers the first input that
//! arrives (`handle`), and publishes the event that a newly entered state
//! announces (`entry_event`).
use std::time::Duration;
use vstd::prelude::*;

use crate::args::TriggerParams;

verus! {

/// Notification published by the trigger machine.
#[derive(Debug, Clone, Copy, PartialEq, Eq, Structural)]
pub enum EventMsg {
    Trigger,
    Countdown(usize),
}

/// Command sent to the trigger machine.
#[derive(Debug, Clone, Copy, PartialEq, Eq, Structural)]
pub enum ControlMsg {
    Run,
    Stop,
}

/// The state of the trigger machine. `Countdown(n)` counts the steps left
/// before the trigger fires.
#[derive(Debug, Clone, Copy, PartialEq, Eq, Structural)]
pub enum TriggerState {
    Waiting,
    Countdown(usize),
    Trigger,
    Stopped,
}

/// What arrived first while the machine waited.
#[derive(Debug, Clone, Copy, PartialEq, Eq, Structural)]
pub enum Input {
    /// The state's timer ran out (or, in `Trigger`, the state was left at once).
    Elapsed,
    /// A command arrived.
    Control(ControlMsg),
    /// The command channel has no sender any more.
    ControlClosed,
    /// The shutdown signal.
    Exit,
}

/// The outcome of one input.
#[derive(Debug, Clone, Copy, PartialEq, Eq, Structural)]
pub enum Transition {
    /// The input was absorbed: same state, and its pending timer keeps running.
    Stay,
    /// The machine enters the given state: it announces the state's entry
    /// event, if any, and arms the state's timer anew.
    Enter(TriggerState),
    /// The machine terminates.
    Exit,
}

/// What a state waits for.
#[derive(Debug, Clone, Copy, PartialEq, Eq)]
pub enum Wait {
    /// Nothing: the state is left at once.
    Immediately,
    /// The timer of the given length, or a command, or the shutdown signal.
    Timer(Duration),
    /// A command or the shutdown signal; no timer runs.
    Commands,
}

/// The state table. `countdown` is the number of countdown steps.
pub open spec fn transition(countdown: usize, state: TriggerState, input: Input) -> Transition {
    match input {
        Input::Exit => Transition::Exit,
        _ => match state {
            TriggerState::Waiting => match input {
                Input::Elapsed => Transition::Enter(TriggerState::Countdown(countdown)),
                Input::Control(ControlMsg::Stop) => Transition::Enter(TriggerState::Stopped),
                _ => Transition::Stay,
            },
            TriggerState::Countdown(n) => match input {
                Input::Elapsed => if n > 1 {
                    Transition::Enter(TriggerState::Countdown((n - 1) as usize))
                } else {
                    Transition::Enter(TriggerState::Trigger)
                },
                Input::Control(ControlMsg::Stop) => Transition::Enter(TriggerState::Stopped),
                _ => Transition::Stay,
            },
            TriggerState::Trigger => Transition::Enter(TriggerState::Waiting),
            TriggerState::Stopped => match input {
                Input::Control(ControlMsg::Run) => Transition::Enter(TriggerState::Waiting),
                _ => Transition::Stay,
            },
        },
    }
}

/// The event a state announces when it is entered.
pub open spec fn entry_event(state: TriggerState) -> Option<EventMsg> {
    match state {
        TriggerState::Countdown(n) => Some(EventMsg::Countdown(n)),
        TriggerState::Trigger => Some(EventMsg::Trigger),
        _ => None,
    }
}

/// The events published on entering `state`, as a sequence.
pub open spec fn entry_events(state: TriggerState) -> Seq<EventMsg> {
    match entry_event(state) {
        Some(e) => seq![e],
        None => Seq::empty(),
    }
}

/// What `state` waits for under the given timing.
pub open spec fn wait_of(params: TriggerParams, state: TriggerState) -> Wait {
    match state {
        TriggerState::Waiting => Wait::Timer(params.timeout.unwrap()),
        TriggerState::Countdown(_) => Wait::Timer(params.timeout_between),
        TriggerState::Trigger => Wait::Immediately,
        TriggerState::Stopped => Wait::Commands,
    }
}

/// Runs the machine from `start` over `inputs`: the state reached (`None`
/// once it terminated) and every event published on the way, in order.
pub open spec fn run(countdown: usize, start: TriggerState, inputs: Seq<Input>) -> (
    Option<TriggerState>,
    Seq<EventMsg>,
)
    decreases inputs.len(),
{
    if inputs.len() == 0 {
        (Some(start), Seq::empty())
    } else {
        let (reached, events) = run(countdown, start, inputs.drop_last());
        match reached {
            None => (None, events),
            Some(s) => match transition(countdown, s, inputs.last()) {
                Transition::Stay => (Some(s), events),
                Transition::Enter(next) => (Some(next), events + entry_events(next)),
                Transition::Exit => (None, events),
            },
        }
    }
}

/// The `j`-th event of one full cycle of `countdown` steps:
/// `Countdown(countdown)`, ..., `Countdown(1)`, then `Trigger`.
pub open spec fn cycle_event(countdown: usize, j: int) -> EventMsg {
    if j < countdown {
        EventMsg::Countdown((countdown - j) as usize)
    } else {
        EventMsg::Trigger
    }
}

/// The trigger machine with its fixed timing and countdown depth.
#[derive(Debug)]
pub struct AutoTrigger {
    params: TriggerParams,
    countdown: usize,
    state: TriggerState,
}

impl AutoTrigger {
    pub closed spec fn params_spec(&self) -> TriggerParams {
        self.params
    }

    pub closed spec fn countdown_spec(&self) -> usize {
        self.countdown
    }

    pub closed spec fn state_spec(&self) -> TriggerState {
        self.state
    }

    /// The machine's invariant: autonomous triggering is on, the depth is
    /// positive, and a countdown never counts more steps than the depth.
    pub closed spec fn wf(&self) -> bool {
        &&& self.params.timeout is Some
        &&& self.countdown >= 1
        &&& match self.state {
            TriggerState::Countdown(n) => 1 <= n <= self.countdown,
            _ => true,
        }
    }

    /// A machine in `Waiting`, or `None` when the timing disables
    /// autonomous triggering: then the machine exits right after start.
    pub fn new(params: TriggerParams, countdown: usize) -> (r: Option<AutoTrigger>)
        requires
            countdown >= 1,
        ensures
            params.timeout is None <==> r is None,
            r matches Some(m) ==> {
                &&& m.wf()
                &&& m.params_spec() == params
                &&& m.countdown_spec() == countdown
                &&& m.state_spec() == TriggerState::Waiting
            },
    {
        match params.timeout {
            None => None,
            Some(_) => Some(AutoTrigger { params, countdown, state: TriggerState::Waiting }),
        }
    }

    pub fn state(&self) -> (r: TriggerState)
        ensures
            r == self.state_spec(),
    {
        self.state
    }

    pub fn countdown(&self) -> (r: usize)
        ensures
            r == self.countdown_spec(),
    {
        self.countdown
    }

    /// The event that the current state announced when it was entered.
    pub fn entry_event(&self) -> (r: Option<EventMsg>)
        ensures
            r == entry_event(self.state_spec()),
    {
        match self.state {
            TriggerState::Countdown(n) => Some(EventMsg::Countdown(n)),
            TriggerState::Trigger => Some(EventMsg::Trigger),
            _ => None,
        }
    }

    /// What the current state waits for.
    pub fn wait(&self) -> (r: Wait)
        requires
            self.wf(),
        ensures
            r == wait_of(self.params_spec(), self.state_spec()),
    {
        match self.state {
            TriggerState::Waiting => Wait::Timer(self.params.timeout.unwrap()),
            TriggerState::Countdown(_) => Wait::Timer(self.params.timeout_between),
            TriggerState::Trigger => Wait::Immediately,
            TriggerState::Stopped => Wait::Commands,
        }
    }

    /// Takes the input that arrived first and moves the machine on.
    pub fn handle(&mut self, input: Input) -> (r: Transition)
        requires
            old(self).wf(),
        ensures
            r == transition(old(self).countdown_spec(), old(self).state_spec(), input),
            final(self).wf(),
            final(self).params_spec() == old(self).params_spec(),
            final(self).countdown_spec() == old(self).countdown_spec(),
            final(self).state_spec() == match r {
                Transition::Enter(s) => s,
                _ => old(self).state_spec(),
            },
    {
        let r = match input {
            Input::Exit => Transition::Exit,
            _ => match self.state {
                TriggerState::Waiting => match input {
                    Input::Elapsed => Transition::Enter(TriggerState::Countdown(self.countdown)),
                    Input::Control(ControlMsg::Stop) => Transition::Enter(TriggerState::Stopped),
                    _ => Transition::Stay,
                },
                TriggerState::Countdown(n) => match input {
                    Input::Elapsed => if n > 1 {
                        Transition::Enter(TriggerState::Countdown(n - 1))
                    } else {
                        Transition::Enter(TriggerState::Trigger)
                    },
                    Input::Control(ControlMsg::Stop) => Transition::Enter(TriggerState::Stopped),
                    _ => Transition::Stay,
                },
                TriggerState::Trigger => Transition::Enter(TriggerState::Waiting),
                TriggerState::Stopped => match input {
                    Input::Control(ControlMsg::Run) => Transition::Enter(TriggerState::Waiting),
                    _ => Transition::Stay,
                },
            },
        };
        if let Transition::Enter(s) = r {
            self.state = s;
        }
        r
    }
}

/// Where a run that has not been stopped stands within the endless repetition
/// of countdown cycles: every event so far is the cycle's event at its
/// position, and the state matches the number of events published.
pub open spec fn in_cycle(countdown: usize, state: TriggerState, events: Seq<EventMsg>) -> bool {
    &&& forall|i: int| 0 <= i < events.len() ==> #[trigger] events[i] == cycle_event(
        countdown,
        i % (countdown + 1),
    )
    &&& match state {
        TriggerState::Waiting => events.len() as int % (countdown + 1) == 0,
        TriggerState::Countdown(n) => 1 <= n <= countdown && events.len() as int % (countdown + 1) == countdown
            - n + 1,
        TriggerState::Trigger => events.len() as int % (countdown + 1) == 0,
        TriggerState::Stopped => false,
    }
}

proof fn lemma_mod_step(len: int, m: int)
    requires
        len >= 0,
        m >= 1,
    ensures
        (len + 1) % m == if len % m + 1 == m {
            0
        } else {
            len % m + 1
        },
{
    vstd::arithmetic::div_mod::lemma_fundamental_div_mod(len, m);
    let q = len / m;
    let r = len % m;
    vstd::arithmetic::div_mod::lemma_mod_pos_bound(len, m);
    if r + 1 == m {
        assert(len + 1 == (q + 1) * m + 0) by (nonlinear_arith)
            requires
                len == m * q + r,
                r + 1 == m,
        ;
        vstd::arithmetic::div_mod::lemma_fundamental_div_mod_converse_mod(len + 1, m, q + 1, 0);
    } else {
        assert(len + 1 == q * m + (r + 1)) by (nonlinear_arith)
            requires
                len == m * q + r,
        ;
        vstd::arithmetic::div_mod::lemma_fundamental_div_mod_converse_mod(len + 1, m, q, r + 1);
    }
}

proof fn lemma_in_cycle_step(countdown: usize, state: TriggerState, events: Seq<EventMsg>, input: Input)
    requires
        countdown >= 1,
        in_cycle(countdown, state, events),
        input != Input::Control(ControlMsg::Stop),
        input != Input::Exit,
    ensures
        match transition(countdown, state, input) {
            Transition::Stay => true,
            Transition::Enter(next) => in_cycle(countdown, next, events + entry_events(next)),
            Transition::Exit => false,
        },
{
    let m = countdown + 1;
    let len = events.len() as int;
    lemma_mod_step(len, m);
    match transition(countdown, state, input) {
        Transition::Enter(next) => {
            let evs = events + entry_events(next);
            assert forall|i: int| 0 <= i < evs.len() implies #[trigger] evs[i] == cycle_event(
                countdown,
                i % m,
            ) by {
                if i < len {
                    assert(evs[i] == events[i]);
                }
            }
        },
        _ => {},
    }
}

/// Uninterrupted cycles: from `Waiting`, as long as no `Stop` arrives and no
/// shutdown, the machine publishes `Countdown(k)`, `Countdown(k-1)`, ...,
/// `Countdown(1)`, then `Trigger`, and again from the start, each exactly
/// once and in that order; whenever it is back in `Waiting`, the events
/// published so far are whole cycles.
pub proof fn lemma_uninterrupted_cycles(countdown: usize, inputs: Seq<Input>)
    requires
        countdown >= 1,
        forall|i: int|
            0 <= i < inputs.len() ==> #[trigger] inputs[i] != Input::Control(ControlMsg::Stop)
                && inputs[i] != Input::Exit,
    ensures
        run(countdown, TriggerState::Waiting, inputs).0 is Some,
        forall|i: int|
            0 <= i < run(countdown, TriggerState::Waiting, inputs).1.len() ==> #[trigger] run(
                countdown,
                TriggerState::Waiting,
                inputs,
            ).1[i] == cycle_event(countdown, i % (countdown + 1)),
        run(countdown, TriggerState::Waiting, inputs).0 == Some(TriggerState::Waiting) ==> run(
            countdown,
            TriggerState::Waiting,
            inputs,
        ).1.len() as int % (countdown + 1) == 0,
{
    lemma_run_in_cycle(countdown, inputs);
    let (reached, events) = run(countdown, TriggerState::Waiting, inputs);
    assert(in_cycle(countdown, reached.unwrap(), events));
}

proof fn lemma_run_in_cycle(countdown: usize, inputs: Seq<Input>)
    requires
        countdown >= 1,
        forall|i: int|
            0 <= i < inputs.len() ==> #[trigger] inputs[i] != Input::Control(ControlMsg::Stop)
                && inputs[i] != Input::Exit,
    ensures
        run(countdown, TriggerState::Waiting, inputs).0 is Some,
        in_cycle(
            countdown,
            run(countdown, TriggerState::Waiting, inputs).0.unwrap(),
            run(countdown, TriggerState::Waiting, inputs).1,
        ),
    decreases inputs.len(),
{
    if inputs.len() == 0 {
        vstd::arithmetic::div_mod::lemma_small_mod(0, (countdown + 1) as nat);
    } else {
        let prefix = inputs.drop_last();
        assert forall|i: int| 0 <= i < prefix.len() implies #[trigger] prefix[i]
            != Input::Control(ControlMsg::Stop) && prefix[i] != Input::Exit by {
            assert(prefix[i] == inputs[i]);
        }
        lemma_run_in_cycle(countdown, prefix);
        let (reached, events) = run(countdown, TriggerState::Waiting, prefix);
        let last = inputs.last();
        assert(last == inputs[inputs.len() - 1]);
        lemma_in_cycle_step(countdown, reached.unwrap(), events, last);
    }
}

/// A run that never receives `Run` and starts from `Stopped` publishes
/// nothing and stays in `Stopped` until it terminates.
proof fn lemma_stopped_stays(countdown: usize, inputs: Seq<Input>)
    requires
        forall|i: int| 0 <= i < inputs.len() ==> #[trigger] inputs[i] != Input::Control(ControlMsg::Run),
    ensures
        run(countdown, TriggerState::Stopped, inputs).1 == Seq::<EventMsg>::empty(),
        run(countdown, TriggerState::Stopped, inputs).0 is None || run(
            countdown,
            TriggerState::Stopped,
            inputs,
        ).0 == Some(TriggerState::Stopped),
    decreases inputs.len(),
{
    if inputs.len() > 0 {
        let prefix = inputs.drop_last();
        assert forall|i: int| 0 <= i < prefix.len() implies #[trigger] prefix[i]
            != Input::Control(ControlMsg::Run) by {
            assert(prefix[i] == inputs[i]);
        }
        lemma_stopped_stays(countdown, prefix);
        assert(inputs.last() == inputs[inputs.len() - 1]);
    }
}

proof fn lemma_run_prepend(countdown: usize, start: TriggerState, first: Input, rest: Seq<Input>)
    requires
        transition(countdown, start, first) matches Transition::Enter(next) && entry_events(next)
            == Seq::<EventMsg>::empty(),
    ensures
        run(countdown, start, seq![first] + rest) == run(
            countdown,
            transition(countdown, start, first)->Enter_0,
            rest,
        ),
    decreases rest.len(),
{
    let all = seq![first] + rest;
    if rest.len() == 0 {
        assert(all.drop_last() =~= Seq::<Input>::empty());
        assert(run(countdown, start, all.drop_last()).1 + entry_events(
            transition(countdown, start, first)->Enter_0,
        ) =~= Seq::<EventMsg>::empty());
    } else {
        assert(all.drop_last() =~= seq![first] + rest.drop_last());
        lemma_run_prepend(countdown, start, first, rest.drop_last());
        assert(all.last() == rest.last());
    }
}

/// Stop and restart: a `Stop` received in `Waiting` or in a countdown leads
/// to `Stopped`, and from there, until a `Run` arrives, no event is
/// published at all, so no `Trigger` for the abandoned cycle. A `Run` in
/// `Stopped` leads back to `Waiting`, whose timer is armed anew with the full
/// time until the countdown.
pub proof fn lemma_stop_abandons_cycle(
    params: TriggerParams,
    countdown: usize,
    state: TriggerState,
    inputs: Seq<Input>,
)
    requires
        params.timeout is Some,
        countdown >= 1,
        state == TriggerState::Waiting || (state matches TriggerState::Countdown(n) && 1 <= n
            <= countdown),
        forall|i: int| 0 <= i < inputs.len() ==> #[trigger] inputs[i] != Input::Control(ControlMsg::Run),
    ensures
        transition(countdown, state, Input::Control(ControlMsg::Stop)) == Transition::Enter(
            TriggerState::Stopped,
        ),
        run(countdown, state, seq![Input::Control(ControlMsg::Stop)] + inputs).1 == Seq::<
            EventMsg,
        >::empty(),
        run(countdown, state, seq![Input::Control(ControlMsg::Stop)] + inputs).0 is None || run(
            countdown,
            state,
            seq![Input::Control(ControlMsg::Stop)] + inputs,
        ).0 == Some(TriggerState::Stopped),
        transition(countdown, TriggerState::Stopped, Input::Control(ControlMsg::Run))
            == Transition::Enter(TriggerState::Waiting),
        wait_of(params, TriggerState::Waiting) == Wait::Timer(params.timeout.unwrap()),
{
    lemma_run_prepend(countdown, state, Input::Control(ControlMsg::Stop), inputs);
    lemma_stopped_stays(countdown, inputs);
}

} // verus!
