//! Timing decisions of the receive loop.
//!
//! One thread calls `td_receive`; Ctrl-C only flips a flag. Before each
//! wait the loop asks [`before_receive`] what to do: forward an interrupt,
//! start or enforce the close deadline, and give up on authorization or on
//! chat titles when their time runs out. The caller performs the steps in
//! order and stops at the first one that exits.

use vstd::prelude::*;
use std::time::Duration;
use crate::driver::{
    interrupt_spec, is_closing_phase, timeout_spec, Driver, DriverModel, Effect, EffectView,
    TimeoutKind,
};

verus! {

pub struct RunOptions {
    pub verbosity: i32,
    pub debug: bool,
    pub auth_timeout: Duration,
    pub chat_timeout: Duration,
    pub close_timeout: Duration,
}

/// The whole milliseconds in a `Duration`, as `Duration::as_millis` gives
/// them.
pub uninterp spec fn duration_millis(d: Duration) -> u128;

/// `Duration::as_millis`: the total number of whole milliseconds of the
/// duration, a function of the duration alone. The number itself is left to
/// the name.
#[verifier::external_body]
fn as_millis(d: Duration) -> (r: u128)
    ensures
        r == duration_millis(d),
{
    d.as_millis()
}

/// Milliseconds of a duration, saturated to `u64`.
pub open spec fn saturated_millis(d: Duration) -> u64 {
    if duration_millis(d) > u64::MAX as u128 { u64::MAX } else { duration_millis(d) as u64 }
}

/// Milliseconds of a wait, saturated to `u64`.
fn millis(d: Duration) -> (r: u64)
    ensures
        r == saturated_millis(d),
{
    let ms = as_millis(d);
    if ms > u64::MAX as u128 { u64::MAX } else { ms as u64 }
}

/// The loop's three waits, in milliseconds.
#[derive(Clone, Copy, Debug, PartialEq, Eq, Structural)]
pub struct LoopLimits {
    pub auth_ms: u64,
    pub chat_ms: u64,
    pub close_ms: u64,
}

impl RunOptions {
    /// The waits of these options in milliseconds.
    pub fn limits(&self) -> (r: LoopLimits)
        ensures
            r.auth_ms == saturated_millis(self.auth_timeout),
            r.chat_ms == saturated_millis(self.chat_timeout),
            r.close_ms == saturated_millis(self.close_timeout),
    {
        LoopLimits {
            auth_ms: millis(self.auth_timeout),
            chat_ms: millis(self.chat_timeout),
            close_ms: millis(self.close_timeout),
        }
    }
}

/// When the chat list started to be collected and when the close gives
/// up, in milliseconds since the loop started.
#[derive(Clone, Copy, Debug, PartialEq, Eq, Structural)]
pub struct LoopTimers {
    pub collecting_since: Option<u64>,
    pub close_deadline: Option<u64>,
}

impl LoopTimers {
    pub fn new() -> (t: Self)
        ensures
            t.collecting_since is None,
            t.close_deadline is None,
    {
        LoopTimers { collecting_since: None, close_deadline: None }
    }
}

/// One thing the loop does before it waits for the next event.
#[derive(Debug)]
pub enum LoopStep {
    /// Print the effect's lines, send its requests, and exit when it says so.
    Dispatch(Effect),
    /// Print a line.
    Emit(String),
    /// Exit with this code.
    Exit(i32),
}

pub enum StepView {
    Dispatch(EffectView),
    Emit(Seq<char>),
    Exit(i32),
}

impl View for LoopStep {
    type V = StepView;

    open spec fn view(&self) -> StepView {
        match self {
            LoopStep::Dispatch(e) => StepView::Dispatch(e@),
            LoopStep::Emit(s) => StepView::Emit(s@),
            LoopStep::Exit(c) => StepView::Exit(*c),
        }
    }
}

pub open spec fn steps_view(v: Seq<LoopStep>) -> Seq<StepView> {
    v.map_values(|s: LoopStep| s@)
}

/// Printed when the close deadline passes.
pub const CLOSE_TIMED_OUT: &'static str = "close timed out; exiting";

/// The loop's state part way through one check: the driver, the timers,
/// the steps so far, and whether a step already exits.
pub struct TickView {
    pub driver: DriverModel,
    pub timers: LoopTimers,
    pub steps: Seq<StepView>,
    pub done: bool,
}

/// A dispatched effect ends the check when it exits.
pub open spec fn dispatched(t: TickView, next: (DriverModel, EffectView)) -> TickView {
    TickView {
        driver: next.0,
        timers: t.timers,
        steps: t.steps.push(StepView::Dispatch(next.1)),
        done: next.1.exit is Some,
    }
}

/// `a + b`, or `u64::MAX` when that overflows.
pub open spec fn saturating_add(a: u64, b: u64) -> u64 {
    if a + b > u64::MAX { u64::MAX } else { (a + b) as u64 }
}

pub open spec fn exit_code(s: DriverModel) -> i32 {
    match s.pending_code {
        Some(c) => c,
        None => 1i32,
    }
}

/// Ctrl-C was pressed: the driver closes.
pub open spec fn tick_interrupt(t: TickView, stop: bool) -> TickView {
    if stop { dispatched(t, interrupt_spec(t.driver)) } else { t }
}

/// Once closing, the close deadline is set once; past it the loop exits
/// with the code decided so far.
pub open spec fn tick_close(t: TickView, now: u64, limits: LoopLimits) -> TickView {
    if t.done {
        t
    } else {
        let timers = if is_closing_phase(t.driver.phase) && t.timers.close_deadline is None {
            LoopTimers { close_deadline: Some(saturating_add(now, limits.close_ms)), ..t.timers }
        } else {
            t.timers
        };
        match timers.close_deadline {
            Some(d) if now >= d => TickView {
                timers,
                steps: t.steps.push(StepView::Emit(CLOSE_TIMED_OUT@)).push(StepView::Exit(exit_code(t.driver))),
                done: true,
                ..t
            },
            _ => TickView { timers, ..t },
        }
    }
}

/// Authorization that is not ready in time gives up.
pub open spec fn tick_auth(t: TickView, now: u64, limits: LoopLimits) -> TickView {
    if !t.done && !t.driver.saw_ready && !is_closing_phase(t.driver.phase) && now >= limits.auth_ms {
        dispatched(t, timeout_spec(t.driver, TimeoutKind::Auth))
    } else {
        t
    }
}

/// Collecting starts its clock when Ready is first seen; titles that do not
/// arrive in time are printed as they are.
pub open spec fn tick_chats(t: TickView, now: u64, limits: LoopLimits) -> TickView {
    if t.done {
        t
    } else {
        let timers = if t.driver.saw_ready && t.timers.collecting_since is None {
            LoopTimers { collecting_since: Some(now), ..t.timers }
        } else {
            t.timers
        };
        let t1 = TickView { timers, ..t };
        match timers.collecting_since {
            Some(since) if t.driver.phase is Collecting && now >= since && now - since >= limits.chat_ms =>
                dispatched(t1, timeout_spec(t.driver, TimeoutKind::Chats)),
            _ => t1,
        }
    }
}

/// Everything the loop does before one wait, `now` milliseconds after it
/// started.
pub open spec fn before_receive_spec(s: DriverModel, timers: LoopTimers, now: u64, stop: bool, limits: LoopLimits) -> TickView {
    let t0 = TickView { driver: s, timers, steps: Seq::empty(), done: false };
    tick_chats(tick_auth(tick_close(tick_interrupt(t0, stop), now, limits), now, limits), now, limits)
}

fn push_dispatch(steps: &mut Vec<LoopStep>, e: Effect) -> (done: bool)
    ensures
        steps_view(final(steps)@) == steps_view(old(steps)@).push(StepView::Dispatch(e@)),
        done == e@.exit is Some,
{
    let done = e.exit.is_some();
    let ghost ev = e@;
    let ghost before = steps@;
    steps.push(LoopStep::Dispatch(e));
    assert(steps_view(steps@) =~= steps_view(before).push(StepView::Dispatch(ev)));
    done
}

/// What the loop does before it waits for the next event, `now`
/// milliseconds after it started; `stop` is set once Ctrl-C was pressed.
/// The caller performs the steps in order.
pub fn before_receive(
    driver: &mut Driver,
    timers: &mut LoopTimers,
    now: u64,
    stop: bool,
    limits: LoopLimits,
) -> (steps: Vec<LoopStep>)
    ensures
        ({
            let t = before_receive_spec(old(driver)@, *old(timers), now, stop, limits);
            &&& final(driver)@ == t.driver
            &&& *final(timers) == t.timers
            &&& steps_view(steps@) == t.steps
        }),
{
    let mut steps: Vec<LoopStep> = Vec::new();
    assert(steps_view(steps@) =~= Seq::<StepView>::empty());
    let mut done = false;
    if stop {
        let e = driver.interrupt();
        done = push_dispatch(&mut steps, e);
    }
    if !done {
        if driver.is_closing() && timers.close_deadline.is_none() {
            let d = if now <= u64::MAX - limits.close_ms { now + limits.close_ms } else { u64::MAX };
            timers.close_deadline = Some(d);
        }
        if let Some(d) = timers.close_deadline {
            if now >= d {
                let ghost before = steps@;
                steps.push(LoopStep::Emit(CLOSE_TIMED_OUT.to_owned()));
                steps.push(LoopStep::Exit(driver.pending_code()));
                assert(steps_view(steps@) =~= steps_view(before).push(StepView::Emit(CLOSE_TIMED_OUT@)).push(
                    StepView::Exit(exit_code(driver@)),
                ));
                done = true;
            }
        }
    }
    if !done && !driver.saw_ready() && !driver.is_closing() && now >= limits.auth_ms {
        let e = driver.on_timeout(TimeoutKind::Auth);
        done = push_dispatch(&mut steps, e);
    }
    if !done {
        if driver.saw_ready() && timers.collecting_since.is_none() {
            timers.collecting_since = Some(now);
        }
        if let Some(since) = timers.collecting_since {
            if driver.is_collecting() && now >= since && now - since >= limits.chat_ms {
                let e = driver.on_timeout(TimeoutKind::Chats);
                push_dispatch(&mut steps, e);
            }
        }
    }
    steps
}

} // verus!
