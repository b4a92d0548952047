//! What a run remembers from one control tick to the next.
//!
//! In each tick the program takes the plan of the tick, tells the run what it
//! read from the robot and what the gait did, and gets back what follows from it.
//! `T` is the type of measured values.

use vstd::prelude::*;

use crate::led::brightness;
use crate::led::indicated;
use crate::led::lit;
use crate::led::next_hold;
use crate::led::three_support;
use crate::led::LedIndicator;
use crate::legs::stance_count;
use crate::legs::stance_goes_slot_by_slot;
use crate::legs::support_count;
use crate::schedule::plan_tick;
use crate::schedule::tick_plan;
use crate::schedule::Course;
use crate::schedule::RecordTime;
use crate::schedule::Schedule;
use crate::schedule::Step;
use crate::schedule::TickPlan;

verus! {

/// The state of a run.
pub struct Run<T> {
    schedule: Schedule,
    course: Course,
    stance: [bool; 4],
    rpy: (T, T, T),
    led: Option<LedIndicator>,
}

/// The next tick takes a run from `before` to `after`.
pub open spec fn ticked<T: Copy>(
    before: Run<T>,
    after: Run<T>,
    tick: Option<(Step, TickPlan)>,
) -> bool {
    let plan = before.plan();
    let t = before.position();
    &&& after.plan() == plan
    &&& after.contacts() == before.contacts()
    &&& after.attitude() == before.attitude()
    &&& if t < plan.length() {
        tick == Some((plan.step_at(t), tick_plan(plan, plan.step_at(t)))) && after.position() == t
            + 1
    } else {
        tick is None && after.position() == t
    }
}

/// A state of the robot takes a run from `before` to `after`, and is understood
/// under the contact schedule `under`.
pub open spec fn state_seen<T: Copy>(
    before: Run<T>,
    after: Run<T>,
    rpy: (T, T, T),
    under: Seq<bool>,
) -> bool {
    &&& after.plan() == before.plan()
    &&& after.position() == before.position()
    &&& after.contacts() == before.contacts()
    &&& after.attitude() == rpy
    &&& under == before.contacts()
}

/// A tick of the gait takes a run from `before` to `after`, and gives what is to be
/// sent to the LED.
pub open spec fn gait_moved<T: Copy>(
    before: Run<T>,
    after: Run<T>,
    stance: Seq<bool>,
    ahead: int,
    send: Option<i32>,
) -> bool {
    &&& after.plan() == before.plan()
    &&& after.position() == before.position()
    &&& after.contacts() == stance
    &&& after.attitude() == before.attitude()
    &&& match (before.indicator(), after.indicator()) {
        (Some(led), Some(next)) => indicated(led, next, stance_count(stance) as int, ahead, send),
        (None, None) => send is None,
        _ => false,
    }
}

impl<T: Copy> Run<T> {
    /// The schedule of the run.
    pub closed spec fn plan(self) -> Schedule {
        self.schedule
    }

    /// How many ticks have gone by.
    pub closed spec fn position(self) -> int {
        self.course.position()
    }

    /// The contact schedule of the latest tick of the gait.
    pub closed spec fn contacts(self) -> Seq<bool> {
        self.stance@
    }

    /// The attitude that was measured last: roll, pitch, yaw.
    pub closed spec fn attitude(self) -> (T, T, T) {
        self.rpy
    }

    /// The indicator of three-leg support, if it is in use.
    pub closed spec fn indicator(self) -> Option<LedIndicator> {
        self.led
    }

    /// The run goes through its own schedule.
    pub closed spec fn wf(self) -> bool {
        self.course.plan() == self.schedule && self.schedule.wf()
    }

    /// A run at its beginning: all legs on the ground, in the given attitude.
    /// `margin` is that of the indicator, if it is in use.
    pub fn new(schedule: Schedule, rpy: (T, T, T), margin: Option<u32>) -> (r: Run<T>)
        requires
            schedule.wf(),
        ensures
            r.wf(),
            r.plan() == schedule,
            r.position() == 0,
            r.contacts() == seq![true, true, true, true],
            r.attitude() == rpy,
            match margin {
                None => r.indicator() is None,
                Some(ticks) => r.indicator() matches Some(led) && led.margin() == ticks && led.hold()
                    == 0 && led.sent() is None,
            },
    {
        let led: Option<LedIndicator> = match margin {
            Some(ticks) => Some(LedIndicator::new(ticks)),
            None => None,
        };
        let stance: [bool; 4] = [true, true, true, true];
        assert(stance@ =~= seq![true, true, true, true]);
        Run { schedule, course: Course::new(schedule), stance, rpy, led }
    }

    /// A tick of the look ahead before the first control tick, with the number of
    /// legs that it shows on the ground.
    pub fn foresee(&mut self, ahead: usize)
        requires
            old(self).wf(),
        ensures
            final(self).wf(),
            final(self).plan() == old(self).plan(),
            final(self).position() == old(self).position(),
            final(self).contacts() == old(self).contacts(),
            final(self).attitude() == old(self).attitude(),
            match old(self).indicator() {
                None => final(self).indicator() is None,
                Some(led) => final(self).indicator() matches Some(next) && next.margin()
                    == led.margin() && next.hold() == next_hold(
                    led.margin(),
                    led.hold(),
                    ahead == 3,
                ) && next.sent() == led.sent(),
            },
    {
        match self.led {
            Some(indicator) => {
                let mut led: LedIndicator = indicator;
                led.foresee(ahead);
                self.led = Some(led);
            },
            None => {},
        }
    }

    /// The next tick with its plan, `None` when the run is over.
    pub fn next_tick(&mut self) -> (r: Option<(Step, TickPlan)>)
        requires
            old(self).wf(),
        ensures
            final(self).wf(),
            final(self).plan() == old(self).plan(),
            final(self).contacts() == old(self).contacts(),
            final(self).attitude() == old(self).attitude(),
            final(self).indicator() == old(self).indicator(),
            ({
                let plan = old(self).plan();
                let t = old(self).position();
                if t < plan.length() {
                    r == Some((plan.step_at(t), tick_plan(plan, plan.step_at(t))))
                        && final(self).position() == t + 1
                } else {
                    r is None && final(self).position() == t
                }
            }),
            ticked(*old(self), *final(self), r),
    {
        match self.course.advance() {
            Some(step) => Some((step, plan_tick(&self.schedule, step))),
            None => None,
        }
    }

    /// A state of the robot came in. Gives the contact schedule under which it is
    /// to be understood: that of the tick before.
    pub fn saw(&mut self, rpy: (T, T, T)) -> (r: [bool; 4])
        requires
            old(self).wf(),
        ensures
            final(self).wf(),
            final(self).plan() == old(self).plan(),
            final(self).position() == old(self).position(),
            final(self).contacts() == old(self).contacts(),
            final(self).attitude() == rpy,
            final(self).indicator() == old(self).indicator(),
            r@ == old(self).contacts(),
            state_seen(*old(self), *final(self), rpy, r@),
    {
        self.rpy = rpy;
        self.stance
    }

    /// The gait has moved on by a tick. `ahead` is the number of legs that will be
    /// on the ground a margin later. Gives the brightness to send to the LED, if
    /// the indicator is in use and it changes.
    pub fn walked(&mut self, stance: [bool; 4], ahead: usize) -> (r: Option<i32>)
        requires
            old(self).wf(),
        ensures
            final(self).wf(),
            final(self).plan() == old(self).plan(),
            final(self).position() == old(self).position(),
            final(self).contacts() == stance@,
            final(self).attitude() == old(self).attitude(),
            match old(self).indicator() {
                None => r is None && final(self).indicator() is None,
                Some(led) => {
                    let trigger = three_support(stance_count(stance@) as int, ahead as int);
                    let hold = next_hold(led.margin(), led.hold(), trigger);
                    let want = brightness(lit(led.hold(), trigger));
                    &&& final(self).indicator() matches Some(next) && next.margin() == led.margin()
                        && next.hold() == hold && next.sent() == Some(want)
                    &&& r == (if led.sent() == Some(want) {
                        None
                    } else {
                        Some(want)
                    })
                },
            },
            gait_moved(*old(self), *final(self), stance@, ahead as int, r),
    {
        self.stance = stance;
        let now: usize = support_count(&stance);
        match self.led {
            Some(indicator) => {
                let mut led: LedIndicator = indicator;
                let r: Option<i32> = led.tick(now, ahead);
                self.led = Some(led);
                r
            },
            None => None,
        }
    }

    /// The attitude that was measured last.
    pub fn rpy(&self) -> (r: (T, T, T))
        ensures
            r == self.attitude(),
    {
        self.rpy
    }
}

/// The time under which a tick is recorded: its planned one, if a state of the
/// robot came in.
pub fn recorded(plan: &TickPlan, came: bool) -> (r: Option<RecordTime>)
    ensures
        r == (if came {
            plan.record
        } else {
            None
        }),
{
    if came {
        plan.record
    } else {
        None
    }
}

/// A run goes through its schedule tick by tick: the `i`-th tick asked of it is the
/// `i`-th tick of the schedule, with the plan for it, and after the last there is
/// none. `runs` are the states of the run, from its beginning on.
pub proof fn ticks_come_in_order<T: Copy>(
    runs: Seq<Run<T>>,
    ticks: Seq<Option<(Step, TickPlan)>>,
    n: nat,
)
    requires
        runs.len() == n + 1,
        ticks.len() == n,
        runs[0].position() == 0,
        runs[0].plan().wf(),
        forall|i: int| 0 <= i < n ==> ticked(runs[i], runs[i + 1], #[trigger] ticks[i]),
    ensures
        runs[n as int].plan() == runs[0].plan(),
        runs[n as int].position() == (if n < runs[0].plan().length() {
            n as int
        } else {
            runs[0].plan().length()
        }),
        forall|i: int|
            0 <= i < n ==> (#[trigger] ticks[i] is Some <==> i < runs[0].plan().length()),
        forall|i: int|
            0 <= i < n && i < runs[0].plan().length() ==> #[trigger] ticks[i] == Some(
                (
                    runs[0].plan().step_at(i),
                    tick_plan(runs[0].plan(), runs[0].plan().step_at(i)),
                ),
            ),
    decreases n,
{
    if n > 0 {
        let k = (n - 1) as nat;
        let r = runs.drop_last();
        let t = ticks.drop_last();
        assert forall|i: int| 0 <= i < k implies ticked(r[i], r[i + 1], #[trigger] t[i]) by {
            assert(ticks[i] == t[i]);
        }
        ticks_come_in_order(r, t, k);
        assert(ticked(runs[n - 1], runs[n - 1 + 1], ticks[n - 1]));
        assert forall|i: int| 0 <= i < k implies #[trigger] ticks[i] == t[i] by {
        }
    }
}

/// A state of the robot is understood under the contacts that the gait had in the
/// tick before it, and is the attitude that counts from then on.
pub proof fn states_are_understood_under_the_tick_before<T: Copy>(
    start: Run<T>,
    moved: Run<T>,
    next: Run<T>,
    seen: Run<T>,
    stance: Seq<bool>,
    ahead: int,
    send: Option<i32>,
    tick: Option<(Step, TickPlan)>,
    rpy: (T, T, T),
    under: Seq<bool>,
)
    requires
        gait_moved(start, moved, stance, ahead, send),
        ticked(moved, next, tick),
        state_seen(next, seen, rpy, under),
    ensures
        under == stance,
        seen.contacts() == stance,
        seen.attitude() == rpy,
        next.attitude() == start.attitude(),
{
}

/// The indicator goes by the legs that the gait has on the ground: with exactly
/// three of them there now, or three a margin ahead, or a light still held, the LED
/// is at full brightness, and otherwise dark; it is called where that changes.
pub proof fn three_legs_on_the_ground_are_shown<T: Copy>(
    before: Run<T>,
    after: Run<T>,
    stance: Seq<bool>,
    ahead: int,
    send: Option<i32>,
)
    requires
        gait_moved(before, after, stance, ahead, send),
        stance.len() == 4,
        before.indicator() is Some,
    ensures
        ({
            let now = (if stance[0] { 1int } else { 0 }) + (if stance[1] { 1int } else { 0 }) + (
            if stance[2] { 1int } else { 0 }) + (if stance[3] { 1int } else { 0 });
            let led = before.indicator()->0;
            &&& after.indicator() matches Some(next)
            &&& now == 3 || ahead == 3 || led.hold() > 0 ==> next.sent() == Some(10i32)
            &&& now != 3 && ahead != 3 && led.hold() == 0 ==> next.sent() == Some(0i32)
            &&& now == 3 || ahead == 3 ==> next.hold() == led.margin()
            &&& send is Some <==> next.sent() != led.sent()
            &&& send is Some ==> send == next.sent()
        }),
{
    stance_goes_slot_by_slot(stance);
}

} // verus!
