//! The course of a run on the robot, control tick by control tick.
//!
//! A run ramps from the start pose into the stance, walks in place, then (if it
//! is to go forward) accelerates, cruises and decelerates, and finally folds the
//! legs and rests on the ground.

use vstd::prelude::*;

verus! {

/// A part of a run.
#[derive(Clone, Copy, Debug, PartialEq, Eq, Structural)]
pub enum Phase {
    Ramp,
    InPlace,
    Accelerate,
    Cruise,
    Decelerate,
    Fold,
    Rest,
}

/// How many control ticks each part of a run takes. Accelerating and
/// decelerating take equally long.
#[derive(Clone, Copy, Debug)]
pub struct Schedule {
    pub ramp: u64,
    pub in_place: u64,
    pub accelerate: u64,
    pub cruise: u64,
    pub fold: u64,
    pub rest: u64,
    /// Whether the run goes forward at all.
    pub forward: bool,
}

/// One control tick of a run: the `index`-th of the `total` ticks of its phase.
#[derive(Clone, Copy, Debug, PartialEq, Eq, Structural)]
pub struct Step {
    pub phase: Phase,
    pub index: u64,
    pub total: u64,
}

/// A duration takes a whole number of ticks, and at least one.
pub open spec fn at_least_one(ticks: u64) -> u64 {
    if ticks == 0 {
        1
    } else {
        ticks
    }
}

impl Schedule {
    /// Every part takes at least one tick.
    pub open spec fn wf(self) -> bool {
        &&& self.ramp > 0
        &&& self.in_place > 0
        &&& self.accelerate > 0
        &&& self.cruise > 0
        &&& self.fold > 0
        &&& self.rest > 0
    }

    /// How many ticks a part takes when the run comes to it.
    pub open spec fn ticks(self, phase: Phase) -> u64 {
        match phase {
            Phase::Ramp => self.ramp,
            Phase::InPlace => self.in_place,
            Phase::Accelerate => self.accelerate,
            Phase::Cruise => self.cruise,
            Phase::Decelerate => self.accelerate,
            Phase::Fold => self.fold,
            Phase::Rest => self.rest,
        }
    }

    /// The tick at which a part begins.
    pub open spec fn start(self, phase: Phase) -> int {
        let walk = self.ramp + self.in_place;
        let stop = if self.forward {
            walk + self.accelerate + self.cruise + self.accelerate
        } else {
            walk
        };
        match phase {
            Phase::Ramp => 0,
            Phase::InPlace => self.ramp as int,
            Phase::Accelerate => walk,
            Phase::Cruise => walk + self.accelerate,
            Phase::Decelerate => walk + self.accelerate + self.cruise,
            Phase::Fold => stop,
            Phase::Rest => stop + self.fold,
        }
    }

    /// The number of ticks of the whole run.
    pub open spec fn length(self) -> int {
        self.start(Phase::Rest) + self.rest
    }

    /// The part that comes after a part.
    pub open spec fn after(self, phase: Phase) -> Option<Phase> {
        match phase {
            Phase::Ramp => Some(Phase::InPlace),
            Phase::InPlace => Some(
                if self.forward {
                    Phase::Accelerate
                } else {
                    Phase::Fold
                },
            ),
            Phase::Accelerate => Some(Phase::Cruise),
            Phase::Cruise => Some(Phase::Decelerate),
            Phase::Decelerate => Some(Phase::Fold),
            Phase::Fold => Some(Phase::Rest),
            Phase::Rest => None,
        }
    }

    /// Which part a tick of the run belongs to.
    pub open spec fn phase_at(self, t: int) -> Phase {
        if t < self.start(Phase::InPlace) {
            Phase::Ramp
        } else if t < self.start(Phase::InPlace) + self.in_place {
            Phase::InPlace
        } else if self.forward && t < self.start(Phase::Cruise) {
            Phase::Accelerate
        } else if self.forward && t < self.start(Phase::Decelerate) {
            Phase::Cruise
        } else if self.forward && t < self.start(Phase::Fold) {
            Phase::Decelerate
        } else if t < self.start(Phase::Rest) {
            Phase::Fold
        } else {
            Phase::Rest
        }
    }

    /// A tick of the run.
    pub open spec fn step_at(self, t: int) -> Step {
        let phase = self.phase_at(t);
        Step { phase, index: (t - self.start(phase)) as u64, total: self.ticks(phase) }
    }

    /// A schedule from the rounded numbers of ticks.
    pub fn new(
        ramp: u64,
        in_place: u64,
        accelerate: u64,
        cruise: u64,
        fold: u64,
        rest: u64,
        forward: bool,
    ) -> (r: Schedule)
        ensures
            r.wf(),
            r.ramp == at_least_one(ramp),
            r.in_place == at_least_one(in_place),
            r.accelerate == at_least_one(accelerate),
            r.cruise == at_least_one(cruise),
            r.fold == at_least_one(fold),
            r.rest == at_least_one(rest),
            r.forward == forward,
            ramp > 0 ==> r.ramp == ramp,
            in_place > 0 ==> r.in_place == in_place,
            accelerate > 0 ==> r.accelerate == accelerate,
            cruise > 0 ==> r.cruise == cruise,
            fold > 0 ==> r.fold == fold,
            rest > 0 ==> r.rest == rest,
            ramp == 0 ==> r.ramp == 1,
            in_place == 0 ==> r.in_place == 1,
            accelerate == 0 ==> r.accelerate == 1,
            cruise == 0 ==> r.cruise == 1,
            fold == 0 ==> r.fold == 1,
            rest == 0 ==> r.rest == 1,
    {
        Schedule {
            ramp: one_or_more(ramp),
            in_place: one_or_more(in_place),
            accelerate: one_or_more(accelerate),
            cruise: one_or_more(cruise),
            fold: one_or_more(fold),
            rest: one_or_more(rest),
            forward,
        }
    }

    fn ticks_of(&self, phase: Phase) -> (r: u64)
        ensures
            r == self.ticks(phase),
    {
        match phase {
            Phase::Ramp => self.ramp,
            Phase::InPlace => self.in_place,
            Phase::Accelerate => self.accelerate,
            Phase::Cruise => self.cruise,
            Phase::Decelerate => self.accelerate,
            Phase::Fold => self.fold,
            Phase::Rest => self.rest,
        }
    }

    fn phase_after(&self, phase: Phase) -> (r: Option<Phase>)
        ensures
            r == self.after(phase),
    {
        match phase {
            Phase::Ramp => Some(Phase::InPlace),
            Phase::InPlace => if self.forward {
                Some(Phase::Accelerate)
            } else {
                Some(Phase::Fold)
            },
            Phase::Accelerate => Some(Phase::Cruise),
            Phase::Cruise => Some(Phase::Decelerate),
            Phase::Decelerate => Some(Phase::Fold),
            Phase::Fold => Some(Phase::Rest),
            Phase::Rest => None,
        }
    }
}

fn one_or_more(ticks: u64) -> (r: u64)
    ensures
        r == at_least_one(ticks),
{
    if ticks == 0 {
        1
    } else {
        ticks
    }
}

/// Goes through the ticks of a run.
pub struct Course {
    schedule: Schedule,
    phase: Option<Phase>,
    index: u64,
}

impl Course {
    #[verifier::type_invariant]
    spec fn on_course(self) -> bool {
        &&& self.schedule.wf()
        &&& match self.phase {
            Some(phase) => {
                &&& self.index < self.schedule.ticks(phase)
                &&& !self.schedule.forward ==> phase != Phase::Accelerate && phase
                    != Phase::Cruise && phase != Phase::Decelerate
            },
            None => true,
        }
    }

    /// The schedule of the run.
    pub closed spec fn plan(self) -> Schedule {
        self.schedule
    }

    /// How many ticks have gone by.
    pub closed spec fn position(self) -> int {
        match self.phase {
            Some(phase) => self.schedule.start(phase) + self.index,
            None => self.schedule.length(),
        }
    }

    /// A run at its beginning.
    pub fn new(schedule: Schedule) -> (r: Course)
        requires
            schedule.wf(),
        ensures
            r.plan() == schedule,
            r.position() == 0,
    {
        Course { schedule, phase: Some(Phase::Ramp), index: 0 }
    }

    /// The next tick of the run, `None` when it is over.
    pub fn advance(&mut self) -> (r: Option<Step>)
        ensures
            final(self).plan() == old(self).plan(),
            ({
                let plan = old(self).plan();
                let t = old(self).position();
                if t < plan.length() {
                    r == Some(plan.step_at(t)) && final(self).position() == t + 1
                } else {
                    r is None && final(self).position() == t
                }
            }),
    {
        proof {
            use_type_invariant(&*self);
        }
        let phase: Phase = match self.phase {
            Some(phase) => phase,
            None => {
                return None;
            },
        };
        let total: u64 = self.schedule.ticks_of(phase);
        let step: Step = Step { phase, index: self.index, total };
        let schedule: Schedule = self.schedule;
        if self.index + 1 < total {
            *self = Course { schedule, phase: Some(phase), index: self.index + 1 };
        } else {
            *self = Course { schedule, phase: schedule.phase_after(phase), index: 0 };
        }
        Some(step)
    }
}

/// What the joints are commanded to.
#[derive(Clone, Copy, Debug, PartialEq, Eq, Structural)]
pub enum Pose {
    /// On the way from the start pose to the stance.
    IntoStance,
    /// As the gait has it.
    Gait,
    /// On the way from the last gait pose to the lying pose.
    IntoLying,
    /// The lying pose.
    Lying,
}

/// A part of a whole.
#[derive(Clone, Copy, Debug, PartialEq, Eq, Structural)]
pub enum Share {
    /// Nothing of it.
    Zero,
    /// `index` of `total`, rising.
    Rising { index: u64, total: u64 },
    /// All of it.
    Full,
    /// What `index` of `total` leaves, falling.
    Falling { index: u64, total: u64 },
}

impl Share {
    /// The share in parts of `unit`, where the share is given in such parts or is
    /// nothing or all.
    pub open spec fn parts(self, unit: int) -> int {
        match self {
            Share::Zero => 0,
            Share::Rising { index, total } => index as int,
            Share::Full => unit,
            Share::Falling { index, total } => total - index,
        }
    }
}

/// The time of a recorded tick: the whole parts before it and the ticks of its
/// own part.
#[derive(Clone, Copy, Debug, PartialEq, Eq, Structural)]
pub struct RecordTime {
    /// Whether the run goes forward by then.
    pub forward: bool,
    /// Ticks of walking in place that went before.
    pub in_place_before: u64,
    /// Ticks of acceleration that went before.
    pub accelerate_before: u64,
    /// Ticks of cruising that went before.
    pub cruise_before: u64,
    pub index: u64,
}

impl RecordTime {
    /// The number of recorded ticks before this one.
    pub open spec fn ticks(self) -> int {
        self.in_place_before + self.accelerate_before + self.cruise_before + self.index
    }

    /// The label under which the tick is recorded.
    pub fn label(&self) -> (r: &'static str)
        ensures
            r@ == (if self.forward {
                "C"@
            } else {
                "B"@
            }),
    {
        if self.forward {
            "C"
        } else {
            "B"
        }
    }
}

/// What is done in a control tick.
#[derive(Clone, Copy, Debug, PartialEq, Eq, Structural)]
pub struct TickPlan {
    pub pose: Pose,
    /// Whether the gait moves on by one tick first, for the pose that is left.
    pub capture: bool,
    /// How far a pose that is on its way has come, and how much of the position
    /// gain is applied.
    pub blend: Share,
    pub gain: Share,
    /// The share of the target speed to command, where the command is set anew.
    pub velocity: Option<Share>,
    /// Whether the robot's state is read before the gait moves on.
    pub poll: bool,
    /// Whether the legs may be given torques that support the body.
    pub supported: bool,
    /// The time under which the state is recorded, if it is.
    pub record: Option<RecordTime>,
}

/// The gait drives the legs in this part.
pub open spec fn walks(phase: Phase) -> bool {
    match phase {
        Phase::InPlace | Phase::Accelerate | Phase::Cruise | Phase::Decelerate => true,
        _ => false,
    }
}

/// The share of the target speed that holds during a step of walking.
pub open spec fn speed_share(step: Step) -> Share {
    match step.phase {
        Phase::Accelerate => Share::Rising { index: step.index, total: step.total },
        Phase::Cruise => Share::Full,
        Phase::Decelerate => Share::Falling { index: step.index, total: step.total },
        _ => Share::Zero,
    }
}

/// The speed command is set anew: at the first tick of a steady part, and at
/// every tick of a changing one.
pub open spec fn sets_speed(step: Step) -> bool {
    match step.phase {
        Phase::InPlace | Phase::Cruise => step.index == 0,
        Phase::Accelerate | Phase::Decelerate => true,
        _ => false,
    }
}

/// The time under which a step is recorded.
pub open spec fn record_time(plan: Schedule, step: Step) -> Option<RecordTime> {
    match step.phase {
        Phase::InPlace => Some(
            RecordTime {
                forward: false,
                in_place_before: 0,
                accelerate_before: 0,
                cruise_before: 0,
                index: step.index,
            },
        ),
        Phase::Accelerate => Some(
            RecordTime {
                forward: true,
                in_place_before: plan.in_place,
                accelerate_before: 0,
                cruise_before: 0,
                index: step.index,
            },
        ),
        Phase::Cruise => Some(
            RecordTime {
                forward: true,
                in_place_before: plan.in_place,
                accelerate_before: plan.accelerate,
                cruise_before: 0,
                index: step.index,
            },
        ),
        Phase::Decelerate => Some(
            RecordTime {
                forward: true,
                in_place_before: plan.in_place,
                accelerate_before: plan.accelerate,
                cruise_before: plan.cruise,
                index: step.index,
            },
        ),
        _ => None,
    }
}

/// What is done in a step of a run.
pub open spec fn tick_plan(plan: Schedule, step: Step) -> TickPlan {
    let rising = Share::Rising { index: step.index, total: step.total };
    TickPlan {
        pose: match step.phase {
            Phase::Ramp => Pose::IntoStance,
            Phase::Fold => Pose::IntoLying,
            Phase::Rest => Pose::Lying,
            _ => Pose::Gait,
        },
        capture: step.phase == Phase::Fold && step.index == 0,
        blend: match step.phase {
            Phase::Ramp | Phase::Fold => rising,
            _ => Share::Full,
        },
        gain: match step.phase {
            Phase::Ramp => rising,
            _ => Share::Full,
        },
        velocity: if sets_speed(step) {
            Some(speed_share(step))
        } else {
            None
        },
        poll: walks(step.phase),
        supported: walks(step.phase),
        record: record_time(plan, step),
    }
}

/// What is done in a step of a run.
pub fn plan_tick(schedule: &Schedule, step: Step) -> (r: TickPlan)
    ensures
        r == tick_plan(*schedule, step),
{
    let rising: Share = Share::Rising { index: step.index, total: step.total };
    let falling: Share = Share::Falling { index: step.index, total: step.total };
    let first: bool = step.index == 0;
    match step.phase {
        Phase::Ramp => TickPlan {
            pose: Pose::IntoStance,
            capture: false,
            blend: rising,
            gain: rising,
            velocity: None,
            poll: false,
            supported: false,
            record: None,
        },
        Phase::InPlace => TickPlan {
            pose: Pose::Gait,
            capture: false,
            blend: Share::Full,
            gain: Share::Full,
            velocity: if first {
                Some(Share::Zero)
            } else {
                None
            },
            poll: true,
            supported: true,
            record: Some(
                RecordTime {
                    forward: false,
                    in_place_before: 0,
                    accelerate_before: 0,
                    cruise_before: 0,
                    index: step.index,
                },
            ),
        },
        Phase::Accelerate => TickPlan {
            pose: Pose::Gait,
            capture: false,
            blend: Share::Full,
            gain: Share::Full,
            velocity: Some(rising),
            poll: true,
            supported: true,
            record: Some(
                RecordTime {
                    forward: true,
                    in_place_before: schedule.in_place,
                    accelerate_before: 0,
                    cruise_before: 0,
                    index: step.index,
                },
            ),
        },
        Phase::Cruise => TickPlan {
            pose: Pose::Gait,
            capture: false,
            blend: Share::Full,
            gain: Share::Full,
            velocity: if first {
                Some(Share::Full)
            } else {
                None
            },
            poll: true,
            supported: true,
            record: Some(
                RecordTime {
                    forward: true,
                    in_place_before: schedule.in_place,
                    accelerate_before: schedule.accelerate,
                    cruise_before: 0,
                    index: step.index,
                },
            ),
        },
        Phase::Decelerate => TickPlan {
            pose: Pose::Gait,
            capture: false,
            blend: Share::Full,
            gain: Share::Full,
            velocity: Some(falling),
            poll: true,
            supported: true,
            record: Some(
                RecordTime {
                    forward: true,
                    in_place_before: schedule.in_place,
                    accelerate_before: schedule.accelerate,
                    cruise_before: schedule.cruise,
                    index: step.index,
                },
            ),
        },
        Phase::Fold => TickPlan {
            pose: Pose::IntoLying,
            capture: first,
            blend: rising,
            gain: Share::Full,
            velocity: None,
            poll: false,
            supported: false,
            record: None,
        },
        Phase::Rest => TickPlan {
            pose: Pose::Lying,
            capture: false,
            blend: Share::Full,
            gain: Share::Full,
            velocity: None,
            poll: false,
            supported: false,
            record: None,
        },
    }
}

/// The ticks of a run follow one another without gaps: within a part the index
/// counts up, and a part is followed by the next one from its first tick.
pub proof fn ticks_follow_one_another(plan: Schedule, t: int)
    requires
        plan.wf(),
        0 <= t < plan.length(),
    ensures
        plan.step_at(t).index < plan.step_at(t).total,
        plan.step_at(t).total == plan.ticks(plan.step_at(t).phase),
        t + 1 < plan.length() ==> {
            let now = plan.step_at(t);
            let next = plan.step_at(t + 1);
            if now.index + 1 < now.total {
                next.phase == now.phase && next.index == now.index + 1
            } else {
                plan.after(now.phase) == Some(next.phase) && next.index == 0
            }
        },
{
}

/// A run takes as many ticks as its parts together, and goes through
/// accelerating, cruising and decelerating only if it is to go forward.
pub proof fn runs_take_the_sum_of_their_parts(plan: Schedule)
    ensures
        plan.length() == plan.ramp + plan.in_place + (if plan.forward {
            2 * plan.accelerate + plan.cruise
        } else {
            0
        }) + plan.fold + plan.rest,
{
}

/// A run begins with the ramp at zero gain and ends at rest in the lying pose.
pub proof fn runs_begin_limp_and_end_lying(plan: Schedule)
    requires
        plan.wf(),
    ensures
        tick_plan(plan, plan.step_at(0)).pose == Pose::IntoStance,
        tick_plan(plan, plan.step_at(0)).gain.parts(plan.ramp as int) == 0,
        tick_plan(plan, plan.step_at(plan.length() - 1)).pose == Pose::Lying,
{
}

/// The position gain never falls during a run.
pub proof fn gain_never_falls(plan: Schedule, t: int)
    requires
        plan.wf(),
        0 <= t,
        t + 1 < plan.length(),
    ensures
        tick_plan(plan, plan.step_at(t)).gain.parts(plan.ramp as int) <= tick_plan(
            plan,
            plan.step_at(t + 1),
        ).gain.parts(plan.ramp as int),
{
}

/// The commanded speed starts from nothing, stays between nothing and the target,
/// and changes from tick to tick by at most one part of the acceleration.
pub proof fn speed_changes_gently(plan: Schedule, t: int)
    requires
        plan.wf(),
        0 <= t < plan.length(),
        walks(plan.step_at(t).phase),
    ensures
        ({
            let unit = plan.accelerate as int;
            let now = speed_share(plan.step_at(t)).parts(unit);
            let next = speed_share(plan.step_at(t + 1)).parts(unit);
            &&& 0 <= now <= unit
            &&& t == plan.ramp ==> now == 0
            &&& walks(plan.step_at(t + 1).phase) ==> -1 <= next - now <= 1
        }),
{
}

/// The speed command that was set last is the share that holds during a step of
/// walking.
pub proof fn last_speed_command_holds(plan: Schedule, t: int, u: int)
    requires
        plan.wf(),
        0 <= u <= t < plan.length(),
        walks(plan.step_at(t).phase),
        sets_speed(plan.step_at(u)),
        forall|v: int| u < v <= t ==> !sets_speed(#[trigger] plan.step_at(v)),
    ensures
        speed_share(plan.step_at(t)) == speed_share(plan.step_at(u)),
    decreases t - u,
{
    if u < t {
        assert(!sets_speed(plan.step_at(t)));
        if t - 1 > u {
            assert(!sets_speed(plan.step_at(t - 1)));
        }
        last_speed_command_holds(plan, t - 1, u);
    }
}

/// A run that is not to go forward never sets a speed other than zero.
pub proof fn no_forward_no_speed(plan: Schedule, t: int)
    requires
        plan.wf(),
        !plan.forward,
        0 <= t < plan.length(),
    ensures
        tick_plan(plan, plan.step_at(t)).velocity matches Some(share) ==> share == Share::Zero,
{
}

/// The pose that is left for the lying pose is taken once, when the gait is over.
pub proof fn pose_is_taken_once(plan: Schedule, t: int)
    requires
        plan.wf(),
        0 <= t < plan.length(),
    ensures
        tick_plan(plan, plan.step_at(t)).capture <==> t == plan.start(Phase::Fold),
        walks(plan.step_at(t).phase) ==> t < plan.start(Phase::Fold),
{
}

/// Recorded time runs on without gaps: the recorded ticks are all those of
/// walking, from the end of the ramp to the fold, and the time of each is the
/// number of recorded ticks before it.
pub proof fn recorded_time_is_continuous(plan: Schedule, t: int)
    requires
        plan.wf(),
        0 <= t < plan.length(),
    ensures
        ({
            let record = tick_plan(plan, plan.step_at(t)).record;
            &&& record is Some <==> plan.ramp <= t < plan.start(Phase::Fold)
            &&& record is Some <==> walks(plan.step_at(t).phase)
            &&& record matches Some(time) ==> time.ticks() == t - plan.ramp && (time.forward <==> t
                >= plan.ramp + plan.in_place)
        }),
{
}

/// A run goes through its parts one after the other, each for its own number of
/// ticks: the ramp, walking in place, then (only if it is to go forward)
/// accelerating, cruising and decelerating, then the fold and the rest.
pub proof fn parts_follow_the_clock(plan: Schedule, t: int)
    requires
        plan.wf(),
        0 <= t < plan.length(),
    ensures
        ({
            let walk = plan.ramp as int;
            let speed_up = walk + plan.in_place;
            let cruise = speed_up + plan.accelerate;
            let slow_down = cruise + plan.cruise;
            let fold = if plan.forward {
                slow_down + plan.accelerate
            } else {
                speed_up
            };
            let rest = fold + plan.fold;
            let step = plan.step_at(t);
            let tick = tick_plan(plan, step);
            &&& plan.length() == rest + plan.rest
            &&& 0 <= t < walk ==> step.phase == Phase::Ramp && step.index == t && step.total
                == plan.ramp
            &&& walk <= t < speed_up ==> step.phase == Phase::InPlace && step.index == t - walk
                && step.total == plan.in_place
            &&& plan.forward && speed_up <= t < cruise ==> step.phase == Phase::Accelerate
                && step.index == t - speed_up && step.total == plan.accelerate
            &&& plan.forward && cruise <= t < slow_down ==> step.phase == Phase::Cruise
                && step.index == t - cruise && step.total == plan.cruise
            &&& plan.forward && slow_down <= t < fold ==> step.phase == Phase::Decelerate
                && step.index == t - slow_down && step.total == plan.accelerate
            &&& fold <= t < rest ==> step.phase == Phase::Fold && step.index == t - fold
                && step.total == plan.fold
            &&& rest <= t ==> step.phase == Phase::Rest && step.index == t - rest && step.total
                == plan.rest
        }),
{
}

/// Commanded poses change gently. In the ramp the share of the stance, and of the
/// gain with it, is nothing at the first tick and one part more at every tick; in
/// the fold the share of the lying pose is, at full gain; between them the gait
/// has the joints, and after them they stay in the lying pose.
pub proof fn poses_change_gently(plan: Schedule, t: int)
    requires
        plan.wf(),
        0 <= t < plan.length(),
    ensures
        ({
            let walk = plan.ramp as int;
            let speed_up = walk + plan.in_place;
            let cruise = speed_up + plan.accelerate;
            let slow_down = cruise + plan.cruise;
            let fold = if plan.forward {
                slow_down + plan.accelerate
            } else {
                speed_up
            };
            let rest = fold + plan.fold;
            let step = plan.step_at(t);
            let tick = tick_plan(plan, step);
            &&& 0 <= t < walk ==> tick.pose == Pose::IntoStance && tick.blend == (Share::Rising {
                index: t as u64,
                total: plan.ramp,
            }) && tick.gain == (Share::Rising { index: t as u64, total: plan.ramp })
            &&& walk <= t < fold ==> tick.pose == Pose::Gait && tick.blend == Share::Full
                && tick.gain == Share::Full
            &&& fold <= t < rest ==> tick.pose == Pose::IntoLying && tick.blend == (Share::Rising {
                index: (t - fold) as u64,
                total: plan.fold,
            }) && tick.gain == Share::Full
            &&& rest <= t ==> tick.pose == Pose::Lying && tick.blend == Share::Full && tick.gain
                == Share::Full
            &&& tick.capture <==> t == fold
        }),
{
}

/// From one tick of the fold to the next the lying pose comes one part of the fold
/// nearer, beginning from nothing, so that it is never commanded at once.
pub proof fn fold_moves_one_part_a_tick(plan: Schedule, t: int)
    requires
        plan.wf(),
        0 <= t,
        t + 1 < plan.length(),
        plan.step_at(t).phase == Phase::Fold,
    ensures
        ({
            let now = tick_plan(plan, plan.step_at(t));
            let next = tick_plan(plan, plan.step_at(t + 1));
            &&& now.blend matches Share::Rising { index, total }
            &&& index < total
            &&& index == t - plan.start(Phase::Fold)
            &&& total == plan.fold
            &&& now.blend.parts(plan.fold as int) == t - plan.start(Phase::Fold)
            &&& now.capture ==> index == 0
            &&& next.pose == Pose::IntoLying ==> next.blend == (Share::Rising {
                index: (index + 1) as u64,
                total,
            })
            &&& next.pose != Pose::IntoLying ==> index + 1 == total && next.pose == Pose::Lying
        }),
{
}

/// The speed command follows the clock: zero when walking begins, then a part more
/// at every tick of accelerating, all of it from the first tick of cruising, and a
/// part less at every tick of decelerating. At other ticks it is left alone.
pub proof fn speed_follows_the_clock(plan: Schedule, t: int)
    requires
        plan.wf(),
        0 <= t < plan.length(),
    ensures
        ({
            let walk = plan.ramp as int;
            let speed_up = walk + plan.in_place;
            let cruise = speed_up + plan.accelerate;
            let slow_down = cruise + plan.cruise;
            let fold = if plan.forward {
                slow_down + plan.accelerate
            } else {
                speed_up
            };
            let rest = fold + plan.fold;
            let step = plan.step_at(t);
            let tick = tick_plan(plan, step);
            &&& 0 <= t < walk ==> tick.velocity is None
            &&& t == walk ==> tick.velocity == Some(Share::Zero)
            &&& walk < t < speed_up ==> tick.velocity is None
            &&& plan.forward && speed_up <= t < cruise ==> tick.velocity == Some(
                Share::Rising { index: (t - speed_up) as u64, total: plan.accelerate },
            )
            &&& plan.forward && t == cruise ==> tick.velocity == Some(Share::Full)
            &&& plan.forward && cruise < t < slow_down ==> tick.velocity is None
            &&& plan.forward && slow_down <= t < fold ==> tick.velocity == Some(
                Share::Falling { index: (t - slow_down) as u64, total: plan.accelerate },
            )
            &&& fold <= t ==> tick.velocity is None
        }),
{
}

/// The robot's state is read, the body supported and the state recorded exactly
/// while the gait walks; a recorded tick is dated by all the ticks of walking
/// before it, and counts as forward once the run accelerates.
pub proof fn walking_is_watched_and_recorded(plan: Schedule, t: int)
    requires
        plan.wf(),
        0 <= t < plan.length(),
    ensures
        ({
            let walk = plan.ramp as int;
            let speed_up = walk + plan.in_place;
            let cruise = speed_up + plan.accelerate;
            let slow_down = cruise + plan.cruise;
            let fold = if plan.forward {
                slow_down + plan.accelerate
            } else {
                speed_up
            };
            let rest = fold + plan.fold;
            let step = plan.step_at(t);
            let tick = tick_plan(plan, step);
            &&& tick.poll <==> walk <= t < fold
            &&& tick.supported <==> walk <= t < fold
            &&& tick.record is Some <==> walk <= t < fold
            &&& tick.record matches Some(time) ==> {
                &&& time.in_place_before + time.accelerate_before + time.cruise_before + time.index
                    == t - walk
                &&& time.in_place_before == (if t >= speed_up { plan.in_place } else { 0 })
                &&& time.accelerate_before == (if t >= cruise { plan.accelerate } else { 0 })
                &&& time.cruise_before == (if t >= slow_down { plan.cruise } else { 0 })
                &&& time.forward <==> t >= speed_up
            }
        }),
{
}

} // verus!
