//! The offline check of a gait against the joint limits.

use vstd::prelude::*;

use crate::joints::bad_name;
use crate::joints::first_bad;
use crate::joints::joint_route;
use crate::joints::kind_named;
use crate::joints::last_target_counts;
use crate::joints::last_with_motor;
use crate::joints::leg_named;
use crate::joints::lemma_first_bad_stays;
use crate::joints::lemma_last_in_range;
use crate::joints::motor_named;
use crate::joints::target_names;
use crate::legs::slot_of;
use crate::numbers::decimal;
use crate::numbers::decimal_text;
use crate::numeral::lemma_plain_number;
use crate::numeral::Numeral;
use crate::text::glue;

verus! {

/// How many violations are reported one by one.
pub const MAX_REPORTS: usize = 20;

/// A part of the check: a label, the speed (m/s) and the number of control
/// ticks. `S` is how texts are held, `N` how numbers are.
#[derive(Debug)]
pub struct DumpPhase<S, N> {
    pub label: S,
    pub vx: N,
    pub steps: u64,
}

impl View for DumpPhase<String, Numeral> {
    type V = DumpPhase<Seq<char>, Seq<char>>;

    open spec fn view(&self) -> DumpPhase<Seq<char>, Seq<char>> {
        DumpPhase { label: self.label@, vx: self.vx@, steps: self.steps }
    }
}

/// The parts of the check: walking in place, then slowly forward.
pub fn dump_phases() -> (r: (DumpPhase<String, Numeral>, DumpPhase<String, Numeral>))
    ensures
        r.0@ == (DumpPhase { label: "inplace"@, vx: "0.0"@, steps: 500 }),
        r.1@ == (DumpPhase { label: "forward"@, vx: "0.1"@, steps: 1000 }),
        r.0.label@ == "inplace"@ && r.0.vx@ == "0.0"@ && r.0.steps == 500,
        r.1.label@ == "forward"@ && r.1.vx@ == "0.1"@ && r.1.steps == 1000,
{
    proof {
        reveal_strlit("0.0");
        reveal_strlit("0.1");
        lemma_plain_number("0.0"@, 1);
        lemma_plain_number("0.1"@, 1);
    }
    (
        DumpPhase { label: "inplace".to_owned(), vx: Numeral::known("0.0"), steps: 500 },
        DumpPhase { label: "forward".to_owned(), vx: Numeral::known("0.1"), steps: 1000 },
    )
}

/// A gait with so many violations may be sent to the robot.
pub open spec fn passes(violations: nat) -> bool {
    violations == 0
}

/// What is said of a gait with violations.
pub open spec fn unsafe_gait(violations: nat) -> Seq<char> {
    decimal(violations) + " joint-limit violations — not safe to send"@
}

/// Counts the commanded angles that violate a joint limit.
#[derive(Debug)]
pub struct LimitAudit {
    violations: usize,
}

impl LimitAudit {
    /// The number of violations found.
    pub closed spec fn found(self) -> nat {
        self.violations as nat
    }

    /// Nothing found yet.
    pub fn new() -> (r: LimitAudit)
        ensures
            r.found() == 0,
    {
        LimitAudit { violations: 0 }
    }

    /// The number of violations found.
    pub fn violations(&self) -> (r: usize)
        ensures
            r == self.found(),
    {
        self.violations
    }

    /// Takes in one commanded angle, and tells whether it is to be reported.
    pub fn check(&mut self, outside: bool) -> (r: bool)
        requires
            old(self).found() < usize::MAX,
        ensures
            final(self).found() == counted(old(self).found(), outside),
            r == (outside && old(self).found() < MAX_REPORTS),
            outside ==> final(self).found() == old(self).found() + 1,
            !outside ==> final(self).found() == old(self).found(),
            r <==> outside && old(self).found() < 20,
    {
        if !outside {
            return false;
        }
        let report: bool = self.violations < MAX_REPORTS;
        self.violations = self.violations + 1;
        report
    }

    /// Whether the gait may be sent to the robot.
    pub fn verdict(&self) -> (r: Result<(), String>)
        ensures
            match r {
                Ok(_) => passes(self.found()),
                Err(e) => !passes(self.found()) && e@ == unsafe_gait(self.found()),
            },
            r is Ok <==> self.found() == 0,
    {
        if self.violations > 0 {
            Err(
                glue(
                    decimal_text(self.violations as u64).as_str(),
                    " joint-limit violations — not safe to send",
                ),
            )
        } else {
            Ok(())
        }
    }
}

/// A commanded angle that violates its limits and is to be reported.
#[derive(Clone, Copy, Debug, PartialEq, Eq, Structural)]
pub struct Violation {
    /// The place of the angle among the targets.
    pub target: usize,
    /// The joint: hip, thigh or calf.
    pub kind: usize,
}

/// What the check of one control tick gives.
#[derive(Debug)]
pub struct CheckedTick<T> {
    /// The angles in the model's sign convention, ordered by motor.
    pub q: [T; 12],
    /// The same angles in the order of the targets.
    pub angles: Vec<T>,
    /// Which of them are outside their limits.
    pub outs: Vec<bool>,
    /// The violations to report.
    pub reports: Vec<Violation>,
}

/// `angle` is what `corrected` makes of a target.
pub open spec fn brought_to<T, F: Fn(usize, usize, T) -> T>(
    target: (String, T),
    angle: T,
    corrected: F,
) -> bool {
    let slot = slot_of(leg_named(target.0@)->0) as usize;
    let kind = (kind_named(target.0@)->0) as usize;
    call_ensures(corrected, (slot, kind, target.1), angle)
}

/// `out` is whether an angle is outside the limits of its joint.
pub open spec fn judged<T, O: Fn(usize, T) -> bool>(
    name: Seq<char>,
    angle: T,
    out: bool,
    outside: O,
) -> bool {
    call_ensures(outside, ((kind_named(name)->0) as usize, angle), out)
}

/// The targets were checked one by one: `angles` are theirs, and `outs` tell
/// which of them are outside their limits.
pub open spec fn checked<T, F: Fn(usize, usize, T) -> T, O: Fn(usize, T) -> bool>(
    targets: Seq<(String, T)>,
    angles: Seq<T>,
    outs: Seq<bool>,
    corrected: F,
    outside: O,
) -> bool {
    &&& angles.len() == targets.len()
    &&& outs.len() == targets.len()
    &&& forall|i: int|
        0 <= i < targets.len() ==> brought_to(targets[i], #[trigger] angles[i], corrected)
    &&& forall|i: int|
        0 <= i < targets.len() ==> judged(targets[i].0@, angles[i], #[trigger] outs[i], outside)
}

/// `value` is what the motor `m` is commanded to: the last of the angles that are
/// for it, `zero` where there is none.
pub open spec fn motor_holds<T>(
    value: T,
    m: int,
    names: Seq<Seq<char>>,
    angles: Seq<T>,
    zero: T,
) -> bool {
    match last_with_motor(names, m) {
        Some(i) => value == angles[i],
        None => value == zero,
    }
}

/// The places of the violations to report, when `found` were found before: as
/// many as the limit on reports leaves room for.
pub open spec fn reported(found: nat, outs: Seq<bool>) -> Seq<int>
    decreases outs.len(),
{
    if outs.len() == 0 {
        Seq::empty()
    } else {
        let before = reported(found, outs.drop_last());
        if outs.last() && counted_all(found, outs.drop_last()) < MAX_REPORTS {
            before.push(outs.len() - 1)
        } else {
            before
        }
    }
}

/// The reports are about the given places, each with the joint that is there.
pub open spec fn reports_are(
    reports: Seq<Violation>,
    places: Seq<int>,
    names: Seq<Seq<char>>,
) -> bool {
    &&& reports.len() == places.len()
    &&& forall|j: int|
        0 <= j < places.len() ==> (#[trigger] reports[j]).target == places[j] && kind_named(
            names[places[j]],
        ) == Some(reports[j].kind as int)
}

/// Checks the targets of one control tick: brings each into the model's sign
/// convention by `corrected`, holds it to the limits of its joint by `outside`,
/// and orders the angles by motor. Motors without a target get `zero`. A name
/// that stands for no joint is an error; the targets before it are counted.
pub fn check_tick<T: Copy, F: Fn(usize, usize, T) -> T, O: Fn(usize, T) -> bool>(
    audit: &mut LimitAudit,
    targets: &Vec<(String, T)>,
    zero: T,
    corrected: F,
    outside: O,
) -> (r: Result<CheckedTick<T>, String>)
    requires
        old(audit).found() + targets@.len() <= usize::MAX,
        forall|slot: usize, kind: usize, q: T|
            slot < 4 && kind < 3 ==> call_requires(corrected, (slot, kind, q)),
        forall|kind: usize, q: T| kind < 3 ==> call_requires(outside, (kind, q)),
    ensures
        r is Err <==> first_bad(target_names(targets@)) is Some,
        r matches Err(e) ==> {
            let bad = first_bad(target_names(targets@))->0;
            &&& e@ == bad_name(targets@[bad].0@)
            &&& exists|angles: Seq<T>, outs: Seq<bool>| #[trigger]
                checked(targets@.take(bad), angles, outs, corrected, outside)
                    && final(audit).found() == counted_all(old(audit).found(), outs)
        },
        r matches Ok(tick) ==> {
            &&& checked(targets@, tick.angles@, tick.outs@, corrected, outside)
            &&& final(audit).found() == counted_all(old(audit).found(), tick.outs@)
            &&& reports_are(
                tick.reports@,
                reported(old(audit).found(), tick.outs@),
                target_names(targets@),
            )
        },
        r matches Ok(tick) ==> forall|m: int|
            0 <= m < 12 ==> motor_holds(
                #[trigger] tick.q@[m],
                m,
                target_names(targets@),
                tick.angles@,
                zero,
            ),
        r matches Ok(tick) ==> tick.angles@.len() == targets@.len() && tick.outs@.len()
            == targets@.len() && forall|i: int|
            #![trigger tick.angles@[i]]
            0 <= i < targets@.len() ==> call_ensures(
                corrected,
                (
                    slot_of(leg_named(targets@[i].0@)->0) as usize,
                    (kind_named(targets@[i].0@)->0) as usize,
                    targets@[i].1,
                ),
                tick.angles@[i],
            ) && call_ensures(
                outside,
                ((kind_named(targets@[i].0@)->0) as usize, tick.angles@[i]),
                tick.outs@[i],
            ),
{
    let ghost names = target_names(targets@);
    let ghost found = audit.found();
    let mut outs: Vec<bool> = Vec::new();
    let mut q: [T; 12] = [zero; 12];
    let mut angles: Vec<T> = Vec::new();
    let mut reports: Vec<Violation> = Vec::new();
    assert(targets@.take(0) =~= Seq::<(String, T)>::empty());
    for i in 0..targets.len()
        invariant
            found == old(audit).found(),
            found + targets@.len() <= usize::MAX,
            names == target_names(targets@),
            forall|slot: usize, kind: usize, q: T|
                slot < 4 && kind < 3 ==> call_requires(corrected, (slot, kind, q)),
            forall|kind: usize, q: T| kind < 3 ==> call_requires(outside, (kind, q)),
            first_bad(names.take(i as int)) is None,
            checked(targets@.take(i as int), angles@, outs@, corrected, outside),
            audit.found() == counted_all(found, outs@),
            counted_all(found, outs@) <= found + i,
            reports_are(reports@, reported(found, outs@), names),
            forall|j: int|
                0 <= j < reported(found, outs@).len() ==> 0 <= #[trigger] reported(found, outs@)[j]
                    < i,
            forall|m: int|
                0 <= m < 12 ==> motor_holds(
                    #[trigger] q@[m],
                    m,
                    names.take(i as int),
                    angles@,
                    zero,
                ),
    {
        let ghost before_q = q@;
        let ghost before_angles = angles@;
        let ghost before_outs = outs@;
        let ghost shorter = targets@.take(i as int);
        let ghost longer = targets@.take(i + 1);
        let target: &(String, T) = &targets[i];
        proof {
            assert(names.take(i + 1).drop_last() =~= names.take(i as int));
            assert(names.take(i + 1).last() == target.0@);
        }
        match joint_route(target.0.as_str()) {
            Err(e) => {
                proof {
                    lemma_first_bad_stays(names, i + 1);
                }
                return Err(e);
            },
            Ok(route) => {
                let angle: T = corrected(route.slot, route.kind, target.1);
                let out: bool = outside(route.kind, angle);
                let report: bool = audit.check(out);
                q[route.motor] = angle;
                angles.push(angle);
                outs.push(out);
                proof {
                    assert(outs@.drop_last() =~= before_outs);
                    assert(brought_to(*target, angle, corrected));
                    assert(judged(target.0@, angle, out, outside));
                    assert forall|j: int| 0 <= j < longer.len() implies brought_to(
                        longer[j],
                        #[trigger] angles@[j],
                        corrected,
                    ) by {
                        if j < i {
                            assert(brought_to(shorter[j], before_angles[j], corrected));
                        }
                    }
                    assert forall|j: int| 0 <= j < longer.len() implies judged(
                        longer[j].0@,
                        angles@[j],
                        #[trigger] outs@[j],
                        outside,
                    ) by {
                        if j < i {
                            assert(judged(
                                shorter[j].0@,
                                before_angles[j],
                                before_outs[j],
                                outside,
                            ));
                        }
                    }
                }
                if report {
                    reports.push(Violation { target: i, kind: route.kind });
                }
                assert forall|m: int| 0 <= m < 12 implies motor_holds(
                    #[trigger] q@[m],
                    m,
                    names.take(i + 1),
                    angles@,
                    zero,
                ) by {
                    assert(motor_holds(before_q[m], m, names.take(i as int), before_angles, zero));
                    lemma_last_in_range(names.take(i as int), m);
                }
            },
        }
    }
    assert(targets@.take(targets@.len() as int) =~= targets@);
    assert(names.take(names.len() as int) =~= names);
    assert forall|i: int| #![trigger angles@[i]] 0 <= i < targets@.len() implies call_ensures(
        outside,
        ((kind_named(targets@[i].0@)->0) as usize, angles@[i]),
        outs@[i],
    ) by {
        assert(judged(targets@[i].0@, angles@[i], outs@[i], outside));
    }
    Ok(CheckedTick { q, angles, outs, reports })
}

/// The number of violations after one more angle.
pub open spec fn counted(found: nat, out: bool) -> nat {
    if out {
        found + 1
    } else {
        found
    }
}

/// The number of violations after a run of angles.
pub open spec fn counted_all(found: nat, outs: Seq<bool>) -> nat
    decreases outs.len(),
{
    if outs.len() == 0 {
        found
    } else {
        counted(counted_all(found, outs.drop_last()), outs.last())
    }
}

/// The angles of two runs count as those of one: what `b` finds after `a` is what
/// both find together.
pub proof fn counts_add_up(found: nat, a: Seq<bool>, b: Seq<bool>)
    ensures
        counted_all(counted_all(found, a), b) == counted_all(found, a + b),
    decreases b.len(),
{
    if b.len() == 0 {
        assert(a + b =~= a);
    } else {
        counts_add_up(found, a, b.drop_last());
        assert((a + b).drop_last() =~= a + b.drop_last());
        assert((a + b).last() == b.last());
    }
}

/// The reports of two runs are those of one: first those of `a`, then those of
/// `b`, with the places of `b` coming after all of `a`.
pub proof fn reports_add_up(found: nat, a: Seq<bool>, b: Seq<bool>)
    ensures
        reported(found, a + b) == reported(found, a) + reported(
            counted_all(found, a),
            b,
        ).map_values(|i: int| a.len() + i),
    decreases b.len(),
{
    let later = reported(counted_all(found, a), b).map_values(|i: int| a.len() + i);
    if b.len() == 0 {
        assert(a + b =~= a);
        assert(later =~= Seq::<int>::empty());
        assert(reported(found, a) + later =~= reported(found, a));
    } else {
        let shorter = b.drop_last();
        reports_add_up(found, a, shorter);
        counts_add_up(found, a, shorter);
        assert((a + b).drop_last() =~= a + shorter);
        assert((a + b).last() == b.last());
        assert(reported(found, a + b) =~= reported(found, a) + later);
    }
}

/// A gait passes exactly if it passed before and none of the angles since is
/// outside its limits.
pub proof fn passes_iff_all_inside(found: nat, outs: Seq<bool>)
    ensures
        passes(counted_all(found, outs)) <==> passes(found) && forall|i: int|
            0 <= i < outs.len() ==> !#[trigger] outs[i],
    decreases outs.len(),
{
    if outs.len() > 0 {
        let shorter = outs.drop_last();
        passes_iff_all_inside(found, shorter);
        if passes(counted_all(found, outs)) {
            assert forall|i: int| 0 <= i < outs.len() implies !#[trigger] outs[i] by {
                if i < shorter.len() {
                    assert(!shorter[i]);
                }
            }
        }
        if passes(found) && forall|i: int| 0 <= i < outs.len() ==> !#[trigger] outs[i] {
            assert(!outs[outs.len() - 1]);
            assert forall|i: int| 0 <= i < shorter.len() implies !#[trigger] shorter[i] by {
                assert(!outs[i]);
            }
        }
    }
}

/// How many of `found` violations were reported.
pub open spec fn reports_of(found: nat) -> nat {
    if found < MAX_REPORTS {
        found
    } else {
        MAX_REPORTS as nat
    }
}

/// The first violations are reported, as many as the limit on reports leaves room
/// for, and no angle inside its limits is.
pub proof fn first_violations_are_reported(found: nat, outs: Seq<bool>)
    ensures
        reported(found, outs).len() + reports_of(found) == reports_of(counted_all(found, outs)),
        forall|j: int|
            0 <= j < reported(found, outs).len() ==> 0 <= #[trigger] reported(found, outs)[j]
                < outs.len() && outs[reported(found, outs)[j]],
        forall|i: int, j: int|
            0 <= i < j < reported(found, outs).len() ==> reported(found, outs)[i] < reported(
                found,
                outs,
            )[j],
    decreases outs.len(),
{
    if outs.len() > 0 {
        let shorter = outs.drop_last();
        first_violations_are_reported(found, shorter);
        assert forall|j: int|
            0 <= j < reported(found, outs).len() implies 0 <= #[trigger] reported(found, outs)[j]
            < outs.len() && outs[reported(found, outs)[j]] by {
            if j < reported(found, shorter).len() {
                assert(shorter[reported(found, shorter)[j]]);
            }
        }
    }
}

/// Every target is checked by itself: the angle is what the correction for its leg
/// and joint makes of its value, and whether it is outside is told of that
/// corrected angle by the limits of its joint.
pub proof fn targets_are_checked_one_by_one<T, F: Fn(usize, usize, T) -> T, O: Fn(usize, T) -> bool>(
    targets: Seq<(String, T)>,
    angles: Seq<T>,
    outs: Seq<bool>,
    corrected: F,
    outside: O,
    i: int,
)
    requires
        checked(targets, angles, outs, corrected, outside),
        0 <= i < targets.len(),
    ensures
        angles.len() == targets.len(),
        outs.len() == targets.len(),
        call_ensures(
            corrected,
            (
                slot_of(leg_named(targets[i].0@)->0) as usize,
                (kind_named(targets[i].0@)->0) as usize,
                targets[i].1,
            ),
            angles[i],
        ),
        call_ensures(outside, ((kind_named(targets[i].0@)->0) as usize, angles[i]), outs[i]),
{
    assert(brought_to(targets[i], angles[i], corrected));
    assert(judged(targets[i].0@, angles[i], outs[i], outside));
}

/// A motor is shown the last of the angles that are for it, and `zero` where there
/// is none.
pub proof fn motors_show_their_last_angle<T>(
    value: T,
    m: int,
    names: Seq<Seq<char>>,
    angles: Seq<T>,
    zero: T,
    i: int,
)
    requires
        motor_holds(value, m, names, angles, zero),
    ensures
        0 <= i < names.len() && motor_named(names[i]) == Some(m) && (forall|j: int|
            i < j < names.len() ==> motor_named(#[trigger] names[j]) != Some(m)) ==> value
            == angles[i],
        (forall|j: int| 0 <= j < names.len() ==> motor_named(#[trigger] names[j]) != Some(m))
            ==> value == zero,
{
    last_target_counts(names, m, i);
}

/// Violations are counted one by one: one more angle outside its limits is one more
/// violation, and one inside changes nothing.
pub proof fn violations_are_counted_one_by_one(found: nat, outs: Seq<bool>)
    ensures
        counted_all(found, Seq::empty()) == found,
        counted_all(found, outs.push(true)) == counted_all(found, outs) + 1,
        counted_all(found, outs.push(false)) == counted_all(found, outs),
        passes(found) <==> found == 0,
{
    assert(outs.push(true).drop_last() =~= outs);
    assert(outs.push(false).drop_last() =~= outs);
}

/// An angle is reported exactly if it is outside its limits and fewer than twenty
/// violations were found before it.
pub proof fn twenty_violations_are_reported(found: nat, outs: Seq<bool>, i: int)
    requires
        0 <= i < outs.len(),
    ensures
        reported(found, outs).contains(i) <==> outs[i] && counted_all(found, outs.take(i)) < 20,
    decreases outs.len(),
{
    let shorter = outs.drop_last();
    let before = reported(found, shorter);
    let now = reported(found, outs);
    first_violations_are_reported(found, shorter);
    if i < shorter.len() {
        twenty_violations_are_reported(found, shorter, i);
        assert(outs.take(i) =~= shorter.take(i));
        if before.contains(i) {
            let k = choose|k: int| 0 <= k < before.len() && before[k] == i;
            assert(now[k] == i);
        }
        if now.contains(i) {
            let k = choose|k: int| 0 <= k < now.len() && now[k] == i;
            assert(before[k] == i);
        }
    } else {
        assert(outs.take(i) =~= shorter);
        if outs[i] && counted_all(found, shorter) < 20 {
            assert(now[now.len() - 1] == i);
        }
        if now.contains(i) {
            let k = choose|k: int| 0 <= k < now.len() && now[k] == i;
            assert(k < before.len() ==> before[k] < shorter.len());
        }
    }
}

/// Each report names the place of its angle and the joint that is there.
pub proof fn reports_name_place_and_joint(
    reports: Seq<Violation>,
    places: Seq<int>,
    names: Seq<Seq<char>>,
    j: int,
)
    requires
        reports_are(reports, places, names),
        0 <= j < places.len(),
    ensures
        reports.len() == places.len(),
        reports[j].target == places[j],
        kind_named(names[places[j]]) == Some(reports[j].kind as int),
{
}

} // verus!
