//! Joint names: which leg and which joint of it a name stands for, and where
//! the joint sits among the gait slots and among the motors.

use vstd::prelude::*;

use crate::legs::base_motor_of;
use crate::legs::leg_at;
use crate::legs::leg_base_motor;
use crate::legs::leg_slot;
use crate::legs::slot_leg;
use crate::legs::slot_of;
use crate::legs::LegId;
use crate::text::contains;
use crate::text::contains_text;
use crate::text::glue;
use crate::text::glue3;
use crate::text::same_text;
use crate::text::starts_with;
use crate::text::texts;

verus! {

/// The two letters that a leg's joint names begin with.
pub open spec fn leg_code(leg: LegId) -> Seq<char> {
    match leg {
        LegId::FL => "FL"@,
        LegId::FR => "FR"@,
        LegId::RL => "RL"@,
        LegId::RR => "RR"@,
    }
}

/// The word for a joint of a leg: hip, thigh or calf.
pub open spec fn kind_word(kind: int) -> Seq<char> {
    if kind == 0 {
        "hip"@
    } else if kind == 1 {
        "thigh"@
    } else {
        "calf"@
    }
}

/// The leg that a joint name begins with.
pub open spec fn leg_named(name: Seq<char>) -> Option<LegId> {
    if "FL"@.is_prefix_of(name) {
        Some(LegId::FL)
    } else if "FR"@.is_prefix_of(name) {
        Some(LegId::FR)
    } else if "RL"@.is_prefix_of(name) {
        Some(LegId::RL)
    } else if "RR"@.is_prefix_of(name) {
        Some(LegId::RR)
    } else {
        None
    }
}

/// The joint that a name mentions: 0 hip, 1 thigh, 2 calf. The first of these
/// words that occurs counts.
pub open spec fn kind_named(name: Seq<char>) -> Option<int> {
    if contains_text(name, "hip"@) {
        Some(0)
    } else if contains_text(name, "thigh"@) {
        Some(1)
    } else if contains_text(name, "calf"@) {
        Some(2)
    } else {
        None
    }
}

/// The motor of the joint that a name stands for.
pub open spec fn motor_named(name: Seq<char>) -> Option<int> {
    match (leg_named(name), kind_named(name)) {
        (Some(leg), Some(kind)) => Some(base_motor_of(leg) + kind),
        _ => None,
    }
}

/// A name that says which leg and which joint it stands for.
pub open spec fn names_joint(name: Seq<char>) -> bool {
    leg_named(name) is Some && kind_named(name) is Some
}

/// The full name of a joint in the robot model.
pub open spec fn joint_name(leg: LegId, kind: int) -> Seq<char> {
    leg_code(leg) + "_"@ + kind_word(kind) + "_joint"@
}

/// The leg that a joint name begins with.
fn named_leg(name: &str) -> (r: Option<LegId>)
    ensures
        r == leg_named(name@),
{
    if starts_with(name, "FL") {
        Some(LegId::FL)
    } else if starts_with(name, "FR") {
        Some(LegId::FR)
    } else if starts_with(name, "RL") {
        Some(LegId::RL)
    } else if starts_with(name, "RR") {
        Some(LegId::RR)
    } else {
        None
    }
}

/// The joint that a name mentions: 0 hip, 1 thigh, 2 calf.
pub fn joint_kind(name: &str) -> (r: Option<usize>)
    ensures
        match r {
            Some(k) => kind_named(name@) == Some(k as int) && k < 3,
            None => kind_named(name@) is None,
        },
{
    if contains(name, "hip") {
        Some(0)
    } else if contains(name, "thigh") {
        Some(1)
    } else if contains(name, "calf") {
        Some(2)
    } else {
        None
    }
}

/// The gait slot of the leg that a joint name begins with.
pub fn gait_slot(name: &str) -> (r: Option<usize>)
    ensures
        match r {
            Some(slot) => leg_named(name@) == Some(leg_at(slot as int)) && slot < 4,
            None => leg_named(name@) is None,
        },
{
    match named_leg(name) {
        Some(leg) => Some(leg_slot(leg)),
        None => None,
    }
}

/// The motor of the joint that a name stands for.
pub fn go2_motor_index(name: &str) -> (r: Option<usize>)
    ensures
        match r {
            Some(m) => motor_named(name@) == Some(m as int) && m < 12,
            None => motor_named(name@) is None,
        },
{
    match named_leg(name) {
        Some(leg) => match joint_kind(name) {
            Some(kind) => Some(leg_base_motor(leg) + kind),
            None => None,
        },
        None => None,
    }
}

/// Where a joint sits: its leg's gait slot, its number within the leg, its motor.
#[derive(Clone, Copy, Debug, PartialEq, Eq, Structural)]
pub struct JointRoute {
    pub slot: usize,
    pub kind: usize,
    pub motor: usize,
}

impl JointRoute {
    /// The route of the joint that `name` stands for.
    pub open spec fn is_of(self, name: Seq<char>) -> bool {
        &&& leg_named(name) == Some(leg_at(self.slot as int))
        &&& kind_named(name) == Some(self.kind as int)
        &&& motor_named(name) == Some(self.motor as int)
        &&& self.slot < 4
        &&& self.kind < 3
        &&& self.motor < 12
    }
}

/// What is wrong with a name that stands for no joint.
pub open spec fn bad_name(name: Seq<char>) -> Seq<char> {
    "bad joint name "@ + name
}

/// The route of a joint, by its name.
pub fn joint_route(name: &str) -> (r: Result<JointRoute, String>)
    ensures
        match r {
            Ok(route) => names_joint(name@) && route.is_of(name@),
            Err(e) => !names_joint(name@) && e@ == bad_name(name@),
        },
{
    let slot: usize = match gait_slot(name) {
        Some(slot) => slot,
        None => {
            return Err(glue("bad joint name ", name));
        },
    };
    let kind: usize = match joint_kind(name) {
        Some(kind) => kind,
        None => {
            return Err(glue("bad joint name ", name));
        },
    };
    match go2_motor_index(name) {
        Some(motor) => Ok(JointRoute { slot, kind, motor }),
        None => Err(glue("no motor for ", name)),
    }
}

/// The place of the last name whose joint has the motor `m`.
pub open spec fn last_with_motor(names: Seq<Seq<char>>, m: int) -> Option<int>
    decreases names.len(),
{
    if names.len() == 0 {
        None
    } else if motor_named(names.last()) == Some(m) {
        Some(names.len() - 1)
    } else {
        last_with_motor(names.drop_last(), m)
    }
}

/// The place of the first name that stands for no joint.
pub open spec fn first_bad(names: Seq<Seq<char>>) -> Option<int>
    decreases names.len(),
{
    if names.len() == 0 {
        None
    } else if first_bad(names.drop_last()) is Some {
        first_bad(names.drop_last())
    } else if !names_joint(names.last()) {
        Some(names.len() - 1)
    } else {
        None
    }
}

/// The names of a list of joint targets.
pub open spec fn target_names<T>(targets: Seq<(String, T)>) -> Seq<Seq<char>> {
    Seq::new(targets.len(), |i: int| targets[i].0@)
}

/// `value` is what the motor `m` gets: what `corrected` makes of the last target
/// for it, `zero` where there is none.
pub open spec fn motor_gets<T, F: Fn(usize, usize, T) -> T>(
    value: T,
    m: int,
    targets: Seq<(String, T)>,
    zero: T,
    corrected: F,
) -> bool {
    match last_with_motor(target_names(targets), m) {
        Some(i) => {
            let name = targets[i].0@;
            let slot = slot_of(leg_named(name)->0) as usize;
            let kind = (kind_named(name)->0) as usize;
            call_ensures(corrected, (slot, kind, targets[i].1), value)
        },
        None => value == zero,
    }
}

/// Orders joint targets by motor. `corrected` brings a target from the gait's
/// sign convention into the motor's, given the leg's slot and the joint. Motors
/// without a target get `zero`. A name that stands for no joint is an error.
pub fn output_to_go2<T: Copy, F: Fn(usize, usize, T) -> T>(
    targets: &Vec<(String, T)>,
    zero: T,
    corrected: F,
) -> (r: Result<[T; 12], String>)
    requires
        forall|slot: usize, kind: usize, q: T|
            slot < 4 && kind < 3 ==> call_requires(corrected, (slot, kind, q)),
    ensures
        match first_bad(target_names(targets@)) {
            Some(i) => r is Err && r->Err_0@ == bad_name(targets@[i].0@),
            None => r is Ok && forall|m: int|
                0 <= m < 12 ==> motor_gets(#[trigger] r->Ok_0@[m], m, targets@, zero, corrected),
        },
        r is Err <==> exists|i: int|
            0 <= i < targets@.len() && !names_joint((#[trigger] targets@[i]).0@),
        r matches Ok(q) ==> forall|i: int|
            0 <= i < targets@.len() && (forall|j: int|
                i < j < targets@.len() ==> motor_named((#[trigger] targets@[j]).0@) != motor_named(
                    targets@[i].0@,
                )) ==> call_ensures(
                corrected,
                (
                    slot_of(leg_named((#[trigger] targets@[i]).0@)->0) as usize,
                    (kind_named(targets@[i].0@)->0) as usize,
                    targets@[i].1,
                ),
                q@[motor_named(targets@[i].0@)->0],
            ),
        r matches Ok(q) ==> forall|m: int|
            0 <= m < 12 && (forall|j: int|
                0 <= j < targets@.len() ==> motor_named((#[trigger] targets@[j]).0@) != Some(m))
                ==> #[trigger] q@[m] == zero,
{
    let mut q: [T; 12] = [zero; 12];
    let ghost names = target_names(targets@);
    for i in 0..targets.len()
        invariant
            names == target_names(targets@),
            forall|slot: usize, kind: usize, q: T|
                slot < 4 && kind < 3 ==> call_requires(corrected, (slot, kind, q)),
            first_bad(names.take(i as int)) is None,
            forall|m: int|
                0 <= m < 12 ==> motor_gets(
                    #[trigger] q@[m],
                    m,
                    targets@.take(i as int),
                    zero,
                    corrected,
                ),
    {
        let ghost before = q@;
        let target: &(String, T) = &targets[i];
        proof {
            assert(names.take(i + 1).drop_last() =~= names.take(i as int));
            assert(names.take(i + 1).last() == target.0@);
        }
        match joint_route(target.0.as_str()) {
            Ok(route) => {
                let value: T = corrected(route.slot, route.kind, target.1);
                q[route.motor] = value;
                assert forall|m: int| 0 <= m < 12 implies motor_gets(
                    #[trigger] q@[m],
                    m,
                    targets@.take(i + 1),
                    zero,
                    corrected,
                ) by {
                    assert(target_names(targets@.take(i + 1)) =~= names.take(i + 1));
                    assert(target_names(targets@.take(i as int)) =~= names.take(i as int));
                    assert(motor_gets(before[m], m, targets@.take(i as int), zero, corrected));
                    lemma_last_in_range(names.take(i as int), m);
                }
            },
            Err(e) => {
                proof {
                    lemma_first_bad_stays(names, i + 1);
                    assert(!names_joint(targets@[i as int].0@));
                }
                return Err(e);
            },
        }
    }
    assert(targets@.take(targets@.len() as int) =~= targets@);
    assert(names.take(names.len() as int) =~= names);
    proof {
        first_bad_name_is_refused(names, 0);
        assert forall|i: int| 0 <= i < targets@.len() implies names_joint(
            (#[trigger] targets@[i]).0@,
        ) by {
            assert(names_joint(names[i]));
        }
        assert forall|i: int|
            0 <= i < targets@.len() && (forall|j: int|
                i < j < targets@.len() ==> motor_named((#[trigger] targets@[j]).0@) != motor_named(
                    targets@[i].0@,
                )) implies call_ensures(
            corrected,
            (
                slot_of(leg_named((#[trigger] targets@[i]).0@)->0) as usize,
                (kind_named(targets@[i].0@)->0) as usize,
                targets@[i].1,
            ),
            q@[motor_named(targets@[i].0@)->0],
        ) by {
            let m = motor_named(targets@[i].0@)->0;
            every_joint_has_a_motor(targets@[i].0@);
            assert(names_joint(targets@[i].0@));
            last_target_counts(names, m, i);
            assert forall|j: int| i < j < names.len() implies motor_named(#[trigger] names[j])
                != Some(m) by {
                assert(motor_named(targets@[j].0@) != motor_named(targets@[i].0@));
            }
            assert(motor_gets(q@[m], m, targets@, zero, corrected));
        }
        assert forall|m: int|
            0 <= m < 12 && (forall|j: int|
                0 <= j < targets@.len() ==> motor_named((#[trigger] targets@[j]).0@) != Some(m))
            implies #[trigger] q@[m] == zero by {
            last_target_counts(names, m, 0);
            assert forall|j: int| 0 <= j < names.len() implies motor_named(#[trigger] names[j])
                != Some(m) by {
                assert(motor_named(targets@[j].0@) != Some(m));
            }
            assert(motor_gets(q@[m], m, targets@, zero, corrected));
        }
    }
    Ok(q)
}

pub(crate) proof fn lemma_last_in_range(names: Seq<Seq<char>>, m: int)
    ensures
        last_with_motor(names, m) matches Some(i) ==> 0 <= i < names.len() && motor_named(names[i])
            == Some(m),
    decreases names.len(),
{
    if names.len() > 0 {
        lemma_last_in_range(names.drop_last(), m);
    }
}

pub(crate) proof fn lemma_first_bad_stays(names: Seq<Seq<char>>, n: int)
    requires
        0 <= n <= names.len(),
        first_bad(names.take(n)) is Some,
    ensures
        first_bad(names) == first_bad(names.take(n)),
    decreases names.len(),
{
    if n == names.len() {
        assert(names.take(n) =~= names);
    } else {
        assert(names.drop_last().take(n) =~= names.take(n));
        lemma_first_bad_stays(names.drop_last(), n);
    }
}

/// Reads the joint angles and speeds of the leg at a gait slot out of the motor
/// state, brought into the gait's sign convention by `corrected`, which is given
/// the joint: hip, thigh and calf angle, then hip, thigh and calf speed.
pub fn leg_q_dq_ik<T: Copy, F: Fn(usize, T) -> T>(
    q: &[T; 12],
    dq: &[T; 12],
    slot: usize,
    corrected: F,
) -> (r: (T, T, T, T, T, T))
    requires
        slot < 4,
        forall|kind: usize, x: T| kind < 3 ==> call_requires(corrected, (kind, x)),
    ensures
        call_ensures(corrected, (0usize, q@[base_motor_of(leg_at(slot as int))]), r.0),
        call_ensures(corrected, (1usize, q@[base_motor_of(leg_at(slot as int)) + 1]), r.1),
        call_ensures(corrected, (2usize, q@[base_motor_of(leg_at(slot as int)) + 2]), r.2),
        call_ensures(corrected, (0usize, dq@[base_motor_of(leg_at(slot as int))]), r.3),
        call_ensures(corrected, (1usize, dq@[base_motor_of(leg_at(slot as int)) + 1]), r.4),
        call_ensures(corrected, (2usize, dq@[base_motor_of(leg_at(slot as int)) + 2]), r.5),
{
    let base: usize = leg_base_motor(slot_leg(slot));
    (
        corrected(0, q[base]),
        corrected(1, q[base + 1]),
        corrected(2, q[base + 2]),
        corrected(0, dq[base]),
        corrected(1, dq[base + 1]),
        corrected(2, dq[base + 2]),
    )
}

/// Combines two sets of motor values, motor by motor.
pub fn combined<T: Copy, F: Fn(T, T) -> T>(a: &[T; 12], b: &[T; 12], mix: F) -> (r: [T; 12])
    requires
        forall|x: T, y: T| call_requires(mix, (x, y)),
    ensures
        forall|m: int| 0 <= m < 12 ==> call_ensures(mix, (a@[m], b@[m]), #[trigger] r@[m]),
{
    let mut out: [T; 12] = *a;
    for m in 0..12usize
        invariant
            forall|x: T, y: T| call_requires(mix, (x, y)),
            forall|j: int| 0 <= j < m ==> call_ensures(mix, (a@[j], b@[j]), #[trigger] out@[j]),
    {
        let value: T = mix(a[m], b[m]);
        out[m] = value;
    }
    out
}

/// What is commanded in a tick of the gait: the targets ordered by motor, with a
/// trim added where there is one, and the torques, `zero` where there are none.
pub fn gait_command<T: Copy, F: Fn(usize, usize, T) -> T, P: Fn(T, T) -> T>(
    targets: &Vec<(String, T)>,
    zero: T,
    corrected: F,
    trim: Option<[T; 12]>,
    plus: P,
    torques: Option<[T; 12]>,
) -> (r: Result<([T; 12], [T; 12]), String>)
    requires
        forall|slot: usize, kind: usize, q: T|
            slot < 4 && kind < 3 ==> call_requires(corrected, (slot, kind, q)),
        forall|x: T, y: T| call_requires(plus, (x, y)),
    ensures
        match first_bad(target_names(targets@)) {
            Some(i) => r is Err && r->Err_0@ == bad_name(targets@[i].0@),
            None => {
                &&& r is Ok
                &&& forall|m: int|
                    0 <= m < 12 ==> commands(
                        #[trigger] (r->Ok_0).0@[m],
                        m,
                        targets@,
                        zero,
                        corrected,
                        trim,
                        plus,
                    )
                &&& exists|plain: [T; 12]|
                    #![trigger plain@]
                    (forall|m: int|
                        0 <= m < 12 ==> motor_gets(
                            #[trigger] plain@[m],
                            m,
                            targets@,
                            zero,
                            corrected,
                        )) && match trim {
                        Some(dq) => forall|m: int|
                            0 <= m < 12 ==> call_ensures(
                                plus,
                                (plain@[m], dq@[m]),
                                #[trigger] (r->Ok_0).0@[m],
                            ),
                        None => (r->Ok_0).0 == plain,
                    }
                &&& match torques {
                    Some(tau) => (r->Ok_0).1 == tau,
                    None => forall|m: int| 0 <= m < 12 ==> #[trigger] (r->Ok_0).1@[m] == zero,
                }
            },
        },
{
    match output_to_go2(targets, zero, corrected) {
        Err(e) => Err(e),
        Ok(ordered) => {
            let q: [T; 12] = match trim {
                Some(dq) => combined(&ordered, &dq, plus),
                None => ordered,
            };
            let tau: [T; 12] = match torques {
                Some(tau) => tau,
                None => [zero; 12],
            };
            assert forall|m: int| 0 <= m < 12 implies commands(
                #[trigger] q@[m],
                m,
                targets@,
                zero,
                corrected,
                trim,
                plus,
            ) by {
                assert(motor_gets(ordered@[m], m, targets@, zero, corrected));
            }
            Ok((q, tau))
        },
    }
}

/// `value` is what the motor `m` is commanded to: what it gets from the targets,
/// with the trim added where there is one.
pub open spec fn commands<T, F: Fn(usize, usize, T) -> T, P: Fn(T, T) -> T>(
    value: T,
    m: int,
    targets: Seq<(String, T)>,
    zero: T,
    corrected: F,
    trim: Option<[T; 12]>,
    plus: P,
) -> bool {
    match trim {
        Some(dq) => exists|q: T| #[trigger]
            motor_gets(q, m, targets, zero, corrected) && call_ensures(plus, (q, dq@[m]), value),
        None => motor_gets(value, m, targets, zero, corrected),
    }
}

/// The place of the first joint with the given name.
pub open spec fn first_named(joints: Seq<Seq<char>>, name: Seq<char>) -> Option<int>
    decreases joints.len(),
{
    if joints.len() == 0 {
        None
    } else if first_named(joints.drop_last(), name) is Some {
        first_named(joints.drop_last(), name)
    } else if joints.last() == name {
        Some(joints.len() - 1)
    } else {
        None
    }
}

/// The configuration with the named joint at `v`; unchanged if there is no such
/// joint. `places` says where each joint sits in the configuration.
pub open spec fn with_joint<T>(
    q: Seq<T>,
    joints: Seq<Seq<char>>,
    places: Seq<usize>,
    name: Seq<char>,
    v: T,
) -> Seq<T> {
    match first_named(joints, name) {
        Some(i) => q.update(places[i] as int, v),
        None => q,
    }
}

/// The configuration with the first `n` leg joints (slot by slot; hip, thigh,
/// calf) at their home angles.
pub open spec fn home_upto<T>(
    q: Seq<T>,
    joints: Seq<Seq<char>>,
    places: Seq<usize>,
    home: Seq<T>,
    n: nat,
) -> Seq<T>
    decreases n,
{
    if n == 0 {
        q
    } else {
        with_joint(
            home_upto(q, joints, places, home, (n - 1) as nat),
            joints,
            places,
            joint_name(leg_at((n - 1) / 3), (n - 1) % 3),
            home[(n - 1) % 3],
        )
    }
}

/// The named joint, if the model has it, has a place within the configuration.
pub open spec fn joint_fits(
    joints: Seq<Seq<char>>,
    places: Seq<usize>,
    len: nat,
    name: Seq<char>,
) -> bool {
    first_named(joints, name) matches Some(i) ==> i < places.len() && places[i] < len
}

/// The place of the first joint with the given name.
fn find_joint(joints: &Vec<String>, name: &str) -> (r: Option<usize>)
    ensures
        match r {
            Some(i) => first_named(texts(joints@), name@) == Some(i as int) && i < joints@.len(),
            None => first_named(texts(joints@), name@) is None,
        },
{
    for i in 0..joints.len()
        invariant
            first_named(texts(joints@).take(i as int), name@) is None,
    {
        proof {
            assert(texts(joints@).take(i + 1).drop_last() =~= texts(joints@).take(i as int));
            assert(texts(joints@).take(i + 1).last() == joints@[i as int]@);
        }
        if same_text(joints[i].as_str(), name) {
            proof {
                lemma_first_named_stays(texts(joints@), name@, i + 1);
            }
            return Some(i);
        }
    }
    assert(texts(joints@).take(joints@.len() as int) =~= texts(joints@));
    None
}

proof fn lemma_first_named_stays(joints: Seq<Seq<char>>, name: Seq<char>, n: int)
    requires
        0 <= n <= joints.len(),
        first_named(joints.take(n), name) is Some,
    ensures
        first_named(joints, name) == first_named(joints.take(n), name),
    decreases joints.len(),
{
    if n == joints.len() {
        assert(joints.take(n) =~= joints);
    } else {
        assert(joints.drop_last().take(n) =~= joints.take(n));
        lemma_first_named_stays(joints.drop_last(), name, n);
    }
}

/// Sets the named joint of a configuration, if the model has it.
pub fn set_joint<T: Copy>(
    joints: &Vec<String>,
    places: &Vec<usize>,
    q: &mut Vec<T>,
    name: &str,
    v: T,
)
    requires
        joint_fits(texts(joints@), places@, old(q)@.len(), name@),
    ensures
        final(q)@ == with_joint(old(q)@, texts(joints@), places@, name@, v),
{
    match find_joint(joints, name) {
        Some(i) => {
            q.set(places[i], v);
        },
        None => {},
    }
}

/// The two letters of a leg.
pub(crate) fn leg_letters(leg: LegId) -> (r: &'static str)
    ensures
        r@ == leg_code(leg),
{
    match leg {
        LegId::FL => "FL",
        LegId::FR => "FR",
        LegId::RL => "RL",
        LegId::RR => "RR",
    }
}

/// The full name of a leg joint in the robot model.
pub fn model_joint_name(leg: LegId, kind: usize) -> (r: String)
    requires
        kind < 3,
    ensures
        r@ == joint_name(leg, kind as int),
{
    let word: &'static str = match kind {
        0 => "hip",
        1 => "thigh",
        _ => "calf",
    };
    let mut name: String = glue3(leg_letters(leg), "_", word);
    name.append("_joint");
    name
}

/// A standing configuration: the neutral one with the leg joints that the model
/// has at their home angles.
pub fn build_home_q<T: Copy>(
    neutral: Vec<T>,
    joints: &Vec<String>,
    places: &Vec<usize>,
    home: &[T; 3],
) -> (r: Vec<T>)
    requires
        forall|leg: LegId, kind: int|
            0 <= kind < 3 ==> joint_fits(
                texts(joints@),
                places@,
                neutral@.len(),
                #[trigger] joint_name(leg, kind),
            ),
    ensures
        r@ == home_upto(neutral@, texts(joints@), places@, home@, 12),
{
    let mut q: Vec<T> = neutral;
    for n in 0..12usize
        invariant
            q@ == home_upto(neutral@, texts(joints@), places@, home@, n as nat),
            q@.len() == neutral@.len(),
            forall|leg: LegId, kind: int|
                0 <= kind < 3 ==> joint_fits(
                    texts(joints@),
                    places@,
                    neutral@.len(),
                    #[trigger] joint_name(leg, kind),
                ),
    {
        let leg: LegId = slot_leg(n / 3);
        let kind: usize = n % 3;
        let name: String = model_joint_name(leg, kind);
        set_joint(joints, places, &mut q, name.as_str(), home[kind]);
    }
    q
}

/// The model's name of a leg joint stands for that joint, and its motor is the
/// joint's own.
pub proof fn model_names_are_understood(leg: LegId, kind: int)
    requires
        0 <= kind < 3,
    ensures
        leg_named(joint_name(leg, kind)) == Some(leg),
        kind_named(joint_name(leg, kind)) == Some(kind),
        motor_named(joint_name(leg, kind)) == Some(base_motor_of(leg) + kind),
{
    reveal_strlit("FL");
    reveal_strlit("FR");
    reveal_strlit("RL");
    reveal_strlit("RR");
    reveal_strlit("_");
    reveal_strlit("hip");
    reveal_strlit("thigh");
    reveal_strlit("calf");
    reveal_strlit("_joint");
    let name = joint_name(leg, kind);
    assert(name.take(2) =~= leg_code(leg));
    assert(name[0] == leg_code(leg)[0]);
    assert(name[1] == leg_code(leg)[1]);
    let word = kind_word(kind);
    assert(name.subrange(3, 3 + word.len() as int) =~= word);
    assert(contains_text(name, word));
    if kind > 0 {
        assert forall|i: int|
            0 <= i && i + "hip"@.len() <= name.len() implies #[trigger] name.subrange(
            i,
            i + "hip"@.len(),
        ) != "hip"@ by {
            let part = name.subrange(i, i + "hip"@.len());
            assert(part[0] == name[i] && part[1] == name[i + 1] && part[2] == name[i + 2]);
        }
    }
    if kind > 1 {
        assert forall|i: int|
            0 <= i && i + "thigh"@.len() <= name.len() implies #[trigger] name.subrange(
            i,
            i + "thigh"@.len(),
        ) != "thigh"@ by {
            let part = name.subrange(i, i + "thigh"@.len());
            assert(part[0] == name[i] && part[1] == name[i + 1]);
        }
    }
}

/// The tables agree: the motor that a name stands for is the one that its leg's
/// slot and its joint lead to.
pub proof fn motor_tables_agree(name: Seq<char>, slot: int)
    requires
        names_joint(name),
        0 <= slot < 4,
        leg_named(name) == Some(leg_at(slot)),
    ensures
        motor_named(name) == Some(base_motor_of(leg_at(slot)) + kind_named(name)->0),
        slot_of(leg_named(name)->0) == slot,
{
}

/// A name that says its leg and its joint has a motor.
pub proof fn every_joint_has_a_motor(name: Seq<char>)
    ensures
        motor_named(name) is Some <==> names_joint(name),
        motor_named(name) matches Some(m) ==> 0 <= m < 12,
{
}

/// For a leg's slot, `read` undoes `corrected`.
pub open spec fn undoes<T, F: Fn(usize, usize, T) -> T, G: Fn(usize, T) -> T>(
    slot: usize,
    corrected: F,
    read: G,
) -> bool {
    forall|kind: usize, x: T, y: T, z: T| #[trigger]
        call_ensures(corrected, (slot, kind, x), y) && #[trigger]
        call_ensures(read, (kind, y), z) ==> z == x
}

/// Targets for all twelve joints, each named once.
pub open spec fn all_joints_once(names: Seq<Seq<char>>) -> bool {
    &&& names.len() == 12
    &&& forall|i: int| 0 <= i < 12 ==> names_joint(#[trigger] names[i])
    &&& forall|i: int, j: int|
        0 <= i < j < 12 ==> motor_named(#[trigger] names[i]) != motor_named(#[trigger] names[j])
}

/// Reading the motors back undoes the ordering: when all joints have a target and
/// `read` undoes `corrected`, what is read for a leg is what its targets were.
pub proof fn reading_back_undoes_ordering<
    T,
    F: Fn(usize, usize, T) -> T,
    G: Fn(usize, T) -> T,
>(
    targets: Seq<(String, T)>,
    q: Seq<T>,
    zero: T,
    corrected: F,
    read: G,
    leg: LegId,
    back: Seq<T>,
)
    requires
        all_joints_once(target_names(targets)),
        forall|m: int|
            0 <= m < 12 ==> motor_gets(#[trigger] q[m], m, targets, zero, corrected),
        undoes(slot_of(leg) as usize, corrected, read),
        forall|kind: int|
            0 <= kind < 3 ==> call_ensures(
                read,
                (kind as usize, q[base_motor_of(leg) + kind]),
                #[trigger] back[kind],
            ),
    ensures
        forall|i: int|
            0 <= i < 12 && leg_named(#[trigger] targets[i].0@) == Some(leg) ==> back[kind_named(
                targets[i].0@,
            )->0] == targets[i].1,
{
    let names = target_names(targets);
    assert forall|i: int| 0 <= i < 12 && leg_named(#[trigger] targets[i].0@) == Some(leg) implies
        back[kind_named(targets[i].0@)->0] == targets[i].1 by {
        assert(names[i] == targets[i].0@);
        assert(names_joint(names[i]));
        let kind = kind_named(names[i])->0;
        let m = base_motor_of(leg) + kind;
        distinct_targets_fill_the_motors(names, m);
        assert(motor_named(names[i]) == Some(m));
        assert(motor_gets(q[m], m, targets, zero, corrected));
        assert(call_ensures(read, (kind as usize, q[m]), back[kind]));
    }
}

/// Rounding makes no difference to reading: what is read of a rounded value is
/// the rounded value of what is read.
pub open spec fn rounds_alike<T, R: Fn(T) -> T, G: Fn(usize, T) -> T>(
    rounded: R,
    read: G,
) -> bool {
    forall|kind: usize, y: T, held: T, z: T| #[trigger]
        call_ensures(rounded, (y,), held) && #[trigger] call_ensures(read, (kind, held), z)
            ==> exists|w: T| #[trigger]
            call_ensures(read, (kind, y), w) && call_ensures(rounded, (w,), z)
}

/// Reading back through motors that hold rounded values: when all joints have a
/// target, `read` undoes `corrected` and rounding makes no difference to reading,
/// what is read for a leg is what its targets are when rounded.
pub proof fn reading_back_gives_rounded_targets<
    T,
    F: Fn(usize, usize, T) -> T,
    R: Fn(T) -> T,
    G: Fn(usize, T) -> T,
>(
    targets: Seq<(String, T)>,
    q: Seq<T>,
    held: Seq<T>,
    zero: T,
    corrected: F,
    rounded: R,
    read: G,
    leg: LegId,
    back: Seq<T>,
)
    requires
        all_joints_once(target_names(targets)),
        forall|m: int|
            0 <= m < 12 ==> motor_gets(#[trigger] q[m], m, targets, zero, corrected),
        forall|m: int| 0 <= m < 12 ==> call_ensures(rounded, (q[m],), #[trigger] held[m]),
        undoes(slot_of(leg) as usize, corrected, read),
        rounds_alike(rounded, read),
        forall|kind: int|
            0 <= kind < 3 ==> call_ensures(
                read,
                (kind as usize, held[base_motor_of(leg) + kind]),
                #[trigger] back[kind],
            ),
    ensures
        forall|i: int|
            0 <= i < 12 && leg_named(#[trigger] targets[i].0@) == Some(leg) ==> call_ensures(
                rounded,
                (targets[i].1,),
                back[kind_named(targets[i].0@)->0],
            ),
{
    let names = target_names(targets);
    assert forall|i: int| 0 <= i < 12 && leg_named(#[trigger] targets[i].0@) == Some(leg) implies
        call_ensures(rounded, (targets[i].1,), back[kind_named(targets[i].0@)->0]) by {
        assert(names[i] == targets[i].0@);
        assert(names_joint(names[i]));
        let kind = kind_named(names[i])->0;
        let m = base_motor_of(leg) + kind;
        distinct_targets_fill_the_motors(names, m);
        assert(motor_named(names[i]) == Some(m));
        assert(motor_gets(q[m], m, targets, zero, corrected));
        assert(call_ensures(rounded, (q[m],), held[m]));
        assert(call_ensures(read, (kind as usize, held[m]), back[kind]));
        let w = choose|w: T| #[trigger]
            call_ensures(read, (kind as usize, q[m]), w) && call_ensures(
                rounded,
                (w,),
                back[kind],
            );
        assert(w == targets[i].1);
    }
}

/// Twelve targets for joints with different motors reach every motor: none is
/// left at zero and none is overwritten.
pub proof fn distinct_targets_fill_the_motors(names: Seq<Seq<char>>, m: int)
    requires
        all_joints_once(names),
        0 <= m < 12,
    ensures
        last_with_motor(names, m) is Some,
        forall|i: int|
            0 <= i < 12 ==> (motor_named(#[trigger] names[i]) == Some(m) <==> last_with_motor(
                names,
                m,
            ) == Some(i)),
{
    let motors = Seq::new(12, |i: int| motor_named(names[i])->0);
    assert(motors.no_duplicates()) by {
        assert forall|i: int, j: int| 0 <= i < 12 && 0 <= j < 12 && i != j implies motors[i]
            != motors[j] by {
            assert(names_joint(names[i]) && names_joint(names[j]));
            if i < j {
                assert(motor_named(names[i]) != motor_named(names[j]));
            } else {
                assert(motor_named(names[j]) != motor_named(names[i]));
            }
        }
    }
    let range = vstd::set_lib::set_int_range(0, 12);
    vstd::set_lib::lemma_int_range(0, 12);
    motors.unique_seq_to_set();
    assert(motors.to_set().subset_of(range)) by {
        assert forall|x: int| motors.to_set().contains(x) implies range.contains(x) by {
            let i = choose|i: int| 0 <= i < motors.len() && motors[i] == x;
            every_joint_has_a_motor(names[i]);
            assert(names_joint(names[i]));
        }
    }
    vstd::set_lib::lemma_subset_equality(motors.to_set(), range);
    assert(range.contains(m));
    assert(motors.to_set().contains(m));
    let at = choose|i: int| 0 <= i < motors.len() && motors[i] == m;
    assert(names_joint(names[at]));
    assert(motor_named(names[at]) == Some(m));
    lemma_last_is_at(names, m, at);
}

proof fn lemma_last_is_at(names: Seq<Seq<char>>, m: int, at: int)
    requires
        0 <= at < names.len(),
        motor_named(names[at]) == Some(m),
        forall|j: int| at < j < names.len() ==> motor_named(#[trigger] names[j]) != Some(m),
    ensures
        last_with_motor(names, m) == Some(at),
    decreases names.len(),
{
    if at < names.len() - 1 {
        assert(motor_named(names[names.len() - 1]) != Some(m));
        assert(names.drop_last()[at] == names[at]);
        lemma_last_is_at(names.drop_last(), m, at);
    }
}

/// The place in the configuration of the leg joint with the given number (slot
/// by slot; hip, thigh, calf).
pub open spec fn home_place(
    joints: Seq<Seq<char>>,
    places: Seq<usize>,
    n: int,
) -> Option<int> {
    match first_named(joints, joint_name(leg_at(n / 3), n % 3)) {
        Some(i) => Some(places[i] as int),
        None => None,
    }
}

/// A standing configuration differs from the neutral one at leg joints only.
pub proof fn home_keeps_other_joints<T>(
    neutral: Seq<T>,
    joints: Seq<Seq<char>>,
    places: Seq<usize>,
    home: Seq<T>,
    upto: nat,
    p: int,
)
    requires
        upto <= 12,
        0 <= p < neutral.len(),
        forall|k: int|
            0 <= k < 12 ==> (#[trigger] home_place(joints, places, k) matches Some(p) ==> p
                < neutral.len()),
        forall|n: int| 0 <= n < upto ==> #[trigger] home_place(joints, places, n) != Some(p),
    ensures
        home_upto(neutral, joints, places, home, upto).len() == neutral.len(),
        home_upto(neutral, joints, places, home, upto)[p] == neutral[p],
    decreases upto,
{
    if upto > 0 {
        home_keeps_other_joints(neutral, joints, places, home, (upto - 1) as nat, p);
        assert(home_place(joints, places, upto - 1) != Some(p));
    }
}

/// In a standing configuration every leg joint that the model has is at its home
/// angle, given that no two of them share a place.
pub proof fn home_sets_leg_joints<T>(
    neutral: Seq<T>,
    joints: Seq<Seq<char>>,
    places: Seq<usize>,
    home: Seq<T>,
    upto: nat,
    n: int,
)
    requires
        0 <= n < upto <= 12,
        forall|k: int|
            0 <= k < 12 ==> (#[trigger] home_place(joints, places, k) matches Some(p) ==> p
                < neutral.len()),
        forall|k: int|
            0 <= k < 12 && k != n ==> #[trigger] home_place(joints, places, k) is None
                || home_place(joints, places, k) != home_place(joints, places, n),
    ensures
        home_place(joints, places, n) matches Some(p) ==> home_upto(
            neutral,
            joints,
            places,
            home,
            upto,
        )[p] == home[n % 3],
    decreases upto,
{
    assert(home_place(joints, places, upto - 1) == home_place(joints, places, upto - 1));
    lemma_home_len(neutral, joints, places, home, (upto - 1) as nat);
    assert(home_place(joints, places, n) == home_place(joints, places, n));
    if n < upto - 1 {
        home_sets_leg_joints(neutral, joints, places, home, (upto - 1) as nat, n);
    }
}

proof fn lemma_home_len<T>(
    q: Seq<T>,
    joints: Seq<Seq<char>>,
    places: Seq<usize>,
    home: Seq<T>,
    n: nat,
)
    requires
        n <= 12,
        forall|k: int|
            0 <= k < 12 ==> (#[trigger] home_place(joints, places, k) matches Some(p) ==> p
                < q.len()),
    ensures
        home_upto(q, joints, places, home, n).len() == q.len(),
    decreases n,
{
    if n > 0 {
        assert(home_place(joints, places, n - 1) == home_place(joints, places, n - 1));
        lemma_home_len(q, joints, places, home, (n - 1) as nat);
    }
}

/// A joint name is read by its first two letters and by the first of the words
/// hip, thigh and calf that occurs in it: they say the leg, the joint and so the
/// motor. A name without both says none.
pub proof fn names_are_read_by_letters_and_word(name: Seq<char>)
    ensures
        leg_named(name) == Some(LegId::FL) <==> "FL"@.is_prefix_of(name),
        leg_named(name) == Some(LegId::FR) <==> "FR"@.is_prefix_of(name),
        leg_named(name) == Some(LegId::RL) <==> "RL"@.is_prefix_of(name),
        leg_named(name) == Some(LegId::RR) <==> "RR"@.is_prefix_of(name),
        kind_named(name) == Some(0int) <==> contains_text(name, "hip"@),
        kind_named(name) == Some(1int) <==> !contains_text(name, "hip"@) && contains_text(
            name,
            "thigh"@,
        ),
        kind_named(name) == Some(2int) <==> !contains_text(name, "hip"@) && !contains_text(
            name,
            "thigh"@,
        ) && contains_text(name, "calf"@),
        kind_named(name) matches Some(k) ==> 0 <= k < 3,
        names_joint(name) <==> leg_named(name) is Some && kind_named(name) is Some,
        motor_named(name) is Some <==> names_joint(name),
        names_joint(name) ==> {
            let k = kind_named(name)->0;
            let m = motor_named(name)->0;
            &&& "FR"@.is_prefix_of(name) ==> m == k
            &&& "FL"@.is_prefix_of(name) ==> m == 3 + k
            &&& "RR"@.is_prefix_of(name) ==> m == 6 + k
            &&& "RL"@.is_prefix_of(name) ==> m == 9 + k
        },
{
    reveal_strlit("FL");
    reveal_strlit("FR");
    reveal_strlit("RL");
    reveal_strlit("RR");
    assert("FL"@[0] == 'F' && "FL"@[1] == 'L');
    assert("FR"@[0] == 'F' && "FR"@[1] == 'R');
    assert("RL"@[0] == 'R' && "RL"@[1] == 'L');
    assert("RR"@[0] == 'R' && "RR"@[1] == 'R');
    assert forall|code: Seq<char>| #[trigger] code.is_prefix_of(name) && code.len() == 2 implies
        name.len() >= 2 && name[0] == code[0] && name[1] == code[1] by {
        assert(code == name.take(2));
    }
    assert("FL"@.len() == 2 && "FR"@.len() == 2 && "RL"@.len() == 2 && "RR"@.len() == 2);
}

/// The model's names of the leg joints.
pub proof fn model_names_as_written(leg: LegId, kind: int)
    requires
        0 <= kind < 3,
    ensures
        joint_name(leg, kind) == match leg {
            LegId::FL => "FL"@,
            LegId::FR => "FR"@,
            LegId::RL => "RL"@,
            LegId::RR => "RR"@,
        } + (if kind == 0 {
            "_hip_joint"@
        } else if kind == 1 {
            "_thigh_joint"@
        } else {
            "_calf_joint"@
        }),
{
    reveal_strlit("_");
    reveal_strlit("hip");
    reveal_strlit("thigh");
    reveal_strlit("calf");
    reveal_strlit("_joint");
    reveal_strlit("_hip_joint");
    reveal_strlit("_thigh_joint");
    reveal_strlit("_calf_joint");
    assert("_"@ + "hip"@ + "_joint"@ =~= "_hip_joint"@);
    assert("_"@ + "thigh"@ + "_joint"@ =~= "_thigh_joint"@);
    assert("_"@ + "calf"@ + "_joint"@ =~= "_calf_joint"@);
    assert(joint_name(leg, kind) =~= leg_code(leg) + ("_"@ + kind_word(kind) + "_joint"@));
}

/// Of several targets for a motor the last one counts, and a motor that no name
/// stands for has none.
pub proof fn last_target_counts(names: Seq<Seq<char>>, m: int, i: int)
    ensures
        last_with_motor(names, m) == Some(i) <==> 0 <= i < names.len() && motor_named(names[i])
            == Some(m) && forall|j: int|
            i < j < names.len() ==> motor_named(#[trigger] names[j]) != Some(m),
        last_with_motor(names, m) is None <==> forall|j: int|
            0 <= j < names.len() ==> motor_named(#[trigger] names[j]) != Some(m),
    decreases names.len(),
{
    if names.len() > 0 {
        let shorter = names.drop_last();
        let end = names.len() - 1;
        last_target_counts(shorter, m, i);
        assert(names[end] == names.last());
        assert(forall|j: int| 0 <= j < shorter.len() ==> #[trigger] shorter[j] == names[j]);
        if motor_named(names.last()) != Some(m) {
            if forall|j: int| 0 <= j < shorter.len() ==> motor_named(#[trigger] shorter[j]) != Some(m) {
                assert forall|j: int| 0 <= j < names.len() implies motor_named(#[trigger] names[j])
                    != Some(m) by {
                    if j < shorter.len() {
                        assert(motor_named(shorter[j]) != Some(m));
                    }
                }
            }
            if forall|j: int| 0 <= j < names.len() ==> motor_named(#[trigger] names[j]) != Some(m) {
                assert forall|j: int| 0 <= j < shorter.len() implies motor_named(
                    #[trigger] shorter[j],
                ) != Some(m) by {
                    assert(motor_named(names[j]) != Some(m));
                }
            }
            if 0 <= i < end {
                if forall|j: int| i < j < shorter.len() ==> motor_named(#[trigger] shorter[j]) != Some(
                    m,
                ) {
                    assert forall|j: int| i < j < names.len() implies motor_named(
                        #[trigger] names[j],
                    ) != Some(m) by {
                        if j < shorter.len() {
                            assert(motor_named(shorter[j]) != Some(m));
                        }
                    }
                }
                if forall|j: int| i < j < names.len() ==> motor_named(#[trigger] names[j]) != Some(m) {
                    assert forall|j: int| i < j < shorter.len() implies motor_named(
                        #[trigger] shorter[j],
                    ) != Some(m) by {
                        assert(motor_named(names[j]) != Some(m));
                    }
                }
            }
        } else {
            assert(motor_named(names[end]) == Some(m));
        }
    }
}

/// The first name that stands for no joint is the one that is refused, and there
/// is one unless all names stand for joints.
pub proof fn first_bad_name_is_refused(names: Seq<Seq<char>>, i: int)
    ensures
        first_bad(names) == Some(i) <==> 0 <= i < names.len() && !names_joint(names[i])
            && forall|j: int| 0 <= j < i ==> names_joint(#[trigger] names[j]),
        first_bad(names) is None <==> forall|j: int|
            0 <= j < names.len() ==> names_joint(#[trigger] names[j]),
    decreases names.len(),
{
    if names.len() > 0 {
        let shorter = names.drop_last();
        let end = names.len() - 1;
        first_bad_name_is_refused(shorter, i);
        first_bad_name_is_refused(shorter, end);
        assert(names[end] == names.last());
        assert(forall|j: int| 0 <= j < shorter.len() ==> #[trigger] shorter[j] == names[j]);
        if first_bad(shorter) is None {
            assert forall|j: int| 0 <= j < end implies names_joint(#[trigger] names[j]) by {
                assert(names_joint(shorter[j]));
            }
            if names_joint(names.last()) {
                assert forall|j: int| 0 <= j < names.len() implies names_joint(
                    #[trigger] names[j],
                ) by {
                }
            }
        } else {
            let bad = first_bad(shorter)->0;
            first_bad_name_is_refused(shorter, bad);
            assert(!names_joint(names[bad]));
            if 0 <= i < shorter.len() {
                if forall|j: int| 0 <= j < i ==> names_joint(#[trigger] names[j]) {
                    assert forall|j: int| 0 <= j < i implies names_joint(#[trigger] shorter[j]) by {
                        assert(names_joint(names[j]));
                    }
                }
                if forall|j: int| 0 <= j < i ==> names_joint(#[trigger] shorter[j]) {
                    assert forall|j: int| 0 <= j < i implies names_joint(#[trigger] names[j]) by {
                        assert(names_joint(shorter[j]));
                    }
                }
            }
        }
    }
}

/// A motor gets what correction makes of the last target whose name stands for
/// it, with the leg's slot and the joint of that name; without one it gets zero.
pub proof fn motors_get_their_last_target<T, F: Fn(usize, usize, T) -> T>(
    value: T,
    m: int,
    targets: Seq<(String, T)>,
    zero: T,
    corrected: F,
    i: int,
)
    requires
        motor_gets(value, m, targets, zero, corrected),
    ensures
        0 <= i < targets.len() && motor_named(targets[i].0@) == Some(m) && (forall|j: int|
            i < j < targets.len() ==> motor_named((#[trigger] targets[j]).0@) != Some(m)) ==> {
            &&& "FL"@.is_prefix_of(targets[i].0@) ==> call_ensures(
                corrected,
                (0usize, (kind_named(targets[i].0@)->0) as usize, targets[i].1),
                value,
            )
            &&& "FR"@.is_prefix_of(targets[i].0@) ==> call_ensures(
                corrected,
                (1usize, (kind_named(targets[i].0@)->0) as usize, targets[i].1),
                value,
            )
            &&& "RL"@.is_prefix_of(targets[i].0@) ==> call_ensures(
                corrected,
                (2usize, (kind_named(targets[i].0@)->0) as usize, targets[i].1),
                value,
            )
            &&& "RR"@.is_prefix_of(targets[i].0@) ==> call_ensures(
                corrected,
                (3usize, (kind_named(targets[i].0@)->0) as usize, targets[i].1),
                value,
            )
        },
        (forall|j: int|
            0 <= j < targets.len() ==> motor_named((#[trigger] targets[j]).0@) != Some(m)) ==> value
            == zero,
{
    let names = target_names(targets);
    last_target_counts(names, m, i);
    assert(forall|j: int|
        0 <= j < targets.len() ==> #[trigger] names[j] == targets[j].0@);
    if 0 <= i < targets.len() {
        names_are_read_by_letters_and_word(targets[i].0@);
        if forall|j: int|
            i < j < targets.len() ==> motor_named((#[trigger] targets[j]).0@) != Some(m) {
            assert forall|j: int| i < j < names.len() implies motor_named(#[trigger] names[j]) != Some(
                m,
            ) by {
                assert(motor_named(targets[j].0@) != Some(m));
            }
        }
    }
    if forall|j: int| 0 <= j < targets.len() ==> motor_named((#[trigger] targets[j]).0@) != Some(m) {
        assert forall|j: int| 0 <= j < names.len() implies motor_named(#[trigger] names[j]) != Some(
            m,
        ) by {
            assert(motor_named(targets[j].0@) != Some(m));
        }
    }
}

/// With a trim, a motor is commanded the angle that it has without a trim, plus
/// the trim's entry for that very motor; without one it is commanded the angle.
pub proof fn trim_is_added_motor_by_motor<T, F: Fn(usize, usize, T) -> T, P: Fn(T, T) -> T>(
    value: T,
    plain: T,
    m: int,
    targets: Seq<(String, T)>,
    zero: T,
    corrected: F,
    trim: Option<[T; 12]>,
    plus: P,
)
    requires
        0 <= m < 12,
        commands(value, m, targets, zero, corrected, trim, plus),
        forall|x: T| motor_gets(x, m, targets, zero, corrected) ==> x == plain,
    ensures
        match trim {
            Some(dq) => call_ensures(plus, (plain, dq@[m]), value),
            None => value == plain,
        },
{
}

/// The first joint of a name is the one that is set.
pub proof fn first_joint_of_the_name_is_found(
    joints: Seq<Seq<char>>,
    name: Seq<char>,
    i: int,
)
    ensures
        first_named(joints, name) == Some(i) <==> 0 <= i < joints.len() && joints[i] == name
            && forall|j: int| 0 <= j < i ==> #[trigger] joints[j] != name,
        first_named(joints, name) is None <==> !joints.contains(name),
    decreases joints.len(),
{
    if joints.len() > 0 {
        let shorter = joints.drop_last();
        let end = joints.len() - 1;
        first_joint_of_the_name_is_found(shorter, name, i);
        assert(joints[end] == joints.last());
        assert(forall|j: int| 0 <= j < shorter.len() ==> #[trigger] shorter[j] == joints[j]);
        if first_named(shorter, name) is Some {
            let at = first_named(shorter, name)->0;
            first_joint_of_the_name_is_found(shorter, name, at);
            assert(joints[at] == name);
            assert(joints.contains(name));
            if 0 <= i < shorter.len() {
                if forall|j: int| 0 <= j < i ==> #[trigger] joints[j] != name {
                    assert forall|j: int| 0 <= j < i implies #[trigger] shorter[j] != name by {
                        assert(joints[j] != name);
                    }
                }
                if forall|j: int| 0 <= j < i ==> #[trigger] shorter[j] != name {
                    assert forall|j: int| 0 <= j < i implies #[trigger] joints[j] != name by {
                        assert(shorter[j] != name);
                    }
                }
            }
        } else {
            assert forall|j: int| 0 <= j < end implies #[trigger] joints[j] != name by {
                assert(shorter[j] == joints[j]);
                assert(!shorter.contains(name));
            }
            if joints.last() == name {
                assert(joints.contains(name));
            } else {
                assert(!joints.contains(name));
            }
        }
    }
}

/// Setting a joint changes the place of the first joint of that name, and leaves
/// every other place as it is.
pub proof fn setting_a_joint_changes_its_place_only<T>(
    q: Seq<T>,
    joints: Seq<Seq<char>>,
    places: Seq<usize>,
    name: Seq<char>,
    v: T,
    i: int,
)
    requires
        joint_fits(joints, places, q.len(), name),
    ensures
        with_joint(q, joints, places, name, v).len() == q.len(),
        !joints.contains(name) ==> with_joint(q, joints, places, name, v) == q,
        0 <= i < joints.len() && joints[i] == name && (forall|j: int|
            0 <= j < i ==> #[trigger] joints[j] != name) ==> with_joint(q, joints, places, name, v)
            == q.update(places[i] as int, v) && places[i] < q.len(),
{
    first_joint_of_the_name_is_found(joints, name, i);
}

/// In a standing configuration each leg joint that the model has is at the home
/// angle of its kind: hips, thighs and calves alike on all legs.
pub proof fn home_angles_by_joint<T>(
    neutral: Seq<T>,
    joints: Seq<Seq<char>>,
    places: Seq<usize>,
    home: Seq<T>,
    leg: LegId,
    kind: int,
    i: int,
)
    requires
        0 <= kind < 3,
        first_named(joints, joint_name(leg, kind)) == Some(i),
        forall|l: LegId, k: int|
            0 <= k < 3 ==> joint_fits(
                joints,
                places,
                neutral.len(),
                #[trigger] joint_name(l, k),
            ),
        forall|l: LegId, k: int|
            0 <= k < 3 && (l != leg || k != kind) ==> (first_named(
                joints,
                #[trigger] joint_name(l, k),
            ) matches Some(j) ==> places[j] != places[i]),
    ensures
        home_upto(neutral, joints, places, home, 12)[places[i] as int] == home[kind],
{
    let n = 3 * slot_of(leg) + kind;
    assert(n / 3 == slot_of(leg) && n % 3 == kind);
    assert(home_place(joints, places, n) == Some(places[i] as int));
    assert forall|k: int| 0 <= k < 12 implies (#[trigger] home_place(joints, places, k) matches Some(p)
        ==> p < neutral.len()) by {
        assert(joint_fits(joints, places, neutral.len(), joint_name(leg_at(k / 3), k % 3)));
        first_joint_of_the_name_is_found(
            joints,
            joint_name(leg_at(k / 3), k % 3),
            first_named(joints, joint_name(leg_at(k / 3), k % 3))->0,
        );
    }
    assert forall|k: int| 0 <= k < 12 && k != n implies #[trigger] home_place(joints, places, k) is None
        || home_place(joints, places, k) != home_place(joints, places, n) by {
        let l = leg_at(k / 3);
        assert(l != leg || k % 3 != kind);
        assert(joint_name(l, k % 3) == joint_name(leg_at(k / 3), k % 3));
    }
    home_sets_leg_joints(neutral, joints, places, home, 12, n);
}

} // verus!
