//! Work that is shared out among the legs on the ground.

use vstd::prelude::*;

use crate::joints::commands;
use crate::joints::motor_gets;
use crate::joints::trim_is_added_motor_by_motor;
use crate::legs::base_motor_of;
use crate::legs::leg_base_motor;
use crate::legs::slot_leg;
use crate::legs::slot_of;
use crate::legs::stance_count;
use crate::legs::stance_goes_slot_by_slot;
use crate::legs::stance_leg_has_its_place;
use crate::legs::stance_legs;
use crate::legs::stance_legs_upto;
use crate::legs::LegId;

verus! {

/// Every one of `n` legs carries the same force, as `equal_share` gives it.
pub open spec fn shared_equally<T, E: Fn(usize) -> T>(
    n: nat,
    forces: Seq<T>,
    equal_share: E,
) -> bool {
    exists|share: T| #[trigger]
        call_ensures(equal_share, (n as usize,), share) && forces == Seq::new(
            n,
            |i: int| share,
        )
}

/// The forces that the legs on the ground carry: from three legs on the balanced
/// ones, where the geometry admits them, and otherwise the same share for each.
pub open spec fn carried<
    T,
    B: Fn(&Vec<LegId>) -> Option<Vec<T>>,
    E: Fn(usize) -> T,
>(legs: Seq<LegId>, forces: Seq<T>, balanced: B, equal_share: E) -> bool {
    &&& forces.len() == legs.len()
    &&& if legs.len() < 3 {
        shared_equally(legs.len(), forces, equal_share)
    } else {
        exists|list: Vec<LegId>, answer: Option<Vec<T>>| #[trigger]
            call_ensures(balanced, (&list,), answer) && list@ == legs && match answer {
                Some(given) => forces == given@,
                None => shared_equally(legs.len(), forces, equal_share),
            }
    }
}

/// The motors of a leg hold the torques for a force.
pub open spec fn holds_torque<T, Q: Fn(LegId, T) -> [T; 3]>(
    tau: Seq<T>,
    leg: LegId,
    force: T,
    torque: Q,
) -> bool {
    exists|three: [T; 3]| #[trigger]
        call_ensures(torque, (leg, force), three) && tau[base_motor_of(leg)] == three@[0]
            && tau[base_motor_of(leg) + 1] == three@[1] && tau[base_motor_of(leg) + 2] == three@[2]
}

/// Torques that support the body's weight. The legs on the ground carry it: from
/// three legs on `balanced` gives each its force if the geometry admits a
/// balance, and `equal_share` gives the common force otherwise; `torque` turns a
/// leg's force into the torques of its motors. Legs in the air get `zero`.
pub fn support_tau_go2<
    T: Copy,
    B: Fn(&Vec<LegId>) -> Option<Vec<T>>,
    E: Fn(usize) -> T,
    Q: Fn(LegId, T) -> [T; 3],
>(stance: &[bool; 4], zero: T, balanced: B, equal_share: E, torque: Q) -> (r: [T; 12])
    requires
        forall|legs: &Vec<LegId>| 3 <= legs@.len() <= 4 ==> call_requires(balanced, (legs,)),
        forall|legs: &Vec<LegId>, given: Option<Vec<T>>|
            call_ensures(balanced, (legs,), given) && given is Some ==> (given->0)@.len()
                == legs@.len(),
        forall|n: usize| 0 < n <= 4 ==> call_requires(equal_share, (n,)),
        forall|leg: LegId, force: T| call_requires(torque, (leg, force)),
    ensures
        forall|leg: LegId, k: int|
            #![trigger r@[base_motor_of(leg) + k]]
            0 <= k < 3 && !stance@[slot_of(leg)] ==> r@[base_motor_of(leg) + k] == zero,
        ({
            let legs = stance_legs_upto(stance@, 4);
            legs.len() > 0 ==> exists|forces: Seq<T>| #[trigger]
                carried(legs, forces, balanced, equal_share) && forall|i: int|
                    0 <= i < legs.len() ==> holds_torque(
                        r@,
                        #[trigger] legs[i],
                        forces[i],
                        torque,
                    )
        }),
        // From three legs on a balance is used wherever there is one: each leg on
        // the ground has the torques of its force in it.
        forall|given: Seq<T>, leg: LegId|
            #![trigger given[stance_count(stance@.take(slot_of(leg))) as int]]
            stance_count(stance@) >= 3 && stance@[slot_of(leg)] && (forall|
                list: Vec<LegId>,
                answer: Option<Vec<T>>,
            | #[trigger]
                call_ensures(balanced, (&list,), answer) && list@ == stance_legs_upto(stance@, 4)
                    ==> answer is Some && (answer->0)@ == given) ==> exists|three: [T; 3]| #[trigger]
                call_ensures(
                    torque,
                    (leg, given[stance_count(stance@.take(slot_of(leg))) as int]),
                    three,
                ) && r@[base_motor_of(leg)] == three@[0] && r@[base_motor_of(leg) + 1] == three@[1]
                    && r@[base_motor_of(leg) + 2] == three@[2],
        // With fewer legs, and without a balance, all legs on the ground have the
        // torques of the same share.
        stance_count(stance@) > 0 && (stance_count(stance@) < 3 || forall|
            list: Vec<LegId>,
            answer: Option<Vec<T>>,
        | #[trigger]
            call_ensures(balanced, (&list,), answer) && list@ == stance_legs_upto(stance@, 4)
                ==> answer is None) ==> exists|share: T| #[trigger]
            call_ensures(equal_share, (stance_count(stance@) as usize,), share) && forall|leg: LegId|
                #![trigger slot_of(leg)]
                stance@[slot_of(leg)] ==> exists|three: [T; 3]| #[trigger]
                    call_ensures(torque, (leg, share), three) && r@[base_motor_of(leg)] == three@[0]
                        && r@[base_motor_of(leg) + 1] == three@[1] && r@[base_motor_of(leg) + 2]
                        == three@[2],
{
    proof {
        stance_goes_slot_by_slot(stance@);
    }
    let mut tau: [T; 12] = [zero; 12];
    let legs: Vec<LegId> = stance_legs(stance);
    let n: usize = legs.len();
    if n == 0 {
        return tau;
    }
    let answer: Option<Vec<T>> = if n < 3 {
        None
    } else {
        balanced(&legs)
    };
    let forces: Vec<T> = match answer {
        Some(given) => given,
        None => {
            let share: T = equal_share(n);
            let mut same: Vec<T> = Vec::new();
            for i in 0..n
                invariant
                    same@ == Seq::new(i as nat, |j: int| share),
            {
                same.push(share);
                assert(same@ =~= Seq::new((i + 1) as nat, |j: int| share));
            }
            assert(shared_equally(n as nat, same@, equal_share));
            same
        },
    };
    assert(carried(legs@, forces@, balanced, equal_share));
    for i in 0..n
        invariant
            n == legs@.len(),
            n == forces@.len(),
            forall|leg: LegId, force: T| call_requires(torque, (leg, force)),
            forall|leg: LegId| #[trigger] legs@.contains(leg) ==> stance@[slot_of(leg)],
            forall|j: int, l: int| 0 <= j < l < n ==> slot_of(legs@[j]) < slot_of(legs@[l]),
            forall|leg: LegId, k: int|
                #![trigger tau@[base_motor_of(leg) + k]]
                0 <= k < 3 && !stance@[slot_of(leg)] ==> tau@[base_motor_of(leg) + k] == zero,
            forall|j: int|
                0 <= j < i ==> holds_torque(tau@, #[trigger] legs@[j], forces@[j], torque),
    {
        let ghost before = tau@;
        let leg: LegId = legs[i];
        let three: [T; 3] = torque(leg, forces[i]);
        let base: usize = leg_base_motor(leg);
        tau[base] = three[0];
        tau[base + 1] = three[1];
        tau[base + 2] = three[2];
        assert forall|j: int| 0 <= j < i + 1 implies holds_torque(
            tau@,
            #[trigger] legs@[j],
            forces@[j],
            torque,
        ) by {
            if j < i {
                assert(slot_of(legs@[j]) < slot_of(legs@[i as int]));
                assert(holds_torque(before, legs@[j], forces@[j], torque));
                let kept = choose|three: [T; 3]| #[trigger]
                    call_ensures(torque, (legs@[j], forces@[j]), three) && before[base_motor_of(
                        legs@[j],
                    )] == three@[0] && before[base_motor_of(legs@[j]) + 1] == three@[1]
                        && before[base_motor_of(legs@[j]) + 2] == three@[2];
                assert(call_ensures(torque, (legs@[j], forces@[j]), kept));
            }
        }
        assert forall|other: LegId, k: int|
            #![trigger tau@[base_motor_of(other) + k]]
            0 <= k < 3 && !stance@[slot_of(other)] implies tau@[base_motor_of(other) + k]
            == zero by {
            assert(legs@.contains(leg));
            assert(before[base_motor_of(other) + k] == zero);
        }
    }
    proof {
        assert forall|given: Seq<T>, leg: LegId|
            #![trigger given[stance_count(stance@.take(slot_of(leg))) as int]]
            stance_count(stance@) >= 3 && stance@[slot_of(leg)] && (forall|
                list: Vec<LegId>,
                answer: Option<Vec<T>>,
            | #[trigger]
                call_ensures(balanced, (&list,), answer) && list@ == stance_legs_upto(stance@, 4)
                    ==> answer is Some && (answer->0)@ == given) implies holds_torque(
            tau@,
            leg,
            given[stance_count(stance@.take(slot_of(leg))) as int],
            torque,
        ) by {
            balance_goes_first(legs@, forces@, given, balanced, equal_share);
            lemma_torque_of_leg(stance@, tau@, forces@, torque, leg);
        }
        if stance_count(stance@) < 3 || forall|list: Vec<LegId>, answer: Option<Vec<T>>| #[trigger]
            call_ensures(balanced, (&list,), answer) && list@ == stance_legs_upto(stance@, 4)
                ==> answer is None {
            equal_shares_without_balance(legs@, forces@, balanced, equal_share);
            let share = choose|share: T| #[trigger]
                call_ensures(equal_share, (legs@.len() as usize,), share) && forall|i: int|
                    0 <= i < legs@.len() ==> #[trigger] forces@[i] == share;
            assert forall|leg: LegId|
                #![trigger slot_of(leg)]
                stance@[slot_of(leg)] implies holds_torque(tau@, leg, share, torque) by {
                lemma_torque_of_leg(stance@, tau@, forces@, torque, leg);
                stance_leg_has_its_place(stance@, leg);
                assert(forces@[stance_count(stance@.take(slot_of(leg))) as int] == share);
            }
            assert(call_ensures(equal_share, (stance_count(stance@) as usize,), share));
        }
    }
    tau
}

/// From three legs on a balance goes first: where every answer to the balance over
/// these legs is the same solution, that solution is what the legs carry.
pub proof fn balance_goes_first<
    T,
    B: Fn(&Vec<LegId>) -> Option<Vec<T>>,
    E: Fn(usize) -> T,
>(legs: Seq<LegId>, forces: Seq<T>, given: Seq<T>, balanced: B, equal_share: E)
    requires
        carried(legs, forces, balanced, equal_share),
        legs.len() >= 3,
        forall|list: Vec<LegId>, answer: Option<Vec<T>>| #[trigger]
            call_ensures(balanced, (&list,), answer) && list@ == legs ==> answer is Some && (
            answer->0)@ == given,
    ensures
        forces == given,
{
    let (list, answer) = choose|list: Vec<LegId>, answer: Option<Vec<T>>| #[trigger]
        call_ensures(balanced, (&list,), answer) && list@ == legs && match answer {
            Some(given) => forces == given@,
            None => shared_equally(legs.len(), forces, equal_share),
        };
    assert(answer is Some);
}

/// With one or two legs, and where there is no balance, every leg carries the same
/// force: the share that there is for so many legs.
pub proof fn equal_shares_without_balance<
    T,
    B: Fn(&Vec<LegId>) -> Option<Vec<T>>,
    E: Fn(usize) -> T,
>(legs: Seq<LegId>, forces: Seq<T>, balanced: B, equal_share: E)
    requires
        carried(legs, forces, balanced, equal_share),
        legs.len() < 3 || forall|list: Vec<LegId>, answer: Option<Vec<T>>| #[trigger]
            call_ensures(balanced, (&list,), answer) && list@ == legs ==> answer is None,
    ensures
        exists|share: T| #[trigger]
            call_ensures(equal_share, (legs.len() as usize,), share) && forall|i: int|
                0 <= i < legs.len() ==> #[trigger] forces[i] == share,
{
    if legs.len() >= 3 {
        let (list, answer) = choose|list: Vec<LegId>, answer: Option<Vec<T>>| #[trigger]
            call_ensures(balanced, (&list,), answer) && list@ == legs && match answer {
                Some(given) => forces == given@,
                None => shared_equally(legs.len(), forces, equal_share),
            };
        assert(answer is None);
    }
    assert(shared_equally(legs.len(), forces, equal_share));
    let share = choose|share: T| #[trigger]
        call_ensures(equal_share, (legs.len() as usize,), share) && forces == Seq::new(
            legs.len(),
            |i: int| share,
        );
    assert(call_ensures(equal_share, (legs.len() as usize,), share));
}

proof fn lemma_torque_of_leg<T, Q: Fn(LegId, T) -> [T; 3]>(
    stance: Seq<bool>,
    tau: Seq<T>,
    forces: Seq<T>,
    torque: Q,
    leg: LegId,
)
    requires
        stance.len() == 4,
        stance[slot_of(leg)],
        forall|i: int|
            0 <= i < stance_legs_upto(stance, 4).len() ==> holds_torque(
                tau,
                #[trigger] stance_legs_upto(stance, 4)[i],
                forces[i],
                torque,
            ),
    ensures
        holds_torque(tau, leg, forces[stance_count(stance.take(slot_of(leg))) as int], torque),
{
    stance_leg_has_its_place(stance, leg);
    let place = stance_count(stance.take(slot_of(leg))) as int;
    assert(holds_torque(tau, stance_legs_upto(stance, 4)[place], forces[place], torque));
}

/// The torques for a leg's force are at that leg's own motors, hip, thigh and calf
/// in turn.
pub proof fn torques_go_to_the_legs_motors<T, Q: Fn(LegId, T) -> [T; 3]>(
    tau: Seq<T>,
    leg: LegId,
    force: T,
    torque: Q,
    three: [T; 3],
)
    requires
        holds_torque(tau, leg, force, torque),
        forall|other: [T; 3]| #[trigger]
            call_ensures(torque, (leg, force), other) ==> other == three,
    ensures
        leg == LegId::FR ==> tau[0] == three@[0] && tau[1] == three@[1] && tau[2] == three@[2],
        leg == LegId::FL ==> tau[3] == three@[0] && tau[4] == three@[1] && tau[5] == three@[2],
        leg == LegId::RR ==> tau[6] == three@[0] && tau[7] == three@[1] && tau[8] == three@[2],
        leg == LegId::RL ==> tau[9] == three@[0] && tau[10] == three@[1] && tau[11] == three@[2],
{
    let held = choose|three: [T; 3]| #[trigger]
        call_ensures(torque, (leg, force), three) && tau[base_motor_of(leg)] == three@[0]
            && tau[base_motor_of(leg) + 1] == three@[1] && tau[base_motor_of(leg) + 2] == three@[2];
    assert(held == three);
}

/// The motors of a leg hold the given values, `zero` where there are none.
pub open spec fn holds_leg<T>(
    values: Seq<T>,
    leg: LegId,
    given: Option<[T; 3]>,
    zero: T,
) -> bool {
    let base = base_motor_of(leg);
    match given {
        Some(three) => values[base] == three@[0] && values[base + 1] == three@[1] && values[base + 2]
            == three@[2],
        None => values[base] == zero && values[base + 1] == zero && values[base + 2] == zero,
    }
}

/// The motors of a leg hold values that `of_leg` gives for it.
pub open spec fn filled_by<T, F: Fn(LegId) -> Option<[T; 3]>>(
    values: Seq<T>,
    leg: LegId,
    of_leg: F,
    zero: T,
) -> bool {
    exists|given: Option<[T; 3]>|
        #![trigger holds_leg(values, leg, given, zero)]
        call_ensures(of_leg, (leg,), given) && holds_leg(values, leg, given, zero)
}

/// Trims that level the body, laid out over the motors: for each leg on the
/// ground those of its three joints that `of_leg` gives. Legs in the air follow
/// their own way and get `zero`, and so does a leg for which `of_leg` gives
/// nothing because its geometry admits no trim.
pub fn level_correction<T: Copy, F: Fn(LegId) -> Option<[T; 3]>>(
    stance: &[bool; 4],
    zero: T,
    of_leg: F,
) -> (r: [T; 12])
    requires
        forall|leg: LegId| stance@[slot_of(leg)] ==> call_requires(of_leg, (leg,)),
    ensures
        forall|leg: LegId, k: int|
            #![trigger r@[base_motor_of(leg) + k]]
            0 <= k < 3 && !stance@[slot_of(leg)] ==> r@[base_motor_of(leg) + k] == zero,
        forall|leg: LegId|
            stance@[slot_of(leg)] ==> #[trigger] filled_by(r@, leg, of_leg, zero),
        forall|leg: LegId|
            #![trigger slot_of(leg)]
            stance@[slot_of(leg)] ==> exists|given: Option<[T; 3]>| #[trigger]
                call_ensures(of_leg, (leg,), given) && match given {
                    Some(three) => r@[base_motor_of(leg)] == three@[0] && r@[base_motor_of(leg) + 1]
                        == three@[1] && r@[base_motor_of(leg) + 2] == three@[2],
                    None => r@[base_motor_of(leg)] == zero && r@[base_motor_of(leg) + 1] == zero
                        && r@[base_motor_of(leg) + 2] == zero,
                },
{
    let mut out: [T; 12] = [zero; 12];
    for slot in 0..4
        invariant
            forall|leg: LegId| stance@[slot_of(leg)] ==> call_requires(of_leg, (leg,)),
            forall|leg: LegId, k: int|
                #![trigger out@[base_motor_of(leg) + k]]
                0 <= k < 3 && (!stance@[slot_of(leg)] || slot_of(leg) >= slot) ==> out@[base_motor_of(
                    leg,
                ) + k] == zero,
            forall|leg: LegId|
                stance@[slot_of(leg)] && slot_of(leg) < slot ==> #[trigger] filled_by(
                    out@,
                    leg,
                    of_leg,
                    zero,
                ),
    {
        let leg: LegId = slot_leg(slot);
        if stance[slot] {
            let ghost before = out@;
            let given: Option<[T; 3]> = of_leg(leg);
            let base: usize = leg_base_motor(leg);
            match given {
                Some(three) => {
                    out[base] = three[0];
                    out[base + 1] = three[1];
                    out[base + 2] = three[2];
                },
                None => {},
            }
            assert(holds_leg(out@, leg, given, zero)) by {
                if given is None {
                    assert(before[base_motor_of(leg) + 0] == zero);
                    assert(before[base_motor_of(leg) + 1] == zero);
                    assert(before[base_motor_of(leg) + 2] == zero);
                }
            }
            assert forall|other: LegId|
                stance@[slot_of(other)] && slot_of(other) < slot + 1 implies #[trigger] filled_by(
                out@,
                other,
                of_leg,
                zero,
            ) by {
                if other != leg {
                    assert(filled_by(before, other, of_leg, zero));
                    let held = choose|given: Option<[T; 3]>|
                        #![trigger holds_leg(before, other, given, zero)]
                        call_ensures(of_leg, (other,), given) && holds_leg(
                            before,
                            other,
                            given,
                            zero,
                        );
                    assert(holds_leg(out@, other, held, zero));
                }
            }
            assert forall|other: LegId, k: int|
                #![trigger out@[base_motor_of(other) + k]]
                0 <= k < 3 && (!stance@[slot_of(other)] || slot_of(other) >= slot
                    + 1) implies out@[base_motor_of(other) + k] == zero by {
                assert(before[base_motor_of(other) + k] == zero);
            }
        }
    }
    assert forall|leg: LegId|
        #![trigger slot_of(leg)]
        stance@[slot_of(leg)] implies exists|given: Option<[T; 3]>| #[trigger]
        call_ensures(of_leg, (leg,), given) && match given {
            Some(three) => out@[base_motor_of(leg)] == three@[0] && out@[base_motor_of(leg) + 1]
                == three@[1] && out@[base_motor_of(leg) + 2] == three@[2],
            None => out@[base_motor_of(leg)] == zero && out@[base_motor_of(leg) + 1] == zero
                && out@[base_motor_of(leg) + 2] == zero,
        } by {
        assert(filled_by(out@, leg, of_leg, zero));
        let given = choose|given: Option<[T; 3]>|
            #![trigger holds_leg(out@, leg, given, zero)]
            call_ensures(of_leg, (leg,), given) && holds_leg(out@, leg, given, zero);
        assert(call_ensures(of_leg, (leg,), given));
    }
    out
}

/// What levelling does to a leg: the trim computed for a leg on the ground is added
/// at the three motors of that leg and at no other. Where nothing was computed, and
/// for a leg in the air, the motors are commanded exactly what the targets give
/// them, given that adding `zero` changes nothing.
pub proof fn levelling_trims_the_leg_itself<
    T,
    F: Fn(usize, usize, T) -> T,
    P: Fn(T, T) -> T,
    L: Fn(LegId) -> Option<[T; 3]>,
>(
    stance: Seq<bool>,
    of_leg: L,
    trim: [T; 12],
    targets: Seq<(String, T)>,
    zero: T,
    corrected: F,
    plus: P,
    q: Seq<T>,
    leg: LegId,
    k: int,
    m: int,
    plain: T,
)
    requires
        stance.len() == 4,
        0 <= k < 3,
        m == base_motor_of(leg) + k,
        forall|l: LegId, j: int|
            #![trigger trim@[base_motor_of(l) + j]]
            0 <= j < 3 && !stance[slot_of(l)] ==> trim@[base_motor_of(l) + j] == zero,
        forall|l: LegId| stance[slot_of(l)] ==> #[trigger] filled_by(trim@, l, of_leg, zero),
        forall|i: int|
            0 <= i < 12 ==> commands(
                #[trigger] q[i],
                i,
                targets,
                zero,
                corrected,
                Some(trim),
                plus,
            ),
        forall|x: T| motor_gets(x, m, targets, zero, corrected) ==> x == plain,
        forall|x: T, y: T| #[trigger] call_ensures(plus, (x, zero), y) ==> y == x,
    ensures
        !stance[slot_of(leg)] ==> q[m] == plain,
        stance[slot_of(leg)] ==> exists|given: Option<[T; 3]>| #[trigger]
            call_ensures(of_leg, (leg,), given) && match given {
                Some(three) => call_ensures(plus, (plain, three@[k]), q[m]),
                None => q[m] == plain,
            },
{
    assert(commands(q[m], m, targets, zero, corrected, Some(trim), plus));
    trim_is_added_motor_by_motor(q[m], plain, m, targets, zero, corrected, Some(trim), plus);
    if stance[slot_of(leg)] {
        assert(filled_by(trim@, leg, of_leg, zero));
        let given = choose|given: Option<[T; 3]>|
            #![trigger holds_leg(trim@, leg, given, zero)]
            call_ensures(of_leg, (leg,), given) && holds_leg(trim@, leg, given, zero);
        assert(call_ensures(of_leg, (leg,), given));
    } else {
        assert(trim@[base_motor_of(leg) + k] == zero);
    }
}

/// The trim for a leg is laid out over that leg's own motors, hip, thigh and calf
/// in turn.
pub proof fn trims_go_to_the_legs_motors<T, L: Fn(LegId) -> Option<[T; 3]>>(
    trim: Seq<T>,
    leg: LegId,
    of_leg: L,
    zero: T,
    three: [T; 3],
)
    requires
        filled_by(trim, leg, of_leg, zero),
        forall|given: Option<[T; 3]>| #[trigger]
            call_ensures(of_leg, (leg,), given) ==> given == Some(three),
    ensures
        leg == LegId::FR ==> trim[0] == three@[0] && trim[1] == three@[1] && trim[2] == three@[2],
        leg == LegId::FL ==> trim[3] == three@[0] && trim[4] == three@[1] && trim[5] == three@[2],
        leg == LegId::RR ==> trim[6] == three@[0] && trim[7] == three@[1] && trim[8] == three@[2],
        leg == LegId::RL ==> trim[9] == three@[0] && trim[10] == three@[1] && trim[11] == three@[2],
{
}

/// `total` is the sum of what the first `n` legs contribute, added up in order
/// from `zero`.
pub open spec fn sums_to<V, L: Fn(LegId) -> V, A: Fn(V, V) -> V>(
    legs: Seq<LegId>,
    n: nat,
    total: V,
    zero: V,
    of_leg: L,
    plus: A,
) -> bool
    decreases n,
{
    if n == 0 {
        total == zero
    } else {
        exists|before: V, one: V|
            #![trigger call_ensures(plus, (before, one), total)]
            sums_to(legs, (n - 1) as nat, before, zero, of_leg, plus) && call_ensures(
                of_leg,
                (legs[n - 1],),
                one,
            ) && call_ensures(plus, (before, one), total)
    }
}

/// `mean` is the mean of what the legs on the ground contribute, `zero` where no
/// leg is on the ground.
pub open spec fn stance_mean<
    V,
    L: Fn(LegId) -> V,
    A: Fn(V, V) -> V,
    D: Fn(V, u32) -> V,
>(stance: Seq<bool>, mean: V, zero: V, of_leg: L, plus: A, over: D) -> bool {
    let legs = stance_legs_upto(stance, 4);
    if legs.len() == 0 {
        mean == zero
    } else {
        exists|total: V|
            #![trigger call_ensures(over, (total, legs.len() as u32), mean)]
            sums_to(legs, legs.len(), total, zero, of_leg, plus) && call_ensures(
                over,
                (total, legs.len() as u32),
                mean,
            )
    }
}

/// An observer of the body's velocity and position in the world, from the legs
/// on the ground: a planted foot does not move, so each such leg tells the
/// velocity of the body.
pub struct BodyObserver<V> {
    pos: V,
}

impl<V: Copy> BodyObserver<V> {
    /// The observed position.
    pub closed spec fn position(self) -> V {
        self.pos
    }

    /// An observer at the given position.
    pub fn new(pos: V) -> (r: Self)
        ensures
            r.position() == pos,
    {
        BodyObserver { pos }
    }

    /// The observed position.
    pub fn pos(&self) -> (r: V)
        ensures
            r == self.position(),
    {
        self.pos
    }

    /// Takes in one state of the robot: averages the body velocity over the legs
    /// on the ground, brings it into the world frame, and moves the position on.
    /// Gives the velocity in the world frame.
    pub fn feed<
        L: Fn(LegId) -> V,
        A: Fn(V, V) -> V,
        D: Fn(V, u32) -> V,
        W: Fn(V) -> V,
        M: Fn(V, V) -> V,
    >(
        &mut self,
        stance: &[bool; 4],
        zero: V,
        of_leg: L,
        plus: A,
        over: D,
        to_world: W,
        moved: M,
    ) -> (r: V)
        requires
            forall|leg: LegId| stance@[slot_of(leg)] ==> call_requires(of_leg, (leg,)),
            forall|a: V, b: V| call_requires(plus, (a, b)),
            forall|a: V, n: u32| 0 < n <= 4 ==> call_requires(over, (a, n)),
            forall|a: V| call_requires(to_world, (a,)),
            forall|a: V, b: V| call_requires(moved, (a, b)),
        ensures
            exists|body: V|
                #![trigger call_ensures(to_world, (body,), r)]
                stance_mean(stance@, body, zero, of_leg, plus, over) && call_ensures(
                    to_world,
                    (body,),
                    r,
                ),
            call_ensures(moved, (old(self).position(), r), final(self).position()),
            !stance@[0] && !stance@[1] && !stance@[2] && !stance@[3] ==> call_ensures(
                to_world,
                (zero,),
                r,
            ),
    {
        proof {
            stance_goes_slot_by_slot(stance@);
        }
        let legs: Vec<LegId> = stance_legs(stance);
        let n: usize = legs.len();
        let mut total: V = zero;
        for i in 0..n
            invariant
                n == legs@.len(),
                forall|leg: LegId| stance@[slot_of(leg)] ==> call_requires(of_leg, (leg,)),
                forall|a: V, b: V| call_requires(plus, (a, b)),
                forall|leg: LegId| #[trigger] legs@.contains(leg) ==> stance@[slot_of(leg)],
                sums_to(legs@, i as nat, total, zero, of_leg, plus),
        {
            assert(legs@.contains(legs@[i as int]));
            let one: V = of_leg(legs[i]);
            let next: V = plus(total, one);
            assert(sums_to(legs@, (i + 1) as nat, next, zero, of_leg, plus));
            total = next;
        }
        let body: V = if n > 0 {
            over(total, n as u32)
        } else {
            zero
        };
        assert(stance_mean(stance@, body, zero, of_leg, plus, over));
        let world: V = to_world(body);
        self.pos = moved(self.pos, world);
        world
    }
}

/// A sum over legs goes through them one by one: there are contributions of the
/// legs and partial sums that begin at `zero`, take in one leg after the other and
/// end at the total.
pub proof fn sums_take_in_every_leg<V, L: Fn(LegId) -> V, A: Fn(V, V) -> V>(
    legs: Seq<LegId>,
    n: nat,
    total: V,
    zero: V,
    of_leg: L,
    plus: A,
) -> (r: (Seq<V>, Seq<V>))
    requires
        n <= legs.len(),
        sums_to(legs, n, total, zero, of_leg, plus),
    ensures
        r.0.len() == n,
        r.1.len() == n + 1,
        r.1[0] == zero,
        r.1[n as int] == total,
        forall|i: int| 0 <= i < n ==> call_ensures(of_leg, (legs[i],), #[trigger] r.0[i]),
        forall|i: int|
            0 <= i < n ==> call_ensures(plus, (r.1[i], #[trigger] r.0[i]), r.1[i + 1]),
    decreases n,
{
    if n == 0 {
        (Seq::empty(), seq![zero])
    } else {
        let (before, one) = choose|before: V, one: V|
            #![trigger call_ensures(plus, (before, one), total)]
            sums_to(legs, (n - 1) as nat, before, zero, of_leg, plus) && call_ensures(
                of_leg,
                (legs[n - 1],),
                one,
            ) && call_ensures(plus, (before, one), total);
        let (ones, sums) = sums_take_in_every_leg(
            legs,
            (n - 1) as nat,
            before,
            zero,
            of_leg,
            plus,
        );
        let r = (ones.push(one), sums.push(total));
        assert forall|i: int| 0 <= i < n implies call_ensures(of_leg, (legs[i],), #[trigger] r.0[i])
            && call_ensures(plus, (r.1[i], r.0[i]), r.1[i + 1]) by {
            if i < n - 1 {
                assert(r.0[i] == ones[i]);
            }
        }
        r
    }
}

/// The mean over the legs on the ground, for arithmetic with one result each: the
/// sum in slot order of what each leg on the ground contributes, and of nothing
/// else, over their number; `zero` where there is none.
pub proof fn mean_is_over_the_legs_on_the_ground<
    V,
    L: Fn(LegId) -> V,
    A: Fn(V, V) -> V,
    D: Fn(V, u32) -> V,
>(
    stance: Seq<bool>,
    mean: V,
    zero: V,
    of_leg: L,
    plus: A,
    over: D,
    value: spec_fn(LegId) -> V,
    sum: spec_fn(V, V) -> V,
)
    requires
        stance.len() == 4,
        stance_mean(stance, mean, zero, of_leg, plus, over),
        forall|l: LegId, v: V| #[trigger] call_ensures(of_leg, (l,), v) ==> v == value(l),
        forall|a: V, b: V, c: V| #[trigger] call_ensures(plus, (a, b), c) ==> c == sum(a, b),
    ensures
        !stance[0] && !stance[1] && !stance[2] && !stance[3] ==> mean == zero,
        stance[0] || stance[1] || stance[2] || stance[3] ==> {
            let s0 = if stance[0] {
                sum(zero, value(LegId::FL))
            } else {
                zero
            };
            let s1 = if stance[1] {
                sum(s0, value(LegId::FR))
            } else {
                s0
            };
            let s2 = if stance[2] {
                sum(s1, value(LegId::RL))
            } else {
                s1
            };
            let s3 = if stance[3] {
                sum(s2, value(LegId::RR))
            } else {
                s2
            };
            let n = (if stance[0] {
                1int
            } else {
                0
            }) + (if stance[1] {
                1int
            } else {
                0
            }) + (if stance[2] {
                1int
            } else {
                0
            }) + (if stance[3] {
                1int
            } else {
                0
            });
            call_ensures(over, (s3, n as u32), mean)
        },
{
    stance_goes_slot_by_slot(stance);
    let legs = stance_legs_upto(stance, 4);
    if legs.len() > 0 {
        let total = choose|total: V|
            #![trigger call_ensures(over, (total, legs.len() as u32), mean)]
            sums_to(legs, legs.len(), total, zero, of_leg, plus) && call_ensures(
                over,
                (total, legs.len() as u32),
                mean,
            );
        let (ones, sums) = sums_take_in_every_leg(legs, legs.len(), total, zero, of_leg, plus);
        assert forall|i: int| 0 <= i < legs.len() implies #[trigger] ones[i] == value(legs[i])
            && sums[i + 1] == sum(sums[i], value(legs[i])) by {
            assert(call_ensures(of_leg, (legs[i],), ones[i]));
            assert(call_ensures(plus, (sums[i], ones[i]), sums[i + 1]));
        }
        assert(ones[0] == value(legs[0]));
        if legs.len() > 1 {
            assert(ones[1] == value(legs[1]));
        }
        if legs.len() > 2 {
            assert(ones[2] == value(legs[2]));
        }
        if legs.len() > 3 {
            assert(ones[3] == value(legs[3]));
        }
    }
}

} // verus!
