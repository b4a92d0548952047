//! The four legs, their gait slots and their motors.
//!
//! The gait orders legs FL, FR, RL, RR; the motors are ordered FR, FL, RR, RL,
//! three per leg (hip, thigh, calf).

use vstd::prelude::*;

verus! {

/// A leg of the robot.
#[derive(Clone, Copy, Debug, PartialEq, Eq, Structural)]
pub enum LegId {
    FL,
    FR,
    RL,
    RR,
}

/// The gait slot of a leg.
pub open spec fn slot_of(leg: LegId) -> int {
    match leg {
        LegId::FL => 0,
        LegId::FR => 1,
        LegId::RL => 2,
        LegId::RR => 3,
    }
}

/// The leg at a gait slot.
pub open spec fn leg_at(slot: int) -> LegId {
    if slot == 0 {
        LegId::FL
    } else if slot == 1 {
        LegId::FR
    } else if slot == 2 {
        LegId::RL
    } else {
        LegId::RR
    }
}

/// The motor of a leg's hip; thigh and calf follow it.
pub open spec fn base_motor_of(leg: LegId) -> int {
    match leg {
        LegId::FR => 0,
        LegId::FL => 3,
        LegId::RR => 6,
        LegId::RL => 9,
    }
}

/// The leg that a motor belongs to.
pub open spec fn leg_of_motor(motor: int) -> LegId {
    if motor < 3 {
        LegId::FR
    } else if motor < 6 {
        LegId::FL
    } else if motor < 9 {
        LegId::RR
    } else {
        LegId::RL
    }
}

/// How many of the legs are on the ground.
pub open spec fn stance_count(stance: Seq<bool>) -> nat
    decreases stance.len(),
{
    if stance.len() == 0 {
        0
    } else {
        stance_count(stance.drop_last()) + if stance.last() {
            1nat
        } else {
            0nat
        }
    }
}

/// The legs on the ground, in slot order, among the first `n` slots.
pub open spec fn stance_legs_upto(stance: Seq<bool>, n: nat) -> Seq<LegId>
    decreases n,
{
    if n == 0 {
        Seq::empty()
    } else if stance[n - 1] {
        stance_legs_upto(stance, (n - 1) as nat).push(leg_at(n - 1))
    } else {
        stance_legs_upto(stance, (n - 1) as nat)
    }
}

/// The gait slot of a leg.
pub fn leg_slot(leg: LegId) -> (r: usize)
    ensures
        r == slot_of(leg),
        r < 4,
{
    match leg {
        LegId::FL => 0,
        LegId::FR => 1,
        LegId::RL => 2,
        LegId::RR => 3,
    }
}

/// The leg at a gait slot.
pub fn slot_leg(slot: usize) -> (r: LegId)
    requires
        slot < 4,
    ensures
        r == leg_at(slot as int),
        slot_of(r) == slot,
{
    match slot {
        0 => LegId::FL,
        1 => LegId::FR,
        2 => LegId::RL,
        _ => LegId::RR,
    }
}

/// The first motor of a leg.
pub fn leg_base_motor(leg: LegId) -> (r: usize)
    ensures
        r == base_motor_of(leg),
        r <= 9,
{
    match leg {
        LegId::FR => 0,
        LegId::FL => 3,
        LegId::RR => 6,
        LegId::RL => 9,
    }
}

/// How many legs a contact schedule puts on the ground.
pub fn support_count(stance: &[bool; 4]) -> (r: usize)
    ensures
        r == stance_count(stance@),
        r <= 4,
{
    let mut n: usize = 0;
    for i in 0..4
        invariant
            n == stance_count(stance@.take(i as int)),
            n <= i,
    {
        assert(stance@.take(i + 1).drop_last() =~= stance@.take(i as int));
        if stance[i] {
            n = n + 1;
        }
    }
    assert(stance@.take(4) =~= stance@);
    n
}

/// The legs that a contact schedule puts on the ground, in slot order.
pub fn stance_legs(stance: &[bool; 4]) -> (r: Vec<LegId>)
    ensures
        r@ == stance_legs_upto(stance@, 4),
        r@.len() == stance_count(stance@) <= 4,
        forall|leg: LegId| r@.contains(leg) <==> stance@[slot_of(leg)],
        forall|i: int, j: int| 0 <= i < j < r@.len() ==> slot_of(r@[i]) < slot_of(r@[j]),
{
    let mut legs: Vec<LegId> = Vec::new();
    for i in 0..4
        invariant
            legs@ == stance_legs_upto(stance@, i as nat),
            legs@.len() == stance_count(stance@.take(i as int)) <= i,
            forall|j: int| 0 <= j < legs@.len() ==> slot_of(#[trigger] legs@[j]) < i,
            forall|j: int, l: int|
                0 <= j < l < legs@.len() ==> slot_of(legs@[j]) < slot_of(legs@[l]),
            forall|leg: LegId| #[trigger]
                legs@.contains(leg) <==> slot_of(leg) < i && stance@[slot_of(leg)],
    {
        let ghost before = legs@;
        assert(stance@.take(i + 1).drop_last() =~= stance@.take(i as int));
        if stance[i] {
            legs.push(slot_leg(i));
            assert forall|leg: LegId| #[trigger]
                legs@.contains(leg) <==> slot_of(leg) < i + 1 && stance@[slot_of(leg)] by {
                if before.contains(leg) {
                    let j = choose|j: int| 0 <= j < before.len() && before[j] == leg;
                    assert(legs@[j] == leg);
                }
                if slot_of(leg) == i {
                    assert(legs@.last() == leg);
                }
            }
        }
    }
    assert(stance@.take(4) =~= stance@);
    legs
}

/// Slots and legs correspond one to one.
pub proof fn slots_are_legs(slot: int, leg: LegId)
    ensures
        0 <= slot_of(leg) < 4,
        leg_at(slot_of(leg)) == leg,
        0 <= slot < 4 ==> slot_of(leg_at(slot)) == slot,
{
}

/// Every motor belongs to one joint of one leg, and every joint has its own motor.
pub proof fn motors_are_joints(motor: int, leg: LegId, k: int)
    requires
        0 <= motor < 12,
        0 <= k < 3,
    ensures
        0 <= base_motor_of(leg) + k < 12,
        base_motor_of(leg) + k == motor <==> leg == leg_of_motor(motor) && k == motor % 3,
{
}

/// The gait counts the legs FL, FR, RL, RR; the motors come leg by leg in the
/// order FR, FL, RR, RL, three for each.
pub proof fn legs_in_their_orders(leg: LegId)
    ensures
        leg == LegId::FL ==> slot_of(leg) == 0 && base_motor_of(leg) == 3,
        leg == LegId::FR ==> slot_of(leg) == 1 && base_motor_of(leg) == 0,
        leg == LegId::RL ==> slot_of(leg) == 2 && base_motor_of(leg) == 9,
        leg == LegId::RR ==> slot_of(leg) == 3 && base_motor_of(leg) == 6,
        leg_at(0) == LegId::FL,
        leg_at(1) == LegId::FR,
        leg_at(2) == LegId::RL,
        leg_at(3) == LegId::RR,
{
}

/// The legs on the ground are those whose slot says so, each once, in slot order;
/// how many there are is counted slot by slot.
pub proof fn stance_goes_slot_by_slot(stance: Seq<bool>)
    requires
        stance.len() == 4,
    ensures
        stance_legs_upto(stance, 4) == (if stance[0] {
            seq![LegId::FL]
        } else {
            Seq::empty()
        }) + (if stance[1] {
            seq![LegId::FR]
        } else {
            Seq::empty()
        }) + (if stance[2] {
            seq![LegId::RL]
        } else {
            Seq::empty()
        }) + (if stance[3] {
            seq![LegId::RR]
        } else {
            Seq::empty()
        }),
        stance_count(stance) == (if stance[0] {
            1int
        } else {
            0
        }) + (if stance[1] {
            1int
        } else {
            0
        }) + (if stance[2] {
            1int
        } else {
            0
        }) + (if stance[3] {
            1int
        } else {
            0
        }),
        stance_legs_upto(stance, 4).len() == stance_count(stance),
{
    reveal_with_fuel(stance_legs_upto, 5);
    lemma_count_upto(stance);
    assert(stance.take(4) =~= stance);
    let a = if stance[0] {
        seq![LegId::FL]
    } else {
        Seq::empty()
    };
    let b = if stance[1] {
        seq![LegId::FR]
    } else {
        Seq::empty()
    };
    let c = if stance[2] {
        seq![LegId::RL]
    } else {
        Seq::empty()
    };
    let d = if stance[3] {
        seq![LegId::RR]
    } else {
        Seq::empty()
    };
    assert(stance_legs_upto(stance, 1) =~= a);
    assert(stance_legs_upto(stance, 2) =~= a + b);
    assert(stance_legs_upto(stance, 3) =~= a + b + c);
    assert(stance_legs_upto(stance, 4) =~= a + b + c + d);
}

proof fn lemma_count_upto(stance: Seq<bool>)
    requires
        stance.len() == 4,
    ensures
        stance_count(stance.take(0)) == 0,
        stance_count(stance.take(1)) == stance_count(stance.take(0)) + (if stance[0] {
            1nat
        } else {
            0nat
        }),
        stance_count(stance.take(2)) == stance_count(stance.take(1)) + (if stance[1] {
            1nat
        } else {
            0nat
        }),
        stance_count(stance.take(3)) == stance_count(stance.take(2)) + (if stance[2] {
            1nat
        } else {
            0nat
        }),
        stance_count(stance.take(4)) == stance_count(stance.take(3)) + (if stance[3] {
            1nat
        } else {
            0nat
        }),
{
    assert(stance.take(1).drop_last() =~= stance.take(0));
    assert(stance.take(2).drop_last() =~= stance.take(1));
    assert(stance.take(3).drop_last() =~= stance.take(2));
    assert(stance.take(4).drop_last() =~= stance.take(3));
}

/// A leg on the ground stands in the list after those of the slots before it.
pub proof fn stance_leg_has_its_place(stance: Seq<bool>, leg: LegId)
    requires
        stance.len() == 4,
        stance[slot_of(leg)],
    ensures
        ({
            let place = stance_count(stance.take(slot_of(leg)));
            &&& place < stance_legs_upto(stance, 4).len()
            &&& stance_legs_upto(stance, 4)[place as int] == leg
        }),
{
    reveal_with_fuel(stance_legs_upto, 5);
    stance_goes_slot_by_slot(stance);
    lemma_count_upto(stance);
}

} // verus!
