//! Waiting for the robot's first state.

use vstd::prelude::*;

verus! {

/// For how long the first state is waited for (s).
pub const START_TIMEOUT_SECS: u64 = 5;

/// How long a wait between two looks takes (ms).
pub const START_POLL_MS: u64 = 2;

/// What to do after a look for the first state.
#[derive(Clone, Copy, Debug, PartialEq, Eq, Structural)]
pub enum WaitAction {
    /// The state is there: go on with it.
    Ready,
    /// Give up.
    TimedOut,
    /// Say that the state is waited for, then wait.
    WarnAndWait,
    /// Wait.
    Wait,
}

/// The wait for the first state.
#[derive(Debug)]
pub struct StartWait {
    warned: bool,
}

/// What follows from a look for the first state: `warned` is whether it was said
/// that the state is waited for, before the look and after.
pub open spec fn looked(warned: (bool, bool), came: bool, over: bool, action: WaitAction) -> bool {
    &&& action == (if came {
        WaitAction::Ready
    } else if over {
        WaitAction::TimedOut
    } else if warned.0 {
        WaitAction::Wait
    } else {
        WaitAction::WarnAndWait
    })
    &&& warned.1 == (warned.0 || action == WaitAction::WarnAndWait)
}

impl StartWait {
    /// Whether it was said that the state is waited for.
    pub closed spec fn has_warned(self) -> bool {
        self.warned
    }

    /// A wait that begins.
    pub fn new() -> (r: StartWait)
        ensures
            !r.has_warned(),
    {
        StartWait { warned: false }
    }

    /// What to do after a look: whether a state came, and whether the time is
    /// over. A state counts even when the time is over, and the warning comes
    /// once.
    pub fn look(&mut self, came: bool, over: bool) -> (r: WaitAction)
        ensures
            r == (if came {
                WaitAction::Ready
            } else if over {
                WaitAction::TimedOut
            } else if !old(self).has_warned() {
                WaitAction::WarnAndWait
            } else {
                WaitAction::Wait
            }),
            final(self).has_warned() == (old(self).has_warned() || (!came && !over)),
            looked((old(self).has_warned(), final(self).has_warned()), came, over, r),
    {
        if came {
            WaitAction::Ready
        } else if over {
            WaitAction::TimedOut
        } else if !self.warned {
            self.warned = true;
            WaitAction::WarnAndWait
        } else {
            WaitAction::Wait
        }
    }
}

/// What is said when no state came in time.
pub fn timeout_message() -> (r: String)
    ensures
        r@ == "timeout waiting for LowState (check iface / 192.168.123.x / cabling)"@,
{
    "timeout waiting for LowState (check iface / 192.168.123.x / cabling)".to_owned()
}

/// What is said when the state is waited for.
pub fn waiting_message() -> (r: String)
    ensures
        r@ == "... waiting for LowState (check iface / 192.168.123.x / cabling)"@,
{
    "... waiting for LowState (check iface / 192.168.123.x / cabling)".to_owned()
}

/// Over any run of looks, a state that came is gone on with, even when the time is
/// over; without one the wait is given up exactly when the time is over; and of the
/// looks that go on waiting the first warns and no other does. `warned` says
/// whether there was a warning before the first look and after each.
pub proof fn first_wait_warns(
    warned: Seq<bool>,
    came: Seq<bool>,
    over: Seq<bool>,
    actions: Seq<WaitAction>,
    n: nat,
)
    requires
        warned.len() == n + 1,
        came.len() == n,
        over.len() == n,
        actions.len() == n,
        !warned[0],
        forall|i: int|
            0 <= i < n ==> looked((warned[i], warned[i + 1]), came[i], over[i], #[trigger] actions[i]),
    ensures
        forall|i: int| 0 <= i < n ==> ((#[trigger] actions[i]) == WaitAction::Ready <==> came[i]),
        forall|i: int|
            0 <= i < n ==> ((#[trigger] actions[i]) == WaitAction::TimedOut <==> !came[i]
                && over[i]),
        forall|i: int|
            0 <= i < n && (#[trigger] actions[i]) == WaitAction::WarnAndWait ==> forall|j: int|
                0 <= j < i ==> came[j] || #[trigger] over[j],
        forall|i: int|
            0 <= i < n && (#[trigger] actions[i]) == WaitAction::Wait ==> exists|j: int|
                0 <= j < i && #[trigger] actions[j] == WaitAction::WarnAndWait,
        warned[n as int] <==> exists|j: int|
            0 <= j < n && #[trigger] actions[j] == WaitAction::WarnAndWait,
    decreases n,
{
    if n > 0 {
        let k = (n - 1) as nat;
        let w = warned.drop_last();
        let c = came.drop_last();
        let o = over.drop_last();
        let a = actions.drop_last();
        assert forall|i: int| 0 <= i < k implies looked(
            (w[i], w[i + 1]),
            c[i],
            o[i],
            #[trigger] a[i],
        ) by {
            assert(actions[i] == a[i]);
        }
        first_wait_warns(w, c, o, a, k);
        assert(looked((warned[n - 1], warned[n - 1 + 1]), came[n - 1], over[n - 1], actions[n - 1]));
        assert forall|i: int| 0 <= i < k implies #[trigger] actions[i] == a[i] by {
        }
        assert forall|i: int| 0 <= i < k implies #[trigger] over[i] == o[i] by {
        }
        if warned[n - 1] {
            let j = choose|j: int| 0 <= j < k && #[trigger] a[j] == WaitAction::WarnAndWait;
            assert(actions[j] == WaitAction::WarnAndWait);
        }
        assert forall|i: int|
            0 <= i < n && (#[trigger] actions[i]) == WaitAction::WarnAndWait implies forall|j: int|
                0 <= j < i ==> came[j] || #[trigger] over[j] by {
            if i < k {
                assert(a[i] == WaitAction::WarnAndWait);
                assert forall|j: int| 0 <= j < i implies came[j] || #[trigger] over[j] by {
                    assert(c[j] || o[j]);
                }
            } else {
                assert forall|j: int| 0 <= j < i implies came[j] || #[trigger] over[j] by {
                    if !came[j] && !over[j] {
                        assert(a[j] != WaitAction::Ready && a[j] != WaitAction::TimedOut);
                        if a[j] == WaitAction::Wait {
                            let l = choose|l: int|
                                0 <= l < j && #[trigger] a[l] == WaitAction::WarnAndWait;
                            assert(w[k as int]);
                        } else {
                            assert(w[k as int]);
                        }
                    }
                }
            }
        }
        assert forall|i: int|
            0 <= i < n && (#[trigger] actions[i]) == WaitAction::Wait implies exists|j: int|
                0 <= j < i && #[trigger] actions[j] == WaitAction::WarnAndWait by {
            if i < k {
                assert(a[i] == WaitAction::Wait);
                let j = choose|j: int| 0 <= j < i && #[trigger] a[j] == WaitAction::WarnAndWait;
                assert(actions[j] == WaitAction::WarnAndWait);
            }
        }
    }
}

} // verus!
