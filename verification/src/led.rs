//! The head LED as an indicator of the three-leg support period.
//!
//! The indicator runs once per control tick and says which brightness to show; a
//! worker turns brightnesses into calls, and drops those that change nothing.

use vstd::prelude::*;

use crate::util::brightness_request;
use crate::util::led_brightness;
use crate::util::led_switch;
use crate::util::switch_request;
use crate::util::VuiRequest;

verus! {

/// The brightness of a lit indicator.
pub const LED_FULL: i32 = 10;

/// The brightness of a dark indicator.
pub const LED_DARK: i32 = 0;

/// A three-leg support period is under way, or is about to begin.
pub open spec fn three_support(now: int, ahead: int) -> bool {
    now == 3 || ahead == 3
}

/// The ticks for which the light is still held, after a tick.
pub open spec fn next_hold(margin: nat, hold: nat, trigger: bool) -> nat {
    if trigger {
        margin
    } else if hold > 0 {
        (hold - 1) as nat
    } else {
        0
    }
}

/// The indicator is lit: at a trigger, and for as long as the light is held from
/// before.
pub open spec fn lit(hold: nat, trigger: bool) -> bool {
    trigger || hold > 0
}

/// The brightness to show.
pub open spec fn brightness(lit: bool) -> i32 {
    if lit {
        LED_FULL
    } else {
        LED_DARK
    }
}

/// A tick of the look ahead takes an indicator from `before` to `after`.
pub open spec fn foreseen(before: LedIndicator, after: LedIndicator, ahead: int) -> bool {
    &&& after.margin() == before.margin()
    &&& after.hold() == next_hold(before.margin(), before.hold(), ahead == 3)
    &&& after.sent() == before.sent()
}

/// A control tick takes an indicator from `before` to `after` and gives what is to
/// be sent.
pub open spec fn indicated(
    before: LedIndicator,
    after: LedIndicator,
    now: int,
    ahead: int,
    send: Option<i32>,
) -> bool {
    let trigger = three_support(now, ahead);
    &&& after.margin() == before.margin()
    &&& after.hold() == next_hold(before.margin(), before.hold(), trigger)
    &&& after.sent() == Some(brightness(lit(before.hold(), trigger)))
    &&& send == (if before.sent() == after.sent() {
        None
    } else {
        after.sent()
    })
}

/// Decides, tick by tick, whether the indicator is lit.
#[derive(Clone, Copy, Debug)]
pub struct LedIndicator {
    margin: u32,
    hold: u32,
    sent: Option<i32>,
}

impl LedIndicator {
    /// For how many ticks the light is held.
    pub closed spec fn margin(self) -> nat {
        self.margin as nat
    }

    /// For how many more ticks the light is held.
    pub closed spec fn hold(self) -> nat {
        self.hold as nat
    }

    /// The brightness that was sent last.
    pub closed spec fn sent(self) -> Option<i32> {
        self.sent
    }

    /// An indicator that has not been shown yet.
    pub fn new(margin: u32) -> (r: LedIndicator)
        ensures
            r.margin() == margin,
            r.hold() == 0,
            r.sent() is None,
    {
        LedIndicator { margin, hold: 0, sent: None }
    }

    /// A tick of the look ahead before the first control tick, with the number of
    /// legs that it shows on the ground. There are as many of these as the margin
    /// has ticks; nothing is shown yet.
    pub fn foresee(&mut self, ahead: usize)
        ensures
            final(self).margin() == old(self).margin(),
            final(self).hold() == next_hold(old(self).margin(), old(self).hold(), ahead == 3),
            final(self).sent() == old(self).sent(),
            foreseen(*old(self), *final(self), ahead as int),
            ahead == 3 ==> final(self).hold() == old(self).margin(),
            ahead != 3 && old(self).hold() > 0 ==> final(self).hold() == old(self).hold() - 1,
            ahead != 3 && old(self).hold() == 0 ==> final(self).hold() == 0,
    {
        self.hold_on(ahead == 3);
    }

    /// Renews the hold at a trigger, and lets it run down otherwise.
    fn hold_on(&mut self, trigger: bool)
        ensures
            final(self).margin() == old(self).margin(),
            final(self).hold() == next_hold(old(self).margin(), old(self).hold(), trigger),
            final(self).sent() == old(self).sent(),
    {
        if trigger {
            self.hold = self.margin;
        } else if self.hold > 0 {
            self.hold = self.hold - 1;
        }
    }

    /// One control tick, with the number of legs on the ground now and a margin
    /// ahead. Gives the brightness to send, if it changes.
    pub fn tick(&mut self, now: usize, ahead: usize) -> (r: Option<i32>)
        ensures
            final(self).margin() == old(self).margin(),
            final(self).hold() == next_hold(
                old(self).margin(),
                old(self).hold(),
                three_support(now as int, ahead as int),
            ),
            ({
                let want = brightness(
                    lit(old(self).hold(), three_support(now as int, ahead as int)),
                );
                &&& final(self).sent() == Some(want)
                &&& r == (if old(self).sent() == Some(want) {
                    None
                } else {
                    Some(want)
                })
            }),
            indicated(*old(self), *final(self), now as int, ahead as int, r),
            // Three legs on the ground now or a margin ahead, or a light still held,
            // show full brightness; otherwise it is dark.
            now == 3 || ahead == 3 || old(self).hold() > 0 ==> final(self).sent() == Some(10i32),
            now != 3 && ahead != 3 && old(self).hold() == 0 ==> final(self).sent() == Some(0i32),
            now == 3 || ahead == 3 ==> final(self).hold() == old(self).margin(),
            now != 3 && ahead != 3 && old(self).hold() > 0 ==> final(self).hold() == old(
                self,
            ).hold() - 1,
            now != 3 && ahead != 3 && old(self).hold() == 0 ==> final(self).hold() == 0,
            r is Some ==> r == final(self).sent(),
            r is Some <==> final(self).sent() != old(self).sent(),
    {
        let trigger: bool = now == 3 || ahead == 3;
        let want: i32 = if trigger || self.hold > 0 {
            LED_FULL
        } else {
            LED_DARK
        };
        self.hold_on(trigger);
        let changed: bool = match self.sent {
            Some(last) => last != want,
            None => true,
        };
        self.sent = Some(want);
        if changed {
            Some(want)
        } else {
            None
        }
    }
}

/// For how many more ticks the light is held after a run of ticks, given at
/// which of them there was a trigger.
pub open spec fn hold_after(margin: nat, triggers: Seq<bool>) -> nat
    decreases triggers.len(),
{
    if triggers.len() == 0 {
        0
    } else {
        next_hold(margin, hold_after(margin, triggers.drop_last()), triggers.last())
    }
}

/// Whether the indicator is lit at the last tick of a run.
pub open spec fn lit_after(margin: nat, triggers: Seq<bool>) -> bool {
    triggers.len() > 0 && lit(hold_after(margin, triggers.drop_last()), triggers.last())
}

/// A trigger at tick `s` still lights tick `t`.
pub open spec fn reaches(margin: nat, s: int, t: int) -> bool {
    s <= t <= s + margin
}

/// The indicator is lit exactly at the ticks that a trigger reaches: the tick of
/// the trigger itself, and the whole margin after it.
pub proof fn lit_within_margin_of_trigger(margin: nat, triggers: Seq<bool>)
    requires
        triggers.len() > 0,
    ensures
        lit_after(margin, triggers) <==> exists|s: int|
            0 <= s < triggers.len() && triggers[s] && #[trigger] reaches(
                margin,
                s,
                triggers.len() - 1,
            ),
{
    let t = triggers.len() - 1;
    let shorter = triggers.drop_last();
    lemma_hold(margin, shorter);
    if lit_after(margin, triggers) {
        if triggers.last() {
            assert(reaches(margin, t, t));
        } else {
            let s = choose|s: int|
                0 <= s < shorter.len() && #[trigger] shorter[s] && s + margin == hold_after(
                    margin,
                    shorter,
                ) + shorter.len() - 1;
            assert(triggers[s]);
            assert(reaches(margin, s, t));
        }
    }
    if exists|s: int|
        0 <= s < triggers.len() && triggers[s] && #[trigger] reaches(margin, s, t) {
        let s = choose|s: int|
            0 <= s < triggers.len() && triggers[s] && #[trigger] reaches(margin, s, t);
        if s == t {
            assert(triggers.last());
        } else {
            assert(shorter[s]);
        }
    }
}

/// What is still held is what the latest trigger left.
proof fn lemma_hold(margin: nat, triggers: Seq<bool>)
    ensures
        hold_after(margin, triggers) > 0 ==> exists|s: int|
            0 <= s < triggers.len() && #[trigger] triggers[s] && s + margin == hold_after(
                margin,
                triggers,
            ) + triggers.len() - 1,
        forall|s: int|
            0 <= s < triggers.len() && #[trigger] triggers[s] ==> s + margin <= hold_after(
                margin,
                triggers,
            ) + triggers.len() - 1,
    decreases triggers.len(),
{
    if triggers.len() > 0 {
        let shorter = triggers.drop_last();
        lemma_hold(margin, shorter);
        let h = hold_after(margin, shorter);
        if triggers.last() {
            assert(triggers[triggers.len() - 1]);
        } else if h > 0 {
            let s = choose|s: int|
                0 <= s < shorter.len() && #[trigger] shorter[s] && s + margin == h + shorter.len()
                    - 1;
            assert(triggers[s]);
        }
        assert forall|s: int| 0 <= s < triggers.len() && #[trigger] triggers[s] implies s + margin
            <= hold_after(margin, triggers) + triggers.len() - 1 by {
            if s < shorter.len() {
                assert(shorter[s]);
            }
        }
    }
}

/// The triggers of a run up to tick `t`, those of the look ahead before it first:
/// `margin` ticks that show the support of the first `margin` control ticks, then
/// the control ticks, each of which shows its own support and that a margin later.
pub open spec fn previewed(margin: nat, three: spec_fn(int) -> bool, t: int) -> Seq<bool> {
    Seq::new(
        (margin + t + 1) as nat,
        |j: int| three(j) || (j >= margin && three(j - margin)),
    )
}

/// Tick `u` lies within the margin around tick `t`.
pub open spec fn around(margin: nat, u: int, t: int) -> bool {
    t - margin <= u <= t + margin
}

/// The indicator is lit exactly during three-leg support and within the whole
/// margin before and after it, from the first control tick on.
pub proof fn lit_around_three_support(margin: nat, three: spec_fn(int) -> bool, t: int)
    requires
        t >= 0,
    ensures
        lit_after(margin, previewed(margin, three, t)) <==> exists|u: int|
            u >= 0 && three(u) && #[trigger] around(margin, u, t),
{
    let triggers = previewed(margin, three, t);
    let last = triggers.len() - 1;
    lit_within_margin_of_trigger(margin, triggers);
    if lit_after(margin, triggers) {
        let s = choose|s: int|
            0 <= s < triggers.len() && triggers[s] && #[trigger] reaches(margin, s, last);
        if three(s) {
            assert(around(margin, s, t));
        } else {
            assert(around(margin, s - margin, t));
            assert(three(s - margin));
        }
    }
    if exists|u: int| u >= 0 && three(u) && #[trigger] around(margin, u, t) {
        let u = choose|u: int| u >= 0 && three(u) && #[trigger] around(margin, u, t);
        if u <= t {
            assert(triggers[u + margin]) by {
                assert(three(u + margin - margin));
            }
            assert(reaches(margin, u + margin, last));
        } else {
            assert(triggers[u]);
            assert(reaches(margin, u, last));
        }
    }
}

/// A burst of brightnesses takes what the LED shows from `before` to `after`, by a
/// call where that changes it.
pub open spec fn burst_taken(
    before: i32,
    after: i32,
    first: i32,
    newer: Seq<i32>,
    call: Option<VuiRequest<Seq<char>>>,
) -> bool {
    &&& after == (if newer.len() == 0 {
        first
    } else {
        newer.last()
    })
    &&& call == (if after == before {
        None
    } else {
        Some(brightness_request(after as int))
    })
}

/// Turns brightnesses into calls.
pub struct LedWorker {
    last: i32,
}

impl LedWorker {
    /// The brightness that the LED shows.
    pub closed spec fn shown(self) -> i32 {
        self.last
    }

    /// A worker whose LED is on and dark, and the calls that make it so.
    pub fn start() -> (r: (LedWorker, VuiRequest<String>, VuiRequest<String>))
        ensures
            r.0.shown() == LED_DARK,
            r.1@ == switch_request(true),
            r.2@ == brightness_request(LED_DARK as int),
            r.0.shown() == 0,
            r.2@ == brightness_request(0),
    {
        (LedWorker { last: LED_DARK }, led_switch(true), led_brightness(LED_DARK))
    }

    /// A burst of brightnesses that came in, the newest last. Only the newest
    /// counts; gives the call for it, if it changes what is shown.
    pub fn take(&mut self, first: i32, newer: &Vec<i32>) -> (r: Option<VuiRequest<String>>)
        ensures
            ({
                let level = if newer@.len() == 0 {
                    first
                } else {
                    newer@.last()
                };
                &&& final(self).shown() == level
                &&& if level == old(self).shown() {
                    r is None
                } else {
                    r is Some && (r->0)@ == brightness_request(level as int)
                }
            }),
            burst_taken(
                old(self).shown(),
                final(self).shown(),
                first,
                newer@,
                match r {
                    Some(call) => Some(call@),
                    None => None,
                },
            ),
    {
        let level: i32 = if newer.len() == 0 {
            first
        } else {
            newer[newer.len() - 1]
        };
        if level != self.last {
            self.last = level;
            Some(led_brightness(level))
        } else {
            None
        }
    }

    /// The call that leaves the LED dark.
    pub fn finish(self) -> (r: VuiRequest<String>)
        ensures
            r@ == brightness_request(LED_DARK as int),
            r@ == brightness_request(0),
    {
        led_brightness(LED_DARK)
    }
}

/// A period of three-leg support is told from the legs on the ground: exactly three,
/// now or a margin ahead, light the indicator and renew its hold; two and four do
/// not. What is shown is 10 when lit and 0 when dark.
pub proof fn three_legs_light_the_indicator(margin: nat, hold: nat, now: int, ahead: int)
    ensures
        lit(hold, three_support(now, ahead)) <==> now == 3 || ahead == 3 || hold > 0,
        now == 3 || ahead == 3 ==> next_hold(margin, hold, three_support(now, ahead)) == margin,
        now != 3 && ahead != 3 && hold > 0 ==> next_hold(margin, hold, three_support(now, ahead))
            == hold - 1,
        now != 3 && ahead != 3 && hold == 0 ==> next_hold(margin, hold, three_support(now, ahead))
            == 0,
        brightness(true) == 10,
        brightness(false) == 0,
{
}

/// Of a burst of brightnesses the newest is what the LED shows, and a call is made
/// for it exactly where the LED showed another one.
pub proof fn newest_brightness_is_shown(
    before: i32,
    after: i32,
    first: i32,
    newer: Seq<i32>,
    call: Option<VuiRequest<Seq<char>>>,
)
    requires
        burst_taken(before, after, first, newer, call),
    ensures
        after == (seq![first] + newer).last(),
        call is Some <==> before != after,
        call matches Some(request) ==> request == brightness_request(after as int),
{
}

/// The indicator over a run: after the look ahead and any number of control ticks it
/// shows full brightness at the ticks that are lit by the legs on the ground, and
/// none at the others. `leds` are the indicator's states, from a new indicator on;
/// `foresight` of the steps between them are ticks of the look ahead, the others
/// control ticks.
pub proof fn indicator_goes_by_the_legs(
    leds: Seq<LedIndicator>,
    nows: Seq<int>,
    aheads: Seq<int>,
    sends: Seq<Option<i32>>,
    foresight: nat,
    n: nat,
)
    requires
        leds.len() == n + 1,
        nows.len() == n,
        aheads.len() == n,
        sends.len() == n,
        leds[0].hold() == 0,
        foresight <= n,
        forall|i: int| 0 <= i < foresight ==> foreseen(leds[i], leds[i + 1], #[trigger] aheads[i]),
        forall|i: int|
            foresight <= i < n ==> indicated(
                leds[i],
                leds[i + 1],
                nows[i],
                #[trigger] aheads[i],
                sends[i],
            ),
    ensures
        ({
            let triggers = Seq::new(
                n,
                |i: int| aheads[i] == 3 || (i >= foresight && nows[i] == 3),
            );
            &&& leds[n as int].margin() == leds[0].margin()
            &&& leds[n as int].hold() == hold_after(leds[0].margin(), triggers)
            &&& n > foresight ==> leds[n as int].sent() == Some(
                if lit_after(leds[0].margin(), triggers) {
                    10i32
                } else {
                    0i32
                },
            )
            &&& n > foresight ==> (sends[n - 1] is Some <==> leds[n as int].sent()
                != leds[n - 1].sent())
        }),
    decreases n,
{
    let triggers = Seq::new(n, |i: int| aheads[i] == 3 || (i >= foresight && nows[i] == 3));
    if n > 0 {
        let k = (n - 1) as nat;
        let l = leds.drop_last();
        let w = nows.drop_last();
        let a = aheads.drop_last();
        let s = sends.drop_last();
        let f = if foresight <= k { foresight } else { k };
        assert forall|i: int| 0 <= i < f implies foreseen(l[i], l[i + 1], #[trigger] a[i]) by {
            assert(aheads[i] == a[i]);
        }
        assert forall|i: int| f <= i < k implies indicated(
            l[i],
            l[i + 1],
            w[i],
            #[trigger] a[i],
            s[i],
        ) by {
            assert(aheads[i] == a[i]);
        }
        indicator_goes_by_the_legs(l, w, a, s, f, k);
        let shorter = Seq::new(k, |i: int| a[i] == 3 || (i >= f && w[i] == 3));
        assert(triggers.drop_last() =~= shorter);
        assert(triggers.last() == (aheads[n - 1] == 3 || (n - 1 >= foresight && nows[n - 1] == 3)));
        if n > foresight {
            assert(indicated(
                leds[n - 1],
                leds[n - 1 + 1],
                nows[n - 1],
                aheads[n - 1],
                sends[n - 1],
            ));
        } else {
            assert(foreseen(leds[n - 1], leds[n - 1 + 1], aheads[n - 1]));
        }
    }
}

} // verus!
