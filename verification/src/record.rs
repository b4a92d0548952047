//! What is kept of a run: tracking errors, tilt and heading, and the extent of
//! an intended gait.
//!
//! `T` is the type of measured values; what is computed with them is given from
//! outside.

use vstd::prelude::*;

use crate::telemetry::is_shown;
use crate::telemetry::SAMPLES_PER_LINE;

verus! {

/// The summary of the samples recorded so far.
#[derive(Debug)]
pub struct Recorder<T> {
    pub err_sum: [T; 12],
    pub err_max: [T; 12],
    pub roll_max: T,
    pub pitch_max: T,
    /// The heading of the first sample.
    pub yaw_first: Option<T>,
    /// The largest deviation from it.
    pub yaw_dev_max: T,
    /// The latest deviation from it, with its sign.
    pub yaw_last: T,
    pub samples: u64,
}

/// `after` is `before` or the size of `x`, whichever is larger.
pub open spec fn widened<T, A: Fn(T) -> T, M: Fn(T, T) -> T>(
    before: T,
    x: T,
    after: T,
    size: A,
    larger: M,
) -> bool {
    exists|s: T|
        #![trigger call_ensures(larger, (before, s), after)]
        call_ensures(size, (x,), s) && call_ensures(larger, (before, s), after)
}

/// The error of a motor is added to its sum and taken into its maximum.
pub open spec fn error_taken<
    T,
    D: Fn(T, T) -> T,
    P: Fn(T, T) -> T,
    M: Fn(T, T) -> T,
>(
    commanded: T,
    measured: T,
    sum: (T, T),
    max: (T, T),
    gap: D,
    plus: P,
    larger: M,
) -> bool {
    exists|e: T|
        #![trigger call_ensures(gap, (commanded, measured), e)]
        call_ensures(gap, (commanded, measured), e) && call_ensures(plus, (sum.0, e), sum.1)
            && call_ensures(larger, (max.0, e), max.1)
}

/// The heading of a sample is taken in: the first one is kept as the reference, and
/// the deviation is what `drift` makes of the reference and the heading.
pub open spec fn heading_taken<T, Y: Fn(T, T) -> T>(
    first: (Option<T>, Option<T>),
    yaw: T,
    deviation: T,
    drift: Y,
) -> bool {
    &&& first.1 == Some(
        match first.0 {
            Some(reference) => reference,
            None => yaw,
        },
    )
    &&& call_ensures(drift, (first.1->0, yaw), deviation)
}

impl<T: Copy> Recorder<T> {
    /// Nothing recorded yet.
    pub fn new(zero: T) -> (r: Recorder<T>)
        ensures
            forall|m: int| 0 <= m < 12 ==> #[trigger] r.err_sum@[m] == zero,
            forall|m: int| 0 <= m < 12 ==> #[trigger] r.err_max@[m] == zero,
            r.roll_max == zero,
            r.pitch_max == zero,
            r.yaw_first is None,
            r.yaw_dev_max == zero,
            r.yaw_last == zero,
            r.samples == 0,
    {
        Recorder {
            err_sum: [zero; 12],
            err_max: [zero; 12],
            roll_max: zero,
            pitch_max: zero,
            yaw_first: None,
            yaw_dev_max: zero,
            yaw_last: zero,
            samples: 0,
        }
    }

    /// Takes in a sample: the commanded and the measured angles and the attitude.
    /// `gap` is the distance of two angles, `size` that of one from zero, and
    /// `drift` the turn from a reference heading to a heading. Tells whether the
    /// sample is shown on the console.
    pub fn record<
        D: Fn(T, T) -> T,
        P: Fn(T, T) -> T,
        M: Fn(T, T) -> T,
        A: Fn(T) -> T,
        Y: Fn(T, T) -> T,
    >(
        &mut self,
        commanded: &[T; 12],
        measured: &[T; 12],
        rpy: (T, T, T),
        gap: D,
        plus: P,
        larger: M,
        size: A,
        drift: Y,
    ) -> (r: bool)
        requires
            old(self).samples < u64::MAX,
            forall|a: T, b: T| call_requires(gap, (a, b)),
            forall|a: T, b: T| call_requires(plus, (a, b)),
            forall|a: T, b: T| call_requires(larger, (a, b)),
            forall|a: T| call_requires(size, (a,)),
            forall|a: T, b: T| call_requires(drift, (a, b)),
        ensures
            r == (old(self).samples % SAMPLES_PER_LINE == 0),
            r <==> old(self).samples % 25 == 0,
            final(self).samples == old(self).samples + 1,
            forall|m: int|
                0 <= m < 12 ==> error_taken(
                    commanded@[m],
                    measured@[m],
                    (old(self).err_sum@[m], #[trigger] final(self).err_sum@[m]),
                    (old(self).err_max@[m], final(self).err_max@[m]),
                    gap,
                    plus,
                    larger,
                ),
            widened(old(self).roll_max, rpy.0, final(self).roll_max, size, larger),
            widened(old(self).pitch_max, rpy.1, final(self).pitch_max, size, larger),
            final(self).yaw_first == Some(
                match old(self).yaw_first {
                    Some(first) => first,
                    None => rpy.2,
                },
            ),
            call_ensures(drift, (final(self).yaw_first->0, rpy.2), final(self).yaw_last),
            widened(
                old(self).yaw_dev_max,
                final(self).yaw_last,
                final(self).yaw_dev_max,
                size,
                larger,
            ),
            heading_taken(
                (old(self).yaw_first, final(self).yaw_first),
                rpy.2,
                final(self).yaw_last,
                drift,
            ),
            // The maximum after a sample is what `larger` makes of the maximum
            // before and the error, and the sum is what `plus` makes of the sum.
            exists|errors: Seq<T>| #[trigger]
                errors.len() == 12 && forall|m: int|
                    0 <= m < 12 ==> call_ensures(
                        gap,
                        (commanded@[m], measured@[m]),
                        #[trigger] errors[m],
                    ) && call_ensures(
                        larger,
                        (old(self).err_max@[m], errors[m]),
                        final(self).err_max@[m],
                    ) && call_ensures(
                        plus,
                        (old(self).err_sum@[m], errors[m]),
                        final(self).err_sum@[m],
                    ),
            exists|s: T|
                #![trigger call_ensures(larger, (old(self).roll_max, s), final(self).roll_max)]
                call_ensures(size, (rpy.0,), s) && call_ensures(
                    larger,
                    (old(self).roll_max, s),
                    final(self).roll_max,
                ),
            exists|s: T|
                #![trigger call_ensures(larger, (old(self).pitch_max, s), final(self).pitch_max)]
                call_ensures(size, (rpy.1,), s) && call_ensures(
                    larger,
                    (old(self).pitch_max, s),
                    final(self).pitch_max,
                ),
            exists|s: T|
                #![trigger call_ensures(larger, (old(self).yaw_dev_max, s), final(self).yaw_dev_max)]
                call_ensures(size, (final(self).yaw_last,), s) && call_ensures(
                    larger,
                    (old(self).yaw_dev_max, s),
                    final(self).yaw_dev_max,
                ),
    {
        let ghost before = *self;
        let ghost mut errors: Seq<T> = Seq::empty();
        for m in 0..12usize
            invariant
                errors.len() == m,
                forall|j: int|
                    0 <= j < m ==> call_ensures(
                        gap,
                        (commanded@[j], measured@[j]),
                        #[trigger] errors[j],
                    ) && call_ensures(
                        larger,
                        (before.err_max@[j], errors[j]),
                        self.err_max@[j],
                    ) && call_ensures(plus, (before.err_sum@[j], errors[j]), self.err_sum@[j]),
                forall|a: T, b: T| call_requires(gap, (a, b)),
                forall|a: T, b: T| call_requires(plus, (a, b)),
                forall|a: T, b: T| call_requires(larger, (a, b)),
                forall|j: int|
                    0 <= j < m ==> error_taken(
                        commanded@[j],
                        measured@[j],
                        (before.err_sum@[j], #[trigger] self.err_sum@[j]),
                        (before.err_max@[j], self.err_max@[j]),
                        gap,
                        plus,
                        larger,
                    ),
                forall|j: int|
                    m <= j < 12 ==> self.err_sum@[j] == before.err_sum@[j] && self.err_max@[j]
                        == before.err_max@[j],
                self.roll_max == before.roll_max,
                self.pitch_max == before.pitch_max,
                self.yaw_first == before.yaw_first,
                self.yaw_dev_max == before.yaw_dev_max,
                self.yaw_last == before.yaw_last,
                self.samples == before.samples,
        {
            let ghost earlier = *self;
            let e: T = gap(commanded[m], measured[m]);
            let sum: T = plus(self.err_sum[m], e);
            let max: T = larger(self.err_max[m], e);
            self.err_sum[m] = sum;
            self.err_max[m] = max;
            proof {
                errors = errors.push(e);
            }
            assert forall|j: int| 0 <= j < m + 1 implies error_taken(
                commanded@[j],
                measured@[j],
                (before.err_sum@[j], #[trigger] self.err_sum@[j]),
                (before.err_max@[j], self.err_max@[j]),
                gap,
                plus,
                larger,
            ) by {
                if j < m {
                    assert(self.err_sum@[j] == earlier.err_sum@[j]);
                }
            }
        }
        let roll: T = size(rpy.0);
        self.roll_max = larger(self.roll_max, roll);
        let pitch: T = size(rpy.1);
        self.pitch_max = larger(self.pitch_max, pitch);
        let first: T = match self.yaw_first {
            Some(first) => first,
            None => rpy.2,
        };
        self.yaw_first = Some(first);
        let turned: T = drift(first, rpy.2);
        self.yaw_last = turned;
        let deviation: T = size(turned);
        self.yaw_dev_max = larger(self.yaw_dev_max, deviation);
        assert(errors.len() == 12);
        let shown: bool = is_shown(self.samples, SAMPLES_PER_LINE);
        self.samples = self.samples + 1;
        shown
    }

    /// The mean error of a motor, `zero` where nothing was recorded.
    pub fn mean_error<O: Fn(T, u64) -> T>(&self, m: usize, zero: T, over: O) -> (r: T)
        requires
            m < 12,
            forall|a: T, n: u64| n > 0 ==> call_requires(over, (a, n)),
        ensures
            if self.samples > 0 {
                call_ensures(over, (self.err_sum@[m as int], self.samples), r)
            } else {
                r == zero
            },
    {
        if self.samples > 0 {
            over(self.err_sum[m], self.samples)
        } else {
            zero
        }
    }
}

/// The extent of an intended gait: how far the body gets, and between which
/// bounds the body sways and a foot moves.
#[derive(Debug)]
pub struct IntentExtent<T> {
    /// Where the body was first.
    pub x_first: Option<T>,
    /// Where the body is.
    pub x_last: T,
    pub sway_min: T,
    pub sway_max: T,
    pub foot_min: T,
    pub foot_max: T,
    /// The highest lift of the foot.
    pub lift_max: T,
}

/// One control tick is taken into an extent.
pub open spec fn noted<T, L: Fn(T, T) -> T, M: Fn(T, T) -> T>(
    before: IntentExtent<T>,
    after: IntentExtent<T>,
    x: T,
    sway: T,
    foot: T,
    lift: T,
    smaller: L,
    larger: M,
) -> bool {
    &&& after.x_first == Some(
        match before.x_first {
            Some(first) => first,
            None => x,
        },
    )
    &&& after.x_last == x
    &&& call_ensures(smaller, (before.sway_min, sway), after.sway_min)
    &&& call_ensures(larger, (before.sway_max, sway), after.sway_max)
    &&& call_ensures(smaller, (before.foot_min, foot), after.foot_min)
    &&& call_ensures(larger, (before.foot_max, foot), after.foot_max)
    &&& call_ensures(larger, (before.lift_max, lift), after.lift_max)
}

impl<T: Copy> IntentExtent<T> {
    /// Nothing seen yet: `lowest` and `highest` are the bounds of the values.
    pub fn new(zero: T, lowest: T, highest: T) -> (r: IntentExtent<T>)
        ensures
            r == (IntentExtent {
                x_first: None,
                x_last: zero,
                sway_min: highest,
                sway_max: lowest,
                foot_min: highest,
                foot_max: lowest,
                lift_max: lowest,
            }),
    {
        IntentExtent {
            x_first: None,
            x_last: zero,
            sway_min: highest,
            sway_max: lowest,
            foot_min: highest,
            foot_max: lowest,
            lift_max: lowest,
        }
    }

    /// Takes in one control tick.
    pub fn note<L: Fn(T, T) -> T, M: Fn(T, T) -> T>(
        &mut self,
        x: T,
        sway: T,
        foot: T,
        lift: T,
        smaller: L,
        larger: M,
    )
        requires
            forall|a: T, b: T| call_requires(smaller, (a, b)),
            forall|a: T, b: T| call_requires(larger, (a, b)),
        ensures
            final(self).x_first == Some(
                match old(self).x_first {
                    Some(first) => first,
                    None => x,
                },
            ),
            final(self).x_last == x,
            call_ensures(smaller, (old(self).sway_min, sway), final(self).sway_min),
            call_ensures(larger, (old(self).sway_max, sway), final(self).sway_max),
            call_ensures(smaller, (old(self).foot_min, foot), final(self).foot_min),
            call_ensures(larger, (old(self).foot_max, foot), final(self).foot_max),
            call_ensures(larger, (old(self).lift_max, lift), final(self).lift_max),
            noted(*old(self), *final(self), x, sway, foot, lift, smaller, larger),
    {
        if self.x_first.is_none() {
            self.x_first = Some(x);
        }
        self.x_last = x;
        self.sway_min = smaller(self.sway_min, sway);
        self.sway_max = larger(self.sway_max, sway);
        self.foot_min = smaller(self.foot_min, foot);
        self.foot_max = larger(self.foot_max, foot);
        self.lift_max = larger(self.lift_max, lift);
    }
}

/// `larger` gives one of its two arguments, and neither is above it in the order
/// `le`.
pub open spec fn is_maximum<T, M: Fn(T, T) -> T>(larger: M, le: spec_fn(T, T) -> bool) -> bool {
    &&& forall|a: T, b: T, c: T| #[trigger]
        call_ensures(larger, (a, b), c) ==> (c == a || c == b) && le(a, c) && le(b, c)
    &&& forall|a: T| #[trigger] le(a, a)
    &&& forall|a: T, b: T, c: T| #[trigger] le(a, b) && #[trigger] le(b, c) ==> le(a, c)
}

/// An error of a motor is not above `max`.
pub open spec fn error_within<T, D: Fn(T, T) -> T>(
    commanded: T,
    measured: T,
    max: T,
    gap: D,
    le: spec_fn(T, T) -> bool,
) -> bool {
    exists|e: T| #[trigger] call_ensures(gap, (commanded, measured), e) && le(e, max)
}

/// The size of a tilt is not above `max`.
pub open spec fn tilt_within<T, A: Fn(T) -> T>(
    tilt: T,
    max: T,
    size: A,
    le: spec_fn(T, T) -> bool,
) -> bool {
    exists|s: T| #[trigger] call_ensures(size, (tilt,), s) && le(s, max)
}

/// Over any run of samples the largest error of a motor is at least every error of
/// that motor, and is one of them or what it began with: an earlier large error is
/// never forgotten. `sums` and `maxs` are the motor's sum and maximum before the
/// first sample and after each.
pub proof fn largest_error_is_kept<
    T,
    D: Fn(T, T) -> T,
    P: Fn(T, T) -> T,
    M: Fn(T, T) -> T,
>(
    commanded: Seq<T>,
    measured: Seq<T>,
    sums: Seq<T>,
    maxs: Seq<T>,
    gap: D,
    plus: P,
    larger: M,
    le: spec_fn(T, T) -> bool,
    n: nat,
)
    requires
        commanded.len() == n,
        measured.len() == n,
        sums.len() == n + 1,
        maxs.len() == n + 1,
        is_maximum(larger, le),
        forall|i: int|
            0 <= i < n ==> error_taken(
                #[trigger] commanded[i],
                measured[i],
                (sums[i], sums[i + 1]),
                (maxs[i], maxs[i + 1]),
                gap,
                plus,
                larger,
            ),
    ensures
        forall|i: int|
            0 <= i < n ==> #[trigger] error_within(
                commanded[i],
                measured[i],
                maxs[n as int],
                gap,
                le,
            ),
        maxs[n as int] == maxs[0] || exists|i: int|
            0 <= i < n && call_ensures(
                gap,
                (#[trigger] commanded[i], measured[i]),
                maxs[n as int],
            ),
    decreases n,
{
    if n > 0 {
        let k = (n - 1) as nat;
        let c = commanded.drop_last();
        let d = measured.drop_last();
        let s = sums.drop_last();
        let x = maxs.drop_last();
        assert forall|i: int| 0 <= i < k implies error_taken(
            #[trigger] c[i],
            d[i],
            (s[i], s[i + 1]),
            (x[i], x[i + 1]),
            gap,
            plus,
            larger,
        ) by {
            assert(commanded[i] == c[i]);
        }
        largest_error_is_kept(c, d, s, x, gap, plus, larger, le, k);
        assert(error_taken(
            commanded[n - 1],
            measured[n - 1],
            (sums[n - 1], sums[n - 1 + 1]),
            (maxs[n - 1], maxs[n - 1 + 1]),
            gap,
            plus,
            larger,
        ));
        let e = choose|e: T|
            #![trigger call_ensures(gap, (commanded[n - 1], measured[n - 1]), e)]
            call_ensures(gap, (commanded[n - 1], measured[n - 1]), e) && call_ensures(
                plus,
                (sums[n - 1], e),
                sums[n as int],
            ) && call_ensures(larger, (maxs[n - 1], e), maxs[n as int]);
        assert(le(maxs[n - 1], maxs[n as int]) && le(e, maxs[n as int]));
        assert forall|i: int| 0 <= i < n implies #[trigger] error_within(
            commanded[i],
            measured[i],
            maxs[n as int],
            gap,
            le,
        ) by {
            if i < k {
                assert(c[i] == commanded[i]);
                assert(error_within(c[i], d[i], x[k as int], gap, le));
                let f = choose|f: T| #[trigger]
                    call_ensures(gap, (c[i], d[i]), f) && le(f, x[k as int]);
                assert(call_ensures(gap, (commanded[i], measured[i]), f));
                assert(le(f, maxs[n - 1]) && le(maxs[n - 1], maxs[n as int]));
            } else {
                assert(call_ensures(gap, (commanded[i], measured[i]), e));
            }
        }
        if maxs[n as int] == e {
            assert(call_ensures(gap, (commanded[n - 1], measured[n - 1]), maxs[n as int]));
        } else if x[k as int] != x[0] {
            let i = choose|i: int|
                0 <= i < k && call_ensures(gap, (#[trigger] c[i], d[i]), x[k as int]);
            assert(commanded[i] == c[i]);
        }
    }
}

/// The errors of a motor add up: over any run of samples the sum is made of one
/// error of every sample, each added in its turn to the sum before. `sums` and
/// `maxs` are the motor's sum and maximum before the first sample and after each.
pub proof fn errors_add_up<T, D: Fn(T, T) -> T, P: Fn(T, T) -> T, M: Fn(T, T) -> T>(
    commanded: Seq<T>,
    measured: Seq<T>,
    sums: Seq<T>,
    maxs: Seq<T>,
    gap: D,
    plus: P,
    larger: M,
    errors: Seq<T>,
)
    requires
        forall|i: int|
            0 <= i < errors.len() ==> error_taken(
                #[trigger] commanded[i],
                measured[i],
                (sums[i], sums[i + 1]),
                (maxs[i], maxs[i + 1]),
                gap,
                plus,
                larger,
            ),
        forall|i: int, e: T|
            0 <= i < errors.len() && #[trigger] call_ensures(gap, (commanded[i], measured[i]), e)
                ==> e == errors[i],
    ensures
        forall|i: int|
            0 <= i < errors.len() ==> call_ensures(
                plus,
                (sums[i], #[trigger] errors[i]),
                sums[i + 1],
            ),
{
    assert forall|i: int| 0 <= i < errors.len() implies call_ensures(
        plus,
        (sums[i], #[trigger] errors[i]),
        sums[i + 1],
    ) by {
        assert(error_taken(
            commanded[i],
            measured[i],
            (sums[i], sums[i + 1]),
            (maxs[i], maxs[i + 1]),
            gap,
            plus,
            larger,
        ));
    }
}

/// Over any run of samples the largest tilt is at least the size of every tilt, and
/// is one of these sizes or what it began with.
pub proof fn largest_tilt_is_kept<T, A: Fn(T) -> T, M: Fn(T, T) -> T>(
    tilts: Seq<T>,
    maxs: Seq<T>,
    size: A,
    larger: M,
    le: spec_fn(T, T) -> bool,
    n: nat,
)
    requires
        tilts.len() == n,
        maxs.len() == n + 1,
        is_maximum(larger, le),
        forall|i: int|
            0 <= i < n ==> widened(maxs[i], #[trigger] tilts[i], maxs[i + 1], size, larger),
    ensures
        forall|i: int|
            0 <= i < n ==> #[trigger] tilt_within(tilts[i], maxs[n as int], size, le),
        maxs[n as int] == maxs[0] || exists|i: int|
            0 <= i < n && call_ensures(size, (#[trigger] tilts[i],), maxs[n as int]),
    decreases n,
{
    if n > 0 {
        let k = (n - 1) as nat;
        let t = tilts.drop_last();
        let x = maxs.drop_last();
        assert forall|i: int| 0 <= i < k implies widened(
            x[i],
            #[trigger] t[i],
            x[i + 1],
            size,
            larger,
        ) by {
            assert(tilts[i] == t[i]);
        }
        largest_tilt_is_kept(t, x, size, larger, le, k);
        assert(widened(maxs[n - 1], tilts[n - 1], maxs[n - 1 + 1], size, larger));
        let e = choose|e: T|
            #![trigger call_ensures(larger, (maxs[n - 1], e), maxs[n as int])]
            call_ensures(size, (tilts[n - 1],), e) && call_ensures(
                larger,
                (maxs[n - 1], e),
                maxs[n as int],
            );
        assert(le(maxs[n - 1], maxs[n as int]) && le(e, maxs[n as int]));
        assert forall|i: int| 0 <= i < n implies #[trigger] tilt_within(
            tilts[i],
            maxs[n as int],
            size,
            le,
        ) by {
            if i < k {
                assert(t[i] == tilts[i]);
                assert(tilt_within(t[i], x[k as int], size, le));
                let f = choose|f: T| #[trigger]
                    call_ensures(size, (t[i],), f) && le(f, x[k as int]);
                assert(call_ensures(size, (tilts[i],), f));
                assert(le(f, maxs[n - 1]) && le(maxs[n - 1], maxs[n as int]));
            } else {
                assert(call_ensures(size, (tilts[i],), e));
            }
        }
        if maxs[n as int] == e {
            assert(call_ensures(size, (tilts[n - 1],), maxs[n as int]));
        } else if x[k as int] != x[0] {
            let i = choose|i: int|
                0 <= i < k && call_ensures(size, (#[trigger] t[i],), x[k as int]);
            assert(tilts[i] == t[i]);
        }
    }
}

/// The heading is held against that of the first sample: over any run of samples
/// the reference stays the first heading, and the deviation is the turn from it to
/// the latest one.
pub proof fn heading_is_held_against_the_first<T, Y: Fn(T, T) -> T>(
    firsts: Seq<Option<T>>,
    yaws: Seq<T>,
    deviations: Seq<T>,
    drift: Y,
    n: nat,
)
    requires
        n > 0,
        yaws.len() == n,
        deviations.len() == n,
        firsts.len() == n + 1,
        firsts[0] is None,
        forall|i: int|
            0 <= i < n ==> heading_taken(
                (firsts[i], firsts[i + 1]),
                #[trigger] yaws[i],
                deviations[i],
                drift,
            ),
    ensures
        firsts[n as int] == Some(yaws[0]),
        call_ensures(drift, (yaws[0], yaws[n - 1]), deviations[n - 1]),
    decreases n,
{
    assert(heading_taken(
        (firsts[n - 1], firsts[n - 1 + 1]),
        yaws[n - 1],
        deviations[n - 1],
        drift,
    ));
    if n > 1 {
        let y = yaws.drop_last();
        let d = deviations.drop_last();
        let f = firsts.drop_last();
        assert forall|i: int| 0 <= i < n - 1 implies heading_taken(
            (f[i], f[i + 1]),
            #[trigger] y[i],
            d[i],
            drift,
        ) by {
            assert(yaws[i] == y[i]);
        }
        heading_is_held_against_the_first(f, y, d, drift, (n - 1) as nat);
    }
}

/// Over any run of ticks an extent begins where the body was first and ends where
/// it is, and its bounds hold everything that was seen: no sway, foot place or lift
/// is outside them.
pub proof fn extent_holds_all_that_was_seen<T, L: Fn(T, T) -> T, M: Fn(T, T) -> T>(
    states: Seq<IntentExtent<T>>,
    xs: Seq<T>,
    sways: Seq<T>,
    feet: Seq<T>,
    lifts: Seq<T>,
    smaller: L,
    larger: M,
    le: spec_fn(T, T) -> bool,
    n: nat,
)
    requires
        n > 0,
        states.len() == n + 1,
        xs.len() == n,
        sways.len() == n,
        feet.len() == n,
        lifts.len() == n,
        states[0].x_first is None,
        is_maximum(larger, le),
        is_maximum(smaller, |a: T, b: T| le(b, a)),
        forall|i: int|
            0 <= i < n ==> noted(
                states[i],
                states[i + 1],
                #[trigger] xs[i],
                sways[i],
                feet[i],
                lifts[i],
                smaller,
                larger,
            ),
    ensures
        states[n as int].x_first == Some(xs[0]),
        states[n as int].x_last == xs[n - 1],
        forall|i: int|
            0 <= i < n ==> {
                &&& le(states[n as int].sway_min, #[trigger] sways[i])
                &&& le(sways[i], states[n as int].sway_max)
                &&& le(states[n as int].foot_min, feet[i])
                &&& le(feet[i], states[n as int].foot_max)
                &&& le(lifts[i], states[n as int].lift_max)
            },
    decreases n,
{
    let under = |a: T, b: T| le(b, a);
    let last = states[n as int];
    let prev = states[n - 1];
    assert(noted(
        prev,
        states[n - 1 + 1],
        xs[n - 1],
        sways[n - 1],
        feet[n - 1],
        lifts[n - 1],
        smaller,
        larger,
    ));
    assert(under(sways[n - 1], last.sway_min) && under(prev.sway_min, last.sway_min));
    assert(under(feet[n - 1], last.foot_min) && under(prev.foot_min, last.foot_min));
    assert(le(sways[n - 1], last.sway_max) && le(prev.sway_max, last.sway_max));
    assert(le(feet[n - 1], last.foot_max) && le(prev.foot_max, last.foot_max));
    assert(le(lifts[n - 1], last.lift_max) && le(prev.lift_max, last.lift_max));
    if n > 1 {
        let k = (n - 1) as nat;
        let st = states.drop_last();
        let x = xs.drop_last();
        let s = sways.drop_last();
        let f = feet.drop_last();
        let l = lifts.drop_last();
        assert forall|i: int| 0 <= i < k implies noted(
            st[i],
            st[i + 1],
            #[trigger] x[i],
            s[i],
            f[i],
            l[i],
            smaller,
            larger,
        ) by {
            assert(xs[i] == x[i]);
        }
        extent_holds_all_that_was_seen(st, x, s, f, l, smaller, larger, le, k);
        assert forall|i: int| 0 <= i < n implies {
            &&& le(last.sway_min, #[trigger] sways[i])
            &&& le(sways[i], last.sway_max)
            &&& le(last.foot_min, feet[i])
            &&& le(feet[i], last.foot_max)
            &&& le(lifts[i], last.lift_max)
        } by {
            if i < k {
                assert(s[i] == sways[i]);
                assert(le(prev.sway_min, sways[i]) && le(sways[i], prev.sway_max));
                assert(le(prev.foot_min, feet[i]) && le(feet[i], prev.foot_max));
                assert(le(lifts[i], prev.lift_max));
            }
        }
    }
}

} // verus!
