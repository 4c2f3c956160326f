//! Edge detection on analog axes: a normalized signal is turned into
//! discrete events, with a hysteresis band between the threshold that fires
//! an event and the threshold that re-arms the axis.
//!
//! Signal values are exact fractions. An axis counts as deflected beyond
//! one half, as centered within three tenths, and as moved when it differs
//! from the last recorded value by more than three tenths.

use vstd::prelude::*;

verus! {

/// The largest denominator of a signal value: the widest logical range a
/// 32-bit descriptor field can declare.
pub const MAX_DENOMINATOR: i64 = 0xFFFF_FFFF;

/// The largest magnitude of a numerator.
pub const MAX_NUMERATOR: i64 = 0x4_0000_0000;

/// A signal value as the exact fraction `num / den`.
#[derive(Clone, Copy, Debug, PartialEq, Eq, Structural)]
pub struct AxisValue {
    pub num: i64,
    pub den: i64,
}

/// The sign of a deflection.
#[derive(Clone, Copy, Debug, PartialEq, Eq, Structural)]
pub enum Direction {
    Positive,
    Negative,
}

/// What is remembered of one axis between two samples.
#[derive(Clone, Copy, Debug, PartialEq, Eq, Structural)]
pub struct AxisEdgeState {
    /// The value at the last centered sample or the last event.
    pub last_value: AxisValue,
    /// The direction of the last event since the axis was last centered.
    pub last_triggered_direction: Option<Direction>,
}

impl AxisValue {
    /// The denominator is positive and both parts are within the bounds
    /// that keep the comparisons below free of overflow.
    pub open spec fn wf(self) -> bool {
        &&& 0 < self.den <= MAX_DENOMINATOR
        &&& -MAX_NUMERATOR <= self.num <= MAX_NUMERATOR
    }

    /// The value is greater than one half.
    pub open spec fn above_trigger(self) -> bool {
        2 * self.num > self.den
    }

    /// The value is less than minus one half.
    pub open spec fn below_trigger(self) -> bool {
        2 * self.num < -self.den
    }

    /// The magnitude of the value is less than three tenths.
    pub open spec fn centered(self) -> bool {
        -3 * self.den < 10 * self.num < 3 * self.den
    }

    /// The value differs from `last` by more than three tenths.
    pub open spec fn moved_from(self, last: AxisValue) -> bool {
        let cross = self.num * last.den - last.num * self.den;
        let floor = 3 * (self.den * last.den);
        10 * cross > floor || 10 * cross < -floor
    }

    /// The magnitude of the value is greater than `p / q`.
    pub open spec fn magnitude_exceeds(self, p: int, q: int) -> bool {
        q * self.num > p * self.den || q * self.num < -(p * self.den)
    }

    /// The value differs from `other` by more than `p / q`.
    pub open spec fn distance_exceeds(self, other: AxisValue, p: int, q: int) -> bool {
        let cross = self.num * other.den - other.num * self.den;
        let floor = p * (self.den * other.den);
        q * cross > floor || q * cross < -floor
    }

    pub fn is_above_trigger(&self) -> (r: bool)
        requires
            self.wf(),
        ensures
            r == self.above_trigger(),
    {
        2 * self.num > self.den
    }

    pub fn is_below_trigger(&self) -> (r: bool)
        requires
            self.wf(),
        ensures
            r == self.below_trigger(),
    {
        2 * self.num < -self.den
    }

    pub fn is_centered(&self) -> (r: bool)
        requires
            self.wf(),
        ensures
            r == self.centered(),
    {
        let band: i64 = 3 * self.den;
        let scaled: i64 = 10 * self.num;
        -band < scaled && scaled < band
    }

    pub fn exceeds_magnitude(&self, p: u8, q: u8) -> (r: bool)
        requires
            self.wf(),
        ensures
            r == self.magnitude_exceeds(p as int, q as int),
    {
        let n: i128 = self.num as i128;
        let d: i128 = self.den as i128;
        let pp: i128 = p as i128;
        let qq: i128 = q as i128;
        assert(-255 * 0x4_0000_0000 <= qq * n <= 255 * 0x4_0000_0000) by (nonlinear_arith)
            requires
                -0x4_0000_0000 <= n <= 0x4_0000_0000,
                0 <= qq <= 255,
        ;
        assert(0 <= pp * d <= 255 * 0xFFFF_FFFF) by (nonlinear_arith)
            requires
                0 < d <= 0xFFFF_FFFF,
                0 <= pp <= 255,
        ;
        qq * n > pp * d || qq * n < -(pp * d)
    }

    pub fn exceeds_distance(&self, other: &AxisValue, p: u8, q: u8) -> (r: bool)
        requires
            self.wf(),
            other.wf(),
        ensures
            r == self.distance_exceeds(*other, p as int, q as int),
    {
        let a: i128 = self.num as i128;
        let b: i128 = other.den as i128;
        let c: i128 = other.num as i128;
        let d: i128 = self.den as i128;
        let pp: i128 = p as i128;
        let qq: i128 = q as i128;
        assert(-0x4_0000_0000 * 0xFFFF_FFFF <= a * b <= 0x4_0000_0000 * 0xFFFF_FFFF)
            by (nonlinear_arith)
            requires
                -0x4_0000_0000 <= a <= 0x4_0000_0000,
                0 < b <= 0xFFFF_FFFF,
        ;
        assert(-0x4_0000_0000 * 0xFFFF_FFFF <= c * d <= 0x4_0000_0000 * 0xFFFF_FFFF)
            by (nonlinear_arith)
            requires
                -0x4_0000_0000 <= c <= 0x4_0000_0000,
                0 < d <= 0xFFFF_FFFF,
        ;
        assert(0 < d * b <= 0xFFFF_FFFF * 0xFFFF_FFFF) by (nonlinear_arith)
            requires
                0 < b <= 0xFFFF_FFFF,
                0 < d <= 0xFFFF_FFFF,
        ;
        let cross: i128 = a * b - c * d;
        let area: i128 = d * b;
        assert(-255 * (2 * 0x4_0000_0000 * 0xFFFF_FFFF) <= qq * cross <= 255 * (2 * 0x4_0000_0000
            * 0xFFFF_FFFF)) by (nonlinear_arith)
            requires
                -2 * 0x4_0000_0000 * 0xFFFF_FFFF <= cross <= 2 * 0x4_0000_0000 * 0xFFFF_FFFF,
                0 <= qq <= 255,
        ;
        assert(0 <= pp * area <= 255 * (0xFFFF_FFFF * 0xFFFF_FFFF)) by (nonlinear_arith)
            requires
                0 < area <= 0xFFFF_FFFF * 0xFFFF_FFFF,
                0 <= pp <= 255,
        ;
        let floor: i128 = pp * area;
        qq * cross > floor || qq * cross < -floor
    }

    pub fn has_moved_from(&self, last: &AxisValue) -> (r: bool)
        requires
            self.wf(),
            last.wf(),
        ensures
            r == self.moved_from(*last),
    {
        let a: i128 = self.num as i128;
        let b: i128 = last.den as i128;
        let c: i128 = last.num as i128;
        let d: i128 = self.den as i128;
        assert(-0x4_0000_0000 * 0xFFFF_FFFF <= a * b <= 0x4_0000_0000 * 0xFFFF_FFFF)
            by (nonlinear_arith)
            requires
                -0x4_0000_0000 <= a <= 0x4_0000_0000,
                0 < b <= 0xFFFF_FFFF,
        ;
        assert(-0x4_0000_0000 * 0xFFFF_FFFF <= c * d <= 0x4_0000_0000 * 0xFFFF_FFFF)
            by (nonlinear_arith)
            requires
                -0x4_0000_0000 <= c <= 0x4_0000_0000,
                0 < d <= 0xFFFF_FFFF,
        ;
        assert(0 < d * b <= 0xFFFF_FFFF * 0xFFFF_FFFF) by (nonlinear_arith)
            requires
                0 < b <= 0xFFFF_FFFF,
                0 < d <= 0xFFFF_FFFF,
        ;
        let cross: i128 = a * b - c * d;
        let floor: i128 = 3 * (d * b);
        10 * cross > floor || 10 * cross < -floor
    }
}

impl AxisEdgeState {
    pub open spec fn wf(self) -> bool {
        self.last_value.wf()
    }

    /// The state of an axis first seen at `value`: nothing has fired yet.
    pub open spec fn resting_at(value: AxisValue) -> AxisEdgeState {
        AxisEdgeState { last_value: value, last_triggered_direction: None }
    }

    /// One sample: the next state and the event that the sample fires.
    ///
    /// A centered sample clears the remembered direction. A sample beyond
    /// a trigger threshold fires when the axis has moved far enough from
    /// the last recorded value and the remembered direction is not already
    /// that of the sample.
    pub open spec fn step_spec(self, v: AxisValue) -> (AxisEdgeState, Option<Direction>) {
        let moved = v.moved_from(self.last_value);
        let armed = if v.centered() {
            AxisEdgeState::resting_at(v)
        } else {
            self
        };
        if v.above_trigger() && moved && armed.last_triggered_direction != Some(
            Direction::Positive,
        ) {
            (
                AxisEdgeState {
                    last_value: v,
                    last_triggered_direction: Some(Direction::Positive),
                },
                Some(Direction::Positive),
            )
        } else if v.below_trigger() && moved && armed.last_triggered_direction != Some(
            Direction::Negative,
        ) {
            (
                AxisEdgeState {
                    last_value: v,
                    last_triggered_direction: Some(Direction::Negative),
                },
                Some(Direction::Negative),
            )
        } else {
            (armed, None)
        }
    }

    /// The state of an axis first seen at `value`.
    pub fn new(value: AxisValue) -> (s: AxisEdgeState)
        ensures
            s == AxisEdgeState::resting_at(value),
    {
        AxisEdgeState { last_value: value, last_triggered_direction: None }
    }

    /// Takes one sample and returns the event it fires, if any.
    pub fn step(&mut self, v: AxisValue) -> (event: Option<Direction>)
        requires
            old(self).wf(),
            v.wf(),
        ensures
            (*final(self), event) == old(self).step_spec(v),
            final(self).wf(),
    {
        let moved = v.has_moved_from(&self.last_value);
        if v.is_centered() {
            self.last_value = v;
            self.last_triggered_direction = None;
        }
        let was_positive = match self.last_triggered_direction {
            Some(Direction::Positive) => true,
            _ => false,
        };
        let was_negative = match self.last_triggered_direction {
            Some(Direction::Negative) => true,
            _ => false,
        };
        if v.is_above_trigger() && moved && !was_positive {
            self.last_value = v;
            self.last_triggered_direction = Some(Direction::Positive);
            Some(Direction::Positive)
        } else if v.is_below_trigger() && moved && !was_negative {
            self.last_value = v;
            self.last_triggered_direction = Some(Direction::Negative);
            Some(Direction::Negative)
        } else {
            None
        }
    }
}

/// The state of an axis after a run of samples.
pub open spec fn run_state(s: AxisEdgeState, samples: Seq<AxisValue>) -> AxisEdgeState
    decreases samples.len(),
{
    if samples.len() == 0 {
        s
    } else {
        run_state(s, samples.drop_last()).step_spec(samples.last()).0
    }
}

/// How many events of direction `d` a run of samples fires.
pub open spec fn fired(s: AxisEdgeState, samples: Seq<AxisValue>, d: Direction) -> nat
    decreases samples.len(),
{
    if samples.len() == 0 {
        0
    } else {
        let before = run_state(s, samples.drop_last());
        let here: nat = if before.step_spec(samples.last()).1 == Some(d) {
            1
        } else {
            0
        };
        fired(s, samples.drop_last(), d) + here
    }
}

/// A run of two parts is the run of the second part from where the first
/// part ended.
pub proof fn lemma_run_concat(
    s: AxisEdgeState,
    a: Seq<AxisValue>,
    b: Seq<AxisValue>,
    d: Direction,
)
    ensures
        run_state(s, a + b) == run_state(run_state(s, a), b),
        fired(s, a + b, d) == fired(s, a, d) + fired(run_state(s, a), b, d),
    decreases b.len(),
{
    if b.len() == 0 {
        assert(a + b =~= a);
    } else {
        assert((a + b).drop_last() =~= a + b.drop_last());
        assert((a + b).last() == b.last());
        lemma_run_concat(s, a, b.drop_last(), d);
    }
}

/// While the axis stays outside the centered band and never passes the
/// threshold opposite to the direction that fired last, nothing fires and
/// the remembered direction stays.
pub proof fn lemma_held_fires_nothing(
    s: AxisEdgeState,
    held: Direction,
    samples: Seq<AxisValue>,
    d: Direction,
)
    requires
        s.last_triggered_direction == Some(held),
        forall|i: int| 0 <= i < samples.len() ==> !(#[trigger] samples[i]).centered(),
        held == Direction::Positive ==> forall|i: int|
            0 <= i < samples.len() ==> !(#[trigger] samples[i]).below_trigger(),
        held == Direction::Negative ==> forall|i: int|
            0 <= i < samples.len() ==> !(#[trigger] samples[i]).above_trigger(),
    ensures
        fired(s, samples, d) == 0,
        run_state(s, samples) == s,
    decreases samples.len(),
{
    if samples.len() > 0 {
        let init = samples.drop_last();
        assert forall|i: int| 0 <= i < init.len() implies !(#[trigger] init[i]).centered() by {
            assert(init[i] == samples[i]);
        }
        if held == Direction::Positive {
            assert forall|i: int| 0 <= i < init.len() implies !(#[trigger] init[i]).below_trigger() by {
                assert(init[i] == samples[i]);
            }
        } else {
            assert forall|i: int| 0 <= i < init.len() implies !(#[trigger] init[i]).above_trigger() by {
                assert(init[i] == samples[i]);
            }
        }
        lemma_held_fires_nothing(s, held, init, d);
        let last = samples[samples.len() - 1];
        assert(!last.centered());
    }
}

/// A run of centered samples fires nothing and leaves the axis re-armed at
/// the last of them.
pub proof fn lemma_centered_rearms(s: AxisEdgeState, samples: Seq<AxisValue>, d: Direction)
    requires
        samples.len() > 0,
        forall|i: int| 0 <= i < samples.len() ==> (#[trigger] samples[i]).wf(),
        forall|i: int| 0 <= i < samples.len() ==> (#[trigger] samples[i]).centered(),
    ensures
        fired(s, samples, d) == 0,
        run_state(s, samples) == AxisEdgeState::resting_at(samples.last()),
    decreases samples.len(),
{
    let init = samples.drop_last();
    let last = samples[samples.len() - 1];
    assert(last.centered() && last.wf());
    if init.len() > 0 {
        assert forall|i: int| 0 <= i < init.len() implies (#[trigger] init[i]).centered() by {
            assert(init[i] == samples[i]);
        }
        assert forall|i: int| 0 <= i < init.len() implies (#[trigger] init[i]).wf() by {
            assert(init[i] == samples[i]);
        }
        lemma_centered_rearms(s, init, d);
    } else {
        assert(run_state(s, init) == s);
        assert(fired(s, init, d) == 0);
    }
}

/// A sample between the bands is neither centered nor beyond a trigger
/// threshold.
pub open spec fn between_bands(v: AxisValue) -> bool {
    !v.centered() && !v.above_trigger() && !v.below_trigger()
}

/// Samples between the bands fire nothing and change nothing.
pub proof fn lemma_between_bands_changes_nothing(
    s: AxisEdgeState,
    samples: Seq<AxisValue>,
    d: Direction,
)
    requires
        forall|i: int| 0 <= i < samples.len() ==> between_bands(#[trigger] samples[i]),
    ensures
        fired(s, samples, d) == 0,
        run_state(s, samples) == s,
    decreases samples.len(),
{
    if samples.len() > 0 {
        let init = samples.drop_last();
        assert forall|i: int| 0 <= i < init.len() implies between_bands(#[trigger] init[i]) by {
            assert(init[i] == samples[i]);
        }
        lemma_between_bands_changes_nothing(s, init, d);
        assert(between_bands(samples[samples.len() - 1]));
    }
}

/// A deflection beyond the positive threshold fires exactly one positive
/// event and no negative one, however long it is held, provided the axis
/// was armed and the deflection moved it far enough. While it is held the
/// axis may come back between the bands, but not into the centered band
/// and not beyond the negative threshold.
pub proof fn lemma_deflection_fires_once(
    s: AxisEdgeState,
    deflection: AxisValue,
    held: Seq<AxisValue>,
)
    requires
        s.last_triggered_direction is None,
        deflection.wf(),
        deflection.above_trigger(),
        deflection.moved_from(s.last_value),
        forall|i: int| 0 <= i < held.len() ==> !(#[trigger] held[i]).centered(),
        forall|i: int| 0 <= i < held.len() ==> !(#[trigger] held[i]).below_trigger(),
    ensures
        fired(s, seq![deflection] + held, Direction::Positive) == 1,
        fired(s, seq![deflection] + held, Direction::Negative) == 0,
        run_state(s, seq![deflection] + held).last_triggered_direction == Some(
            Direction::Positive,
        ),
{
    let first = seq![deflection];
    assert(first.drop_last() =~= Seq::<AxisValue>::empty());
    assert(first.last() == deflection);
    let after = s.step_spec(deflection).0;
    assert(run_state(s, first.drop_last()) == s);
    assert(run_state(s, first) == after);
    assert(fired(s, first.drop_last(), Direction::Positive) == 0);
    assert(fired(s, first.drop_last(), Direction::Negative) == 0);
    assert(fired(s, first, Direction::Positive) == 1);
    assert(fired(s, first, Direction::Negative) == 0);
    lemma_held_fires_nothing(after, Direction::Positive, held, Direction::Positive);
    lemma_held_fires_nothing(after, Direction::Positive, held, Direction::Negative);
    lemma_run_concat(s, first, held, Direction::Positive);
    lemma_run_concat(s, first, held, Direction::Negative);
}

/// Hysteresis: an axis that passes the positive threshold, comes back into
/// the centered band and passes the positive threshold again fires exactly
/// two positive events and no negative one, whenever each passage moves
/// the axis by more than the movement floor.
///
/// The run is taken apart as it happens: samples between the bands on the
/// way up, the first sample beyond the threshold, the samples while the
/// deflection is held, the samples inside the centered band, samples
/// between the bands on the way up again, the second sample beyond the
/// threshold, and the samples while that deflection is held.
pub proof fn lemma_two_deflections_fire_twice(
    s: AxisEdgeState,
    rising: Seq<AxisValue>,
    first: AxisValue,
    held: Seq<AxisValue>,
    resting: Seq<AxisValue>,
    rising_again: Seq<AxisValue>,
    second: AxisValue,
    held_again: Seq<AxisValue>,
)
    requires
        s.last_triggered_direction is None,
        first.wf(),
        second.wf(),
        resting.len() > 0,
        forall|i: int| 0 <= i < resting.len() ==> (#[trigger] resting[i]).wf(),
        forall|i: int| 0 <= i < rising.len() ==> between_bands(#[trigger] rising[i]),
        first.above_trigger(),
        first.moved_from(s.last_value),
        forall|i: int| 0 <= i < held.len() ==> !(#[trigger] held[i]).centered(),
        forall|i: int| 0 <= i < held.len() ==> !(#[trigger] held[i]).below_trigger(),
        forall|i: int| 0 <= i < resting.len() ==> (#[trigger] resting[i]).centered(),
        forall|i: int| 0 <= i < rising_again.len() ==> between_bands(#[trigger] rising_again[i]),
        second.above_trigger(),
        second.moved_from(resting.last()),
        forall|i: int| 0 <= i < held_again.len() ==> !(#[trigger] held_again[i]).centered(),
        forall|i: int| 0 <= i < held_again.len() ==> !(#[trigger] held_again[i]).below_trigger(),
    ensures
        fired(
            s,
            rising + (seq![first] + held) + resting + rising_again + (seq![second] + held_again),
            Direction::Positive,
        ) == 2,
        fired(
            s,
            rising + (seq![first] + held) + resting + rising_again + (seq![second] + held_again),
            Direction::Negative,
        ) == 0,
{
    let up = seq![first] + held;
    let up_again = seq![second] + held_again;
    let s1 = run_state(s, rising);
    let s2 = run_state(s1, up);
    let s3 = run_state(s2, resting);
    let s4 = run_state(s3, rising_again);
    lemma_between_bands_changes_nothing(s, rising, Direction::Positive);
    lemma_between_bands_changes_nothing(s, rising, Direction::Negative);
    lemma_deflection_fires_once(s1, first, held);
    lemma_centered_rearms(s2, resting, Direction::Positive);
    lemma_centered_rearms(s2, resting, Direction::Negative);
    lemma_between_bands_changes_nothing(s3, rising_again, Direction::Positive);
    lemma_between_bands_changes_nothing(s3, rising_again, Direction::Negative);
    lemma_deflection_fires_once(s4, second, held_again);
    lemma_run_concat(s, rising, up, Direction::Positive);
    lemma_run_concat(s, rising, up, Direction::Negative);
    lemma_run_concat(s, rising + up, resting, Direction::Positive);
    lemma_run_concat(s, rising + up, resting, Direction::Negative);
    lemma_run_concat(s, rising + up + resting, rising_again, Direction::Positive);
    lemma_run_concat(s, rising + up + resting, rising_again, Direction::Negative);
    lemma_run_concat(s, rising + up + resting + rising_again, up_again, Direction::Positive);
    lemma_run_concat(s, rising + up + resting + rising_again, up_again, Direction::Negative);
}

/// A sample inside the centered band fires nothing, clears the direction
/// that was remembered and is itself recorded as the last value.
pub proof fn lemma_centered_clears_direction(s: AxisEdgeState, v: AxisValue)
    requires
        v.wf(),
        v.centered(),
    ensures
        s.step_spec(v).0 == AxisEdgeState::resting_at(v),
        s.step_spec(v).1 is None,
{
}

/// Hysteresis: once an event has fired, no second event of any direction
/// fires while the axis stays outside the centered band and does not pass
/// the threshold on the other side.
pub proof fn lemma_no_refire_until_centered(
    s: AxisEdgeState,
    v: AxisValue,
    fired_first: Direction,
    held: Seq<AxisValue>,
    d: Direction,
)
    requires
        s.step_spec(v).1 == Some(fired_first),
        forall|i: int| 0 <= i < held.len() ==> !(#[trigger] held[i]).centered(),
        fired_first == Direction::Positive ==> forall|i: int|
            0 <= i < held.len() ==> !(#[trigger] held[i]).below_trigger(),
        fired_first == Direction::Negative ==> forall|i: int|
            0 <= i < held.len() ==> !(#[trigger] held[i]).above_trigger(),
    ensures
        fired(s.step_spec(v).0, held, d) == 0,
{
    lemma_held_fires_nothing(s.step_spec(v).0, fired_first, held, d);
}

/// A reversal is an event of its own: a sample beyond the negative
/// threshold right after a positive event fires a negative event. The
/// remembered direction is not that of the sample, and the movement from
/// the recorded value is more than one whole unit.
pub proof fn lemma_reversal_fires(s: AxisEdgeState, up: AxisValue, down: AxisValue)
    requires
        s.wf(),
        up.wf(),
        down.wf(),
        s.step_spec(up).1 == Some(Direction::Positive),
        down.below_trigger(),
    ensures
        s.step_spec(up).0.step_spec(down).1 == Some(Direction::Negative),
{
    let a = down.num as int;
    let b = up.den as int;
    let c = up.num as int;
    let d = down.den as int;
    assert(10 * (a * b - c * d) < -(3 * (d * b))) by (nonlinear_arith)
        requires
            2 * a < -d,
            2 * c > b,
            b > 0,
            d > 0,
    ;
}

} // verus!
