//! Session spending pace derived from timestamped usage snapshots.
//!
//! Usage is reported in whole percentages, so a single difference is noisy.
//! Enough timed intervals are kept to average over half an hour, and a long
//! outage is never bridged: a change observed after a disconnect says nothing
//! about when the spending happened.

use vstd::prelude::*;

verus! {

/// Seconds of history the rate averages over.
pub const WINDOW_SECONDS: u32 = 1800;

/// Seconds of continuous observation needed before a rate is reported.
pub const MINIMUM_COVERAGE_SECONDS: u32 = 300;

/// Longest interval between two readings that still counts as continuous.
pub const MAXIMUM_SAMPLE_GAP_SECONDS: u32 = 180;

/// Intervals kept.
pub const SEGMENTS: usize = 64;

/// Fixed-point scale of the spending sum.
pub const SCALE: u64 = 1_000_000;

/// One observed interval: the percent gained in it and how long it lasted.
#[derive(Debug, Clone, Copy, PartialEq, Eq, Structural)]
pub struct Segment {
    pub delta: u8,
    pub elapsed_seconds: u32,
}

/// What a [`Pace`] has observed.
#[verifier::ext_equal]
pub struct Observed {
    /// The kept intervals, newest first.
    pub intervals: Seq<Segment>,
    /// The latest reading.
    pub previous: Option<u8>,
}

/// Percent gained from one reading to the next; a drop is a rolling-window
/// reset and counts as no gain.
pub open spec fn gain(from: u8, to: u8) -> u8 {
    if to >= from { (to - from) as u8 } else { 0 }
}

impl Observed {
    /// Nothing observed.
    pub open spec fn nothing() -> Observed {
        Observed { intervals: Seq::empty(), previous: None }
    }

    /// Every interval was short enough to count, and no more are kept than fit.
    pub open spec fn valid(self) -> bool {
        &&& self.intervals.len() <= SEGMENTS
        &&& forall|n: int| 0 <= n < self.intervals.len() ==> 1 <= (
        #[trigger] self.intervals[n]).elapsed_seconds <= MAXIMUM_SAMPLE_GAP_SECONDS
    }

    /// The observations after one more reading.
    ///
    /// The first reading only sets a baseline. A gap that is empty or too long
    /// discards the intervals. Otherwise the interval joins the kept ones and,
    /// when there is no room, the oldest leaves.
    pub open spec fn after(self, percent: u8, elapsed_seconds: u32) -> Observed {
        let intervals = match self.previous {
            None => self.intervals,
            Some(previous) => if elapsed_seconds == 0 || elapsed_seconds
                > MAXIMUM_SAMPLE_GAP_SECONDS {
                Seq::empty()
            } else {
                let segment = Segment { delta: gain(previous, percent), elapsed_seconds };
                let kept = if self.intervals.len() < SEGMENTS {
                    self.intervals
                } else {
                    self.intervals.drop_last()
                };
                seq![segment] + kept
            },
        };
        Observed { intervals, previous: Some(percent) }
    }
}

/// Seconds spanned by the `count` newest intervals.
pub open spec fn span(intervals: Seq<Segment>, count: int) -> int
    decreases count,
{
    if count <= 0 {
        0
    } else {
        span(intervals, count - 1) + intervals[count - 1].elapsed_seconds
    }
}

/// `seconds`, but no more than the rate's window.
pub open spec fn within_window(seconds: int) -> int {
    if seconds < WINDOW_SECONDS { seconds } else { WINDOW_SECONDS as int }
}

/// Seconds of the window that the observations cover.
pub open spec fn coverage(intervals: Seq<Segment>) -> int {
    within_window(span(intervals, intervals.len() as int))
}

/// How many seconds of the `n`th newest interval lie inside the window.
pub open spec fn included(intervals: Seq<Segment>, n: int) -> int {
    within_window(span(intervals, n + 1)) - within_window(span(intervals, n))
}

/// Scaled percent spent inside the window by the `count` newest intervals, an
/// interval that straddles the window's edge contributing its share.
pub open spec fn scaled_spending(intervals: Seq<Segment>, count: int) -> int
    decreases count,
{
    if count <= 0 {
        0
    } else {
        let segment = intervals[count - 1];
        scaled_spending(intervals, count - 1) + (segment.delta * included(intervals, count - 1)
            * SCALE) / (segment.elapsed_seconds as int)
    }
}

/// Percent per hour for `scaled` spending over `seconds`, rounded half up and
/// capped at what the display can show.
pub open spec fn hourly(scaled: int, seconds: int) -> int {
    let rounded = (scaled * 3600 / seconds + SCALE / 2) / (SCALE as int);
    if rounded > u16::MAX { u16::MAX as int } else { rounded }
}

/// The reported rate: nothing before enough time is covered.
pub open spec fn rate(intervals: Seq<Segment>) -> Option<u16> {
    if coverage(intervals) < MINIMUM_COVERAGE_SECONDS {
        None
    } else {
        Some(
            hourly(
                scaled_spending(intervals, intervals.len() as int),
                coverage(intervals),
            ) as u16,
        )
    }
}

/// How many of the newest intervals passed without an increase.
pub open spec fn quiet_count(intervals: Seq<Segment>) -> int
    decreases intervals.len(),
{
    if intervals.len() == 0 || intervals[0].delta > 0 {
        0
    } else {
        1 + quiet_count(intervals.drop_first())
    }
}

/// Seconds still missing before a rate is reported.
pub open spec fn readiness(intervals: Seq<Segment>) -> int {
    if coverage(intervals) < MINIMUM_COVERAGE_SECONDS {
        MINIMUM_COVERAGE_SECONDS - coverage(intervals)
    } else {
        0
    }
}

/// Time since the last increase, as far as the window reaches.
pub open spec fn unchanged(intervals: Seq<Segment>) -> int {
    within_window(span(intervals, quiet_count(intervals)))
}

/// More intervals never span less time.
proof fn lemma_span_grows(intervals: Seq<Segment>, fewer: int, more: int)
    requires
        0 <= fewer <= more <= intervals.len(),
    ensures
        0 <= span(intervals, fewer) <= span(intervals, more),
    decreases more,
{
    if 0 < more {
        if fewer < more {
            lemma_span_grows(intervals, fewer, more - 1);
        } else {
            lemma_span_grows(intervals, fewer - 1, more - 1);
        }
    }
}

/// One interval's scaled share is at most its whole gain.
proof fn lemma_share(delta: int, part: int, whole: int)
    requires
        0 <= delta <= 255,
        0 <= part <= whole,
        1 <= whole <= MAXIMUM_SAMPLE_GAP_SECONDS,
    ensures
        0 <= delta * part <= 45_900,
        delta * part * SCALE == delta * part * 1_000_000,
        0 <= (delta * part * SCALE) / whole <= 255_000_000,
{
    assert(0 <= delta * part <= 45_900) by (nonlinear_arith)
        requires
            0 <= delta <= 255,
            0 <= part <= 180,
    ;
    let scaled = delta * part * 1_000_000;
    assert(scaled <= 255_000_000 * whole) by (nonlinear_arith)
        requires
            scaled == delta * part * 1_000_000,
            0 <= delta <= 255,
            0 <= part <= whole,
    ;
    assert(0 <= scaled / whole <= 255_000_000) by (nonlinear_arith)
        requires
            0 <= scaled <= 255_000_000 * whole,
            1 <= whole,
    ;
}

/// Once the window is full, or nothing is left, older intervals add nothing.
proof fn lemma_window_full(intervals: Seq<Segment>, count: int)
    requires
        0 <= count <= intervals.len(),
        count == intervals.len() || span(intervals, count) >= WINDOW_SECONDS,
        forall|n: int|
            0 <= n < intervals.len() ==> (#[trigger] intervals[n]).elapsed_seconds >= 1,
    ensures
        coverage(intervals) == within_window(span(intervals, count)),
        scaled_spending(intervals, intervals.len() as int) == scaled_spending(intervals, count),
{
    lemma_span_grows(intervals, count, intervals.len() as int);
    lemma_spending_settles(intervals, count, intervals.len() as int);
}

proof fn lemma_spending_settles(intervals: Seq<Segment>, count: int, more: int)
    requires
        0 <= count <= more <= intervals.len(),
        count == more || span(intervals, count) >= WINDOW_SECONDS,
        forall|n: int|
            0 <= n < intervals.len() ==> (#[trigger] intervals[n]).elapsed_seconds >= 1,
    ensures
        scaled_spending(intervals, more) == scaled_spending(intervals, count),
    decreases more - count,
{
    if count < more {
        lemma_spending_settles(intervals, count, more - 1);
        lemma_span_grows(intervals, count, more - 1);
        lemma_span_grows(intervals, count, more);
        let segment = intervals[more - 1];
        assert(included(intervals, more - 1) == 0);
        let seconds = segment.elapsed_seconds as int;
        assert((segment.delta * 0 * SCALE) / seconds == 0) by (nonlinear_arith)
            requires
                seconds >= 1,
        ;
    }
}

/// The counted intervals are without an increase and the next one is not.
proof fn lemma_quiet_count(intervals: Seq<Segment>)
    ensures
        0 <= quiet_count(intervals) <= intervals.len(),
        forall|n: int| 0 <= n < quiet_count(intervals) ==> (#[trigger] intervals[n]).delta == 0,
        quiet_count(intervals) < intervals.len() ==> intervals[quiet_count(intervals)].delta > 0,
    decreases intervals.len(),
{
    if intervals.len() > 0 && intervals[0].delta == 0 {
        let rest = intervals.drop_first();
        lemma_quiet_count(rest);
        assert forall|n: int| 0 <= n < quiet_count(intervals) implies (
        #[trigger] intervals[n]).delta == 0 by {
            if n > 0 {
                assert(intervals[n] == rest[n - 1]);
            }
        }
        if quiet_count(intervals) < intervals.len() {
            assert(intervals[quiet_count(intervals)] == rest[quiet_count(rest)]);
        }
    }
}

/// A fixed-size, no-allocation pace estimator.
pub struct Pace {
    segments: [Segment; SEGMENTS],
    head: usize,
    len: usize,
    previous: Option<u8>,
}

impl View for Pace {
    type V = Observed;

    closed spec fn view(&self) -> Observed {
        Observed {
            intervals: Seq::new(
                self.len as nat,
                |n: int| self.segments@[(self.head + SEGMENTS - 1 - n) % (SEGMENTS as int)],
            ),
            previous: self.previous,
        }
    }
}

impl Default for Pace {
    fn default() -> (pace: Self)
        ensures
            pace.wf(),
            pace@ == Observed::nothing(),
    {
        Pace::new()
    }
}

impl Pace {
    /// The ring's bookkeeping is consistent.
    pub closed spec fn wf(&self) -> bool {
        &&& self.head < SEGMENTS
        &&& self.len <= SEGMENTS
        &&& self@.valid()
    }

    /// An estimator that has observed nothing.
    pub fn new() -> (pace: Pace)
        ensures
            pace.wf(),
            pace@ == Observed::nothing(),
    {
        let pace = Pace {
            segments: [Segment { delta: 0, elapsed_seconds: 0 };SEGMENTS],
            head: 0,
            len: 0,
            previous: None,
        };
        assert(pace@ =~= Observed::nothing());
        pace
    }

    /// Record a percentage and the real number of seconds since the previous
    /// reading.
    ///
    /// The first reading establishes a baseline. A gap longer than three
    /// expected polls establishes a new one, because spreading its difference
    /// over the outage would manufacture a pace that was never observed.
    pub fn record(&mut self, percent: u8, elapsed_seconds: u32)
        requires
            old(self).wf(),
        ensures
            final(self).wf(),
            final(self)@ == old(self)@.after(percent, elapsed_seconds),
    {
        let ghost before = self@;
        let ghost head = self.head as int;
        let previous = match self.previous {
            None => {
                self.previous = Some(percent);
                return ;
            },
            Some(previous) => previous,
        };
        self.previous = Some(percent);
        if elapsed_seconds == 0 || elapsed_seconds > MAXIMUM_SAMPLE_GAP_SECONDS {
            self.clear_intervals();
            return ;
        }
        // A drop is a rolling-window reset, not negative spending.

        self.segments[self.head] = Segment {
            delta: percent.saturating_sub(previous),
            elapsed_seconds,
        };
        self.head = (self.head + 1) % SEGMENTS;
        if self.len < SEGMENTS {
            self.len = self.len + 1;
        }
        assert(self@.intervals =~= before.after(percent, elapsed_seconds).intervals);
    }

    /// Whole percent per hour over at most the last half hour.
    ///
    /// Returns nothing until five minutes of continuous observations exist.
    /// The calculation uses the measured duration of every interval rather
    /// than assuming that each was delivered exactly on a minute boundary.
    pub fn rate_per_hour(&self) -> (result: Option<u16>)
        requires
            self.wf(),
        ensures
            result == rate(self@.intervals),
    {
        let mut covered_seconds: u32 = 0;
        let mut scaled_spent: u64 = 0;
        let ghost intervals = self@.intervals;
        let count = self.len;

        let mut n: usize = 0;
        while n < count && covered_seconds != WINDOW_SECONDS
            invariant
                self.wf(),
                intervals == self@.intervals,
                count == intervals.len(),
                self@.valid(),
                n <= count <= SEGMENTS,
                covered_seconds == within_window(span(intervals, n as int)),
                scaled_spent == scaled_spending(intervals, n as int),
                scaled_spent <= n * 255_000_000,
            decreases count - n,
        {
            let segment = self.recent(n);
            let remaining = WINDOW_SECONDS - covered_seconds;
            let included_seconds = if segment.elapsed_seconds < remaining {
                segment.elapsed_seconds
            } else {
                remaining
            };
            proof {
                lemma_span_grows(intervals, n as int, n + 1);
                lemma_share(segment.delta as int, included_seconds as int, segment.elapsed_seconds as int);
            }
            scaled_spent = scaled_spent + segment.delta as u64 * included_seconds as u64 * SCALE
                / segment.elapsed_seconds as u64;
            covered_seconds = covered_seconds + included_seconds;
            n = n + 1;
        }
        proof {
            lemma_window_full(intervals, n as int);
        }
        if covered_seconds < MINIMUM_COVERAGE_SECONDS {
            return None;
        }
        proof {
            let scaled = scaled_spent as int * 3600;
            let covered = covered_seconds as int;
            assert(0 <= scaled / covered <= scaled) by (nonlinear_arith)
                requires
                    0 <= scaled,
                    300 <= covered,
            ;
        }
        let scaled_rate = scaled_spent * 3600 / covered_seconds as u64;
        let rounded = (scaled_rate + SCALE / 2) / SCALE;
        if rounded > u16::MAX as u64 {
            Some(u16::MAX)
        } else {
            Some(rounded as u16)
        }
    }

    /// Seconds still needed before the estimator can report a useful rate.
    pub fn readiness_remaining_seconds(&self) -> (seconds: u32)
        requires
            self.wf(),
        ensures
            seconds == readiness(self@.intervals),
    {
        MINIMUM_COVERAGE_SECONDS.saturating_sub(self.covered_seconds())
    }

    /// Continuous time since the last observed whole-percent increase, capped
    /// at the rate's window.
    ///
    /// The source only reports whole percentages, so this deliberately means
    /// "unchanged", not "no activity". Small usage may be hidden by rounding.
    pub fn unchanged_seconds(&self) -> (seconds: u32)
        requires
            self.wf(),
        ensures
            seconds == unchanged(self@.intervals),
    {
        let mut quiet: u32 = 0;
        let ghost intervals = self@.intervals;
        let count = self.len;
        proof {
            lemma_quiet_count(intervals);
        }

        let mut n: usize = 0;
        while n < count && quiet != WINDOW_SECONDS
            invariant
                self.wf(),
                intervals == self@.intervals,
                count == intervals.len(),
                self@.valid(),
                n <= count <= SEGMENTS,
                quiet == within_window(span(intervals, n as int)),
                n <= quiet_count(intervals),
            decreases count - n,
        {
            proof {
                lemma_quiet_count(intervals);
            }
            let segment = self.recent(n);
            if segment.delta > 0 {
                return quiet;
            }
            let remaining = WINDOW_SECONDS - quiet;
            proof {
                lemma_span_grows(intervals, n as int, n + 1);
            }
            quiet = quiet + if segment.elapsed_seconds < remaining {
                segment.elapsed_seconds
            } else {
                remaining
            };
            n = n + 1;
        }
        proof {
            lemma_quiet_count(intervals);
            lemma_span_grows(intervals, n as int, quiet_count(intervals));
        }
        quiet
    }

    fn covered_seconds(&self) -> (seconds: u32)
        requires
            self.wf(),
        ensures
            seconds == coverage(self@.intervals),
    {
        let mut covered: u32 = 0;
        let ghost intervals = self@.intervals;
        let count = self.len;

        let mut n: usize = 0;
        while n < count && covered != WINDOW_SECONDS
            invariant
                self.wf(),
                intervals == self@.intervals,
                count == intervals.len(),
                self@.valid(),
                n <= count <= SEGMENTS,
                covered == within_window(span(intervals, n as int)),
            decreases count - n,
        {
            let elapsed_seconds = self.recent(n).elapsed_seconds;
            let remaining = WINDOW_SECONDS - covered;
            proof {
                lemma_span_grows(intervals, n as int, n + 1);
            }
            covered = covered + if elapsed_seconds < remaining { elapsed_seconds } else { remaining };
            n = n + 1;
        }
        proof {
            lemma_span_grows(intervals, n as int, count as int);
        }
        covered
    }

    fn clear_intervals(&mut self)
        requires
            old(self).wf(),
        ensures
            final(self).wf(),
            final(self)@ == (Observed { intervals: Seq::empty(), previous: old(self)@.previous }),
    {
        self.head = 0;
        self.len = 0;
        assert(self@.intervals =~= Seq::empty());
    }

    fn recent(&self, n: usize) -> (segment: Segment)
        requires
            self.wf(),
            n < self@.intervals.len(),
        ensures
            segment == self@.intervals[n as int],
    {
        self.segments[(self.head + SEGMENTS - 1 - n) % SEGMENTS]
    }
}

/// A further reading keeps the observations valid.
pub proof fn law_readings_keep_observations_valid(
    observed: Observed,
    percent: u8,
    elapsed_seconds: u32,
)
    requires
        observed.valid(),
    ensures
        observed.after(percent, elapsed_seconds).valid(),
{
}

/// A rate is reported exactly when no readiness time remains.
pub proof fn law_rate_appears_when_ready(intervals: Seq<Segment>)
    ensures
        rate(intervals) is Some <==> readiness(intervals) == 0,
{
}

/// The first reading has nothing to compare with: no interval, no rate, and
/// the full readiness time still ahead.
pub proof fn law_first_reading_is_a_baseline(percent: u8, elapsed_seconds: u32)
    ensures
        ({
            let observed = Observed::nothing().after(percent, elapsed_seconds);
            &&& observed.intervals.len() == 0
            &&& observed.previous == Some(percent)
            &&& rate(observed.intervals) is None
            &&& readiness(observed.intervals) == MINIMUM_COVERAGE_SECONDS
            &&& unchanged(observed.intervals) == 0
        }),
{
}

/// A gap that is too long, or empty, discards every earlier interval: the rate
/// disappears, and readiness and the unchanged time start over.
pub proof fn law_long_gap_discards_the_pace(observed: Observed, percent: u8, elapsed_seconds: u32)
    requires
        observed.valid(),
        observed.previous is Some,
        elapsed_seconds == 0 || elapsed_seconds > MAXIMUM_SAMPLE_GAP_SECONDS,
    ensures
        ({
            let after = observed.after(percent, elapsed_seconds);
            &&& rate(after.intervals) is None
            &&& readiness(after.intervals) == MINIMUM_COVERAGE_SECONDS
            &&& unchanged(after.intervals) == 0
        }),
{
}

/// A drop is a rolling-window reset: it is observed exactly as an unchanged
/// percentage would be.
pub proof fn law_rollover_is_not_spending(
    observed: Observed,
    previous: u8,
    percent: u8,
    elapsed_seconds: u32,
)
    requires
        observed.valid(),
        observed.previous == Some(previous),
        percent < previous,
    ensures
        observed.after(percent, elapsed_seconds).intervals == observed.after(
            previous,
            elapsed_seconds,
        ).intervals,
{
}

/// The covered and the unchanged time never exceed the window, nor the second
/// the first.
pub proof fn law_unchanged_within_coverage(intervals: Seq<Segment>)
    ensures
        0 <= unchanged(intervals) <= coverage(intervals) <= WINDOW_SECONDS,
{
    lemma_quiet_count(intervals);
    lemma_span_grows(intervals, 0, quiet_count(intervals));
    lemma_span_grows(intervals, quiet_count(intervals), intervals.len() as int);
}

/// Whoever saw no increase in all the time that counts has a rate of zero.
pub proof fn law_quiet_window_has_zero_rate(observed: Observed)
    requires
        observed.valid(),
        unchanged(observed.intervals) == coverage(observed.intervals),
        coverage(observed.intervals) >= MINIMUM_COVERAGE_SECONDS,
    ensures
        rate(observed.intervals) == Some(0u16),
{
    let intervals = observed.intervals;
    let count = quiet_count(intervals);
    lemma_quiet_count(intervals);
    if count < intervals.len() && span(intervals, count) < WINDOW_SECONDS {
        lemma_span_grows(intervals, count + 1, intervals.len() as int);
        assert(span(intervals, count + 1) > span(intervals, count));
    }
    lemma_window_full(intervals, count);
    lemma_quiet_spending(intervals, count);
    let covered = coverage(intervals);
    assert(0int * 3600 / covered == 0) by (nonlinear_arith)
        requires
            covered >= 300,
    ;
}

proof fn lemma_quiet_spending(intervals: Seq<Segment>, count: int)
    requires
        0 <= count <= intervals.len(),
        forall|n: int| 0 <= n < count ==> (#[trigger] intervals[n]).delta == 0,
        forall|n: int|
            0 <= n < intervals.len() ==> (#[trigger] intervals[n]).elapsed_seconds >= 1,
    ensures
        scaled_spending(intervals, count) == 0,
    decreases count,
{
    if count > 0 {
        lemma_quiet_spending(intervals, count - 1);
        let seconds = intervals[count - 1].elapsed_seconds as int;
        let part = included(intervals, count - 1);
        assert((0int * part * SCALE) / seconds == 0) by (nonlinear_arith)
            requires
                seconds >= 1,
        ;
    }
}

/// Only the window counts: observations that agree on newest intervals filling
/// it have the same rate, readiness and unchanged time, whatever came before.
pub proof fn law_only_the_window_counts(a: Observed, b: Observed, count: int)
    requires
        a.valid(),
        b.valid(),
        0 <= count <= a.intervals.len(),
        count <= b.intervals.len(),
        forall|n: int| 0 <= n < count ==> a.intervals[n] == b.intervals[n],
        span(a.intervals, count) >= WINDOW_SECONDS,
    ensures
        rate(a.intervals) == rate(b.intervals),
        readiness(a.intervals) == readiness(b.intervals),
        unchanged(a.intervals) == unchanged(b.intervals),
{
    lemma_prefix_agrees(a.intervals, b.intervals, count);
    lemma_window_full(a.intervals, count);
    lemma_window_full(b.intervals, count);
    lemma_quiet_count(a.intervals);
    lemma_quiet_count(b.intervals);
    let quiet_a = quiet_count(a.intervals);
    let quiet_b = quiet_count(b.intervals);
    if quiet_a < count {
        assert(b.intervals[quiet_a].delta > 0);
        assert(quiet_b <= quiet_a);
        if quiet_b < quiet_a {
            assert(b.intervals[quiet_b].delta > 0);
            assert(a.intervals[quiet_b].delta == 0);
        }
        lemma_prefix_agrees(a.intervals, b.intervals, quiet_a);
    } else {
        if quiet_b < count {
            assert(b.intervals[quiet_b].delta > 0);
            assert(a.intervals[quiet_b].delta == 0);
        }
        lemma_span_grows(a.intervals, count, quiet_a);
        lemma_span_grows(b.intervals, count, quiet_b);
    }
}

proof fn lemma_prefix_agrees(a: Seq<Segment>, b: Seq<Segment>, count: int)
    requires
        0 <= count <= a.len(),
        count <= b.len(),
        forall|n: int| 0 <= n < count ==> a[n] == b[n],
    ensures
        span(a, count) == span(b, count),
        scaled_spending(a, count) == scaled_spending(b, count),
    decreases count,
{
    if count > 0 {
        lemma_prefix_agrees(a, b, count - 1);
        assert(a[count - 1] == b[count - 1]);
    }
}

/// A rise is kept as it is: a reading that is not below the one before it, soon
/// enough after it, adds an interval of exactly the difference and the time, in
/// front of the intervals that were kept.
pub proof fn law_rises_are_kept(
    observed: Observed,
    previous: u8,
    percent: u8,
    elapsed_seconds: u32,
)
    requires
        observed.valid(),
        observed.previous == Some(previous),
        previous <= percent,
        1 <= elapsed_seconds <= 180,
    ensures
        ({
            let after = observed.after(percent, elapsed_seconds);
            &&& after.previous == Some(percent)
            &&& after.intervals.len() == if observed.intervals.len() < 64 {
                observed.intervals.len() + 1
            } else {
                64
            }
            &&& after.intervals[0].delta == percent - previous
            &&& after.intervals[0].elapsed_seconds == elapsed_seconds
            &&& forall|n: int|
                0 < n < after.intervals.len() ==> #[trigger] after.intervals[n]
                    == observed.intervals[n - 1]
        }),
{
}

/// Percent gained in the newest intervals.
pub open spec fn total_gain(intervals: Seq<Segment>, count: int) -> int
    decreases count,
{
    if count <= 0 {
        0
    } else {
        total_gain(intervals, count - 1) + intervals[count - 1].delta
    }
}

/// A newer interval in front adds its time and its gain.
proof fn lemma_in_front(segment: Segment, intervals: Seq<Segment>, count: int)
    requires
        0 <= count <= intervals.len(),
    ensures
        span(seq![segment] + intervals, count + 1) == segment.elapsed_seconds + span(
            intervals,
            count,
        ),
        total_gain(seq![segment] + intervals, count + 1) == segment.delta + total_gain(
            intervals,
            count,
        ),
    decreases count,
{
    let all = seq![segment] + intervals;
    if count == 0 {
        reveal_with_fuel(span, 2);
        reveal_with_fuel(total_gain, 2);
        assert(all[0] == segment);
    } else {
        lemma_in_front(segment, intervals, count - 1);
        assert(all[count] == intervals[count - 1]);
    }
}

/// As long as everything fits the window, each interval counts whole.
proof fn lemma_whole_intervals(intervals: Seq<Segment>, count: int)
    requires
        0 <= count <= intervals.len(),
        span(intervals, count) <= WINDOW_SECONDS,
        forall|n: int|
            0 <= n < intervals.len() ==> (#[trigger] intervals[n]).elapsed_seconds >= 1,
    ensures
        scaled_spending(intervals, count) == SCALE * total_gain(intervals, count),
    decreases count,
{
    if count > 0 {
        lemma_span_grows(intervals, count - 1, count);
        lemma_whole_intervals(intervals, count - 1);
        let segment = intervals[count - 1];
        let seconds = segment.elapsed_seconds as int;
        let delta = segment.delta as int;
        assert(included(intervals, count - 1) == seconds);
        assert((delta * seconds * SCALE) / seconds == delta * SCALE) by (nonlinear_arith)
            requires
                seconds >= 1,
        ;
        assert(SCALE * total_gain(intervals, count) == SCALE * total_gain(intervals, count - 1)
            + delta * SCALE) by (nonlinear_arith)
            requires
                total_gain(intervals, count) == total_gain(intervals, count - 1) + delta,
        ;
    }
}

/// What is observed of readings, each a percentage and the seconds since the
/// reading before it.
pub open spec fn observed_of(readings: Seq<(u8, u32)>) -> Observed
    decreases readings.len(),
{
    if readings.len() == 0 {
        Observed::nothing()
    } else {
        observed_of(readings.drop_last()).after(readings.last().0, readings.last().1)
    }
}

/// Seconds from the first reading to the last.
pub open spec fn seconds_between(readings: Seq<(u8, u32)>) -> int
    decreases readings.len(),
{
    if readings.len() <= 1 {
        0
    } else {
        seconds_between(readings.drop_last()) + readings.last().1
    }
}

/// Readings without an interruption, each soon after the one before it.
pub open spec fn uninterrupted(readings: Seq<(u8, u32)>) -> bool {
    forall|i: int| 0 < i < readings.len() ==> 1 <= (#[trigger] readings[i]).1 <= 180
}

/// Readings that never fall.
pub open spec fn rising(readings: Seq<(u8, u32)>) -> bool {
    forall|i: int, j: int|
        0 <= i <= j < readings.len() ==> (#[trigger] readings[i]).0 <= (#[trigger] readings[j]).0
}

proof fn lemma_rising_readings(readings: Seq<(u8, u32)>)
    requires
        1 <= readings.len() <= 65,
        uninterrupted(readings),
        rising(readings),
    ensures
        ({
            let observed = observed_of(readings);
            let count = observed.intervals.len() as int;
            &&& observed.valid()
            &&& observed.previous == Some(readings.last().0)
            &&& count == readings.len() - 1
            &&& span(observed.intervals, count) == seconds_between(readings)
            &&& total_gain(observed.intervals, count) == readings.last().0 - readings[0].0
        }),
    decreases readings.len(),
{
    reveal_with_fuel(observed_of, 2);
    if readings.len() > 1 {
        let before = readings.drop_last();
        assert forall|i: int| 0 < i < before.len() implies 1 <= (#[trigger] before[i]).1 <= 180 by {
            assert(before[i] == readings[i]);
        }
        assert forall|i: int, j: int| 0 <= i <= j < before.len() implies (#[trigger] before[i]).0
            <= (#[trigger] before[j]).0 by {
            assert(readings[i].0 <= readings[j].0);
        }
        lemma_rising_readings(before);
        let observed = observed_of(before);
        let last = readings[readings.len() - 1];
        assert(readings[readings.len() - 2].0 <= last.0);
        assert(before.last() == readings[readings.len() - 2]);
        let segment = Segment {
            delta: (last.0 - before.last().0) as u8,
            elapsed_seconds: last.1,
        };
        law_rises_are_kept(observed, before.last().0, last.0, last.1);
        let after = observed_of(readings);
        assert(after.intervals =~= seq![segment] + observed.intervals);
        lemma_in_front(segment, observed.intervals, observed.intervals.len() as int);
        law_readings_keep_observations_valid(observed, last.0, last.1);
    }
}

/// The rate is the rise per hour: of readings that never fall, come without an
/// interruption and fit into half an hour, it is the last percentage less the
/// first, for the time between them, scaled to an hour and rounded to the
/// nearest whole percent. It is there once five minutes have passed, and until
/// then what is missing of them is told.
pub proof fn law_rate_is_the_rise_per_hour(readings: Seq<(u8, u32)>)
    requires
        1 <= readings.len() <= 65,
        uninterrupted(readings),
        rising(readings),
        seconds_between(readings) <= 1800,
    ensures
        ({
            let intervals = observed_of(readings).intervals;
            let rise = readings.last().0 - readings[0].0;
            let seconds = seconds_between(readings);
            &&& rate(intervals) is None <==> seconds < 300
            &&& readiness(intervals) == if seconds < 300 {
                300 - seconds
            } else {
                0
            }
            &&& rate(intervals) matches Some(percent) ==> (2 * percent - 1) * seconds <= 7200 * rise
                < (2 * percent + 1) * seconds
        }),
{
    lemma_rising_readings(readings);
    let observed = observed_of(readings);
    let intervals = observed.intervals;
    let count = intervals.len() as int;
    let rise = readings.last().0 - readings[0].0;
    let seconds = seconds_between(readings);
    lemma_whole_intervals(intervals, count);
    if seconds >= 300 {
        assert(readings[0].0 <= readings[readings.len() - 1].0);
        let scaled = SCALE * rise;
        let quotient = scaled * 3600 / seconds;
        let rounded = (quotient + 500_000) / 1_000_000;
        vstd::arithmetic::div_mod::lemma_fundamental_div_mod(scaled * 3600, seconds);
        vstd::arithmetic::div_mod::lemma_mod_bound(scaled * 3600, seconds);
        assert(quotient * seconds <= 3_600_000_000 * rise < (quotient + 1) * seconds)
            by (nonlinear_arith)
            requires
                scaled * 3600 == seconds * quotient + (scaled * 3600) % seconds,
                0 <= (scaled * 3600) % seconds < seconds,
                scaled == 1_000_000 * rise,
        ;
        assert(1_000_000 * rounded <= quotient + 500_000 < 1_000_000 * rounded + 1_000_000);
        assert((1_000_000 * rounded - 500_000) * seconds <= quotient * seconds) by (nonlinear_arith)
            requires
                1_000_000 * rounded - 500_000 <= quotient,
                0 < seconds,
        ;
        assert((quotient + 1) * seconds <= (1_000_000 * rounded + 500_000) * seconds)
            by (nonlinear_arith)
            requires
                quotient + 1 <= 1_000_000 * rounded + 500_000,
                0 < seconds,
        ;
        assert((2 * rounded - 1) * seconds * 500_000 == (1_000_000 * rounded - 500_000) * seconds)
            by (nonlinear_arith);
        assert((2 * rounded + 1) * seconds * 500_000 == (1_000_000 * rounded + 500_000) * seconds)
            by (nonlinear_arith);
        assert(0 <= quotient) by (nonlinear_arith)
            requires
                quotient == scaled * 3600 / seconds,
                0 <= scaled,
                0 < seconds,
        ;
        assert(rounded <= 65535) by (nonlinear_arith)
            requires
                (2 * rounded - 1) * seconds <= 7200 * rise,
                300 <= seconds,
                rise <= 255,
        ;
    }
}

/// The unchanged time counts up by the time of each reading that brings no
/// increase, to half an hour at most, and an increase starts it over.
pub proof fn law_unchanged_time_counts_up(
    observed: Observed,
    previous: u8,
    percent: u8,
    elapsed_seconds: u32,
)
    requires
        observed.valid(),
        observed.intervals.len() < 64,
        observed.previous == Some(previous),
        1 <= elapsed_seconds <= 180,
    ensures
        ({
            let before = unchanged(observed.intervals);
            let after = unchanged(observed.after(percent, elapsed_seconds).intervals);
            &&& percent > previous ==> after == 0
            &&& percent <= previous ==> after == if before + elapsed_seconds < 1800 {
                before + elapsed_seconds
            } else {
                1800
            }
        }),
{
    let after = observed.after(percent, elapsed_seconds).intervals;
    let segment = after[0];
    assert(after.drop_first() =~= observed.intervals);
    assert(after =~= seq![segment] + observed.intervals);
    lemma_quiet_count(observed.intervals);
    if percent <= previous {
        assert(segment.delta == 0);
        let quiet = quiet_count(observed.intervals);
        assert(quiet_count(after) == 1 + quiet);
        lemma_in_front(segment, observed.intervals, quiet);
        lemma_span_grows(observed.intervals, 0, quiet);
    } else {
        assert(segment.delta > 0);
        assert(quiet_count(after) == 0);
    }
}

/// The covered time counts up by the time of each reading, to half an hour at
/// most.
pub proof fn law_covered_time_counts_up(
    observed: Observed,
    percent: u8,
    elapsed_seconds: u32,
)
    requires
        observed.valid(),
        observed.intervals.len() < 64,
        observed.previous is Some,
        1 <= elapsed_seconds <= 180,
    ensures
        ({
            let before = coverage(observed.intervals);
            let after = coverage(observed.after(percent, elapsed_seconds).intervals);
            after == if before + elapsed_seconds < 1800 {
                before + elapsed_seconds
            } else {
                1800
            }
        }),
{
    let after = observed.after(percent, elapsed_seconds).intervals;
    assert(after =~= seq![after[0]] + observed.intervals);
    lemma_in_front(after[0], observed.intervals, observed.intervals.len() as int);
    lemma_span_grows(observed.intervals, 0, observed.intervals.len() as int);
}

/// Whatever happens, the latest reading is what the next one is compared with,
/// after a drop and after a gap as well. A gap of nothing or of more than three
/// minutes leaves nothing else.
pub proof fn law_latest_reading_is_the_baseline(
    observed: Observed,
    percent: u8,
    elapsed_seconds: u32,
)
    ensures
        observed.after(percent, elapsed_seconds).previous == Some(percent),
        observed.previous is Some && (elapsed_seconds == 0 || elapsed_seconds > 180)
            ==> observed.after(percent, elapsed_seconds).intervals.len() == 0,
        Observed::nothing().after(percent, elapsed_seconds).intervals.len() == 0,
{
}

/// A steady pace is the rate: where each interval gained as many percent a second
/// as every other one, that is the rate, scaled to an hour and capped at what the
/// display can show, wherever the window cuts through the intervals.
pub proof fn law_steady_pace_is_the_rate(intervals: Seq<Segment>, each_second: int)
    requires
        0 <= each_second,
        forall|n: int|
            0 <= n < intervals.len() ==> (#[trigger] intervals[n]).elapsed_seconds >= 1
                && intervals[n].delta == each_second * intervals[n].elapsed_seconds,
        span(intervals, intervals.len() as int) >= 300,
    ensures
        rate(intervals) matches Some(percent) && percent == if 3600 * each_second > 65535 {
            65535
        } else {
            3600 * each_second
        },
{
    let count = intervals.len() as int;
    lemma_steady_spending(intervals, each_second, count);
    let covered = coverage(intervals);
    let scaled = each_second * covered * 1_000_000;
    assert(scaled * 3600 / covered == each_second * 3_600_000_000) by (nonlinear_arith)
        requires
            covered >= 300,
            scaled == each_second * covered * 1_000_000,
    ;
    assert((each_second * 3_600_000_000 + 500_000) / 1_000_000 == each_second * 3600);
}

proof fn lemma_steady_spending(intervals: Seq<Segment>, each_second: int, count: int)
    requires
        0 <= count <= intervals.len(),
        forall|n: int|
            0 <= n < intervals.len() ==> (#[trigger] intervals[n]).elapsed_seconds >= 1
                && intervals[n].delta == each_second * intervals[n].elapsed_seconds,
    ensures
        scaled_spending(intervals, count) == each_second * within_window(span(intervals, count))
            * 1_000_000,
    decreases count,
{
    if count > 0 {
        lemma_steady_spending(intervals, each_second, count - 1);
        let segment = intervals[count - 1];
        let part = included(intervals, count - 1);
        let whole = segment.elapsed_seconds as int;
        let gained = segment.delta as int;
        assert((gained * part * SCALE) / whole == each_second * part * 1_000_000)
            by (nonlinear_arith)
            requires
                gained == each_second * whole,
                whole >= 1,
                SCALE == 1_000_000,
        ;
        let before = within_window(span(intervals, count - 1));
        assert(each_second * (before + part) * 1_000_000 == each_second * before * 1_000_000
            + each_second * part * 1_000_000) by (nonlinear_arith);
        assert(within_window(span(intervals, count)) == before + part);
    } else {
        assert(each_second * 0 * 1_000_000 == 0) by (nonlinear_arith);
    }
}

/// The unchanged time is the time since the last increase, as far as half an hour
/// reaches: that of the newest intervals up to one that gained something, or of
/// all of them.
pub proof fn law_unchanged_is_since_the_last_increase(intervals: Seq<Segment>, count: int)
    requires
        0 <= count <= intervals.len(),
        forall|n: int| 0 <= n < count ==> (#[trigger] intervals[n]).delta == 0,
        count < intervals.len() ==> intervals[count].delta > 0,
    ensures
        unchanged(intervals) == if span(intervals, count) < 1800 {
            span(intervals, count)
        } else {
            1800
        },
        coverage(intervals) == if span(intervals, intervals.len() as int) < 1800 {
            span(intervals, intervals.len() as int)
        } else {
            1800
        },
{
    lemma_quiet_count(intervals);
    let quiet = quiet_count(intervals);
    if quiet < count {
        assert(intervals[quiet].delta == 0);
    } else if quiet > count {
        assert(intervals[count].delta == 0);
    }
}

/// An interval counts for as much of its gain as of its time lies within half an
/// hour, to a millionth of a percent.
pub proof fn law_cut_intervals_count_in_proportion(intervals: Seq<Segment>, n: int)
    requires
        0 <= n < intervals.len(),
        intervals[n].elapsed_seconds >= 1,
    ensures
        ({
            let before = span(intervals, n);
            let whole = intervals[n].elapsed_seconds;
            let inside = if before >= 1800 {
                0
            } else if before + whole <= 1800 {
                whole as int
            } else {
                1800 - before
            };
            let counted = scaled_spending(intervals, n + 1) - scaled_spending(intervals, n);
            counted * whole <= intervals[n].delta * inside * 1_000_000 < (counted + 1) * whole
        }),
{
    let before = span(intervals, n);
    let whole = intervals[n].elapsed_seconds as int;
    let part = included(intervals, n);
    let scaled = intervals[n].delta * part * SCALE;
    assert(span(intervals, n + 1) == before + whole);
    vstd::arithmetic::div_mod::lemma_fundamental_div_mod(scaled, whole);
    vstd::arithmetic::div_mod::lemma_mod_bound(scaled, whole);
    let counted = scaled / whole;
    assert(counted * whole <= scaled < (counted + 1) * whole) by (nonlinear_arith)
        requires
            scaled == whole * counted + scaled % whole,
            0 <= scaled % whole < whole,
    ;
}

} // verus!
