//! Spend history over the session window.
//!
//! The percentage on the dial is a level, and a level cannot answer whether to
//! keep going: 40 % reached in half an hour and 40 % reached over four hours
//! look identical on the ring. So the last session window's worth of samples
//! is kept, and a rate is derived from them.
//!
//! What is stored is the per-minute *increase*, not the level. Increases are
//! what the sparkline draws and what the rate label sums.

use vstd::prelude::*;

verus! {

/// Columns in the sparkline.
pub const BUCKETS: usize = 60;

/// Minutes per column. 60 x 5 spans the five-hour session window, so the chart
/// and the ring above it cover exactly the same period and reset together.
pub const MINUTES_PER_BUCKET: usize = 5;

/// Minutes kept.
pub const SAMPLES: usize = BUCKETS * MINUTES_PER_BUCKET;

/// Minutes of history the rate label averages over. Short enough to react
/// within a working stretch, long enough that one busy minute does not read as
/// a crisis.
pub const RATE_WINDOW_MINUTES: usize = 30;

/// Minutes of history before a rate is worth showing at all. One or two
/// samples scale up to wildly confident numbers.
pub const MINIMUM_SAMPLES: usize = 5;

/// What a [`History`] holds.
#[verifier::ext_equal]
pub struct Samples {
    /// Percent gained in each kept minute, newest first.
    pub deltas: Seq<u8>,
    /// The latest reading.
    pub previous: Option<u8>,
}

impl Samples {
    /// No reading yet.
    pub open spec fn nothing() -> Samples {
        Samples { deltas: Seq::empty(), previous: None }
    }

    /// The samples after one more reading.
    ///
    /// The first reading records nothing at all: a zero would sit in the
    /// window as if it were a measured idle minute.
    pub open spec fn after(self, percent: u8) -> Samples {
        let deltas = match self.previous {
            None => self.deltas,
            Some(previous) => {
                let kept = if self.deltas.len() < SAMPLES {
                    self.deltas
                } else {
                    self.deltas.drop_last()
                };
                seq![crate::pace::gain(previous, percent)] + kept
            },
        };
        Samples { deltas, previous: Some(percent) }
    }

    /// Percent gained in the `n`th most recent minute, zero beyond the history.
    pub open spec fn recent(self, n: int) -> int {
        if 0 <= n < self.deltas.len() {
            self.deltas[n] as int
        } else {
            0
        }
    }

    /// Percent gained in the minutes from the `from`th to before the `to`th
    /// most recent one.
    pub open spec fn spent(self, from: int, to: int) -> int
        decreases to - from,
    {
        if to <= from {
            0
        } else {
            self.spent(from, to - 1) + self.recent(to - 1)
        }
    }

    /// Minutes the rate averages over.
    pub open spec fn rate_window(self) -> int {
        if self.deltas.len() < RATE_WINDOW_MINUTES {
            self.deltas.len() as int
        } else {
            RATE_WINDOW_MINUTES as int
        }
    }

    /// Percent gained over those minutes.
    pub open spec fn window_spent(self) -> int {
        self.spent(0, self.rate_window())
    }

    /// Percent per hour, the partial window scaled up to an hour; nothing
    /// before there is enough history.
    pub open spec fn rate(self) -> Option<u16> {
        if self.deltas.len() < MINIMUM_SAMPLES {
            None
        } else {
            Some((self.window_spent() * 60 / self.rate_window()) as u16)
        }
    }

    /// Percent gained in the minutes of one sparkline column, column 0 being
    /// the oldest.
    pub open spec fn bucket(self, column: int) -> int {
        let newest = (BUCKETS - 1 - column) * MINUTES_PER_BUCKET;
        self.spent(newest, newest + MINUTES_PER_BUCKET)
    }
}

/// The sparkline's columns, oldest first, and the busiest column's total.
///
/// A column's height is its total as a fraction of the peak: normalising
/// against the window's own maximum keeps the shape readable on a quiet day.
/// With a peak of zero every column is empty.
#[derive(Debug, Clone, Copy)]
pub struct Buckets {
    pub totals: [u16; BUCKETS],
    pub peak: u16,
}

/// A rolling record of the percent gained in each minute.
pub struct History {
    /// Percent gained in each of the last [`SAMPLES`] minutes, oldest first
    /// once wrapped.
    deltas: [u8; SAMPLES],
    head: usize,
    len: usize,
    previous: Option<u8>,
}

impl View for History {
    type V = Samples;

    closed spec fn view(&self) -> Samples {
        Samples {
            deltas: Seq::new(
                self.len as nat,
                |n: int| self.deltas@[(self.head + SAMPLES - 1 - n) % (SAMPLES as int)],
            ),
            previous: self.previous,
        }
    }
}

impl Default for History {
    fn default() -> (history: Self)
        ensures
            history.wf(),
            history@ == Samples::nothing(),
    {
        History::new()
    }
}

impl History {
    /// The ring's bookkeeping is consistent.
    pub closed spec fn wf(&self) -> bool {
        &&& self.head < SAMPLES
        &&& self.len <= SAMPLES
    }

    /// A history without readings.
    pub fn new() -> (history: History)
        ensures
            history.wf(),
            history@ == Samples::nothing(),
    {
        let history = History { deltas: [0;SAMPLES], head: 0, len: 0, previous: None };
        assert(history@ =~= Samples::nothing());
        history
    }

    /// Record a fresh session percentage.
    ///
    /// A drop means the five-hour window rolled over, which is not spending;
    /// it records as zero rather than as a negative that would have to be
    /// special-cased everywhere downstream.
    pub fn push(&mut self, percent: u8)
        requires
            old(self).wf(),
        ensures
            final(self).wf(),
            final(self)@ == old(self)@.after(percent),
    {
        let ghost before = self@;
        if let Some(previous) = self.previous {
            self.deltas[self.head] = percent.saturating_sub(previous);
            self.head = (self.head + 1) % SAMPLES;
            if self.len < SAMPLES {
                self.len = self.len + 1;
            }
        }
        self.previous = Some(percent);
        assert(self@.deltas =~= before.after(percent).deltas);
    }

    /// The `n`th most recent sample, 0 being the newest.
    fn recent(&self, n: usize) -> (delta: u8)
        requires
            self.wf(),
        ensures
            delta == self@.recent(n as int),
    {
        if n >= self.len {
            return 0;
        }
        self.deltas[(self.head + SAMPLES - 1 - n) % SAMPLES]
    }

    /// Percent gained in the minutes from the `from`th to before the `to`th
    /// most recent one.
    fn spent(&self, from: usize, to: usize) -> (total: u16)
        requires
            self.wf(),
            from <= to <= from + RATE_WINDOW_MINUTES,
            to <= SAMPLES,
        ensures
            total == self@.spent(from as int, to as int),
            total <= 255 * (to - from),
    {
        let mut total: u16 = 0;
        let mut n: usize = from;
        while n < to
            invariant
                self.wf(),
                from <= n <= to <= from + RATE_WINDOW_MINUTES,
                total == self@.spent(from as int, n as int),
                total <= (n - from) * 255,
            decreases to - n,
        {
            total = total + self.recent(n) as u16;
            n = n + 1;
        }
        total
    }

    /// Percent per hour over the last [`RATE_WINDOW_MINUTES`], or `None` until
    /// there is enough history to mean anything.
    pub fn rate_per_hour(&self) -> (result: Option<u16>)
        requires
            self.wf(),
        ensures
            result == self@.rate(),
    {
        if self.len < MINIMUM_SAMPLES {
            return None;
        }
        let window = if self.len < RATE_WINDOW_MINUTES { self.len } else { RATE_WINDOW_MINUTES };
        let spent = self.spent(0, window);
        // Scale the partial window up to an hour rather than reporting a rate
        // that silently means "per however long we have been running".
        let rate = spent as u32 * 60 / window as u32;
        assert(rate <= 15_300) by (nonlinear_arith)
            requires
                rate == spent * 60 / window as int,
                spent <= 255 * window,
                window > 0,
        ;
        Some(rate as u16)
    }

    /// Sparkline columns, oldest first, and the busiest column's total.
    pub fn buckets(&self) -> (buckets: Buckets)
        requires
            self.wf(),
        ensures
            forall|column: int|
                0 <= column < BUCKETS ==> (#[trigger] buckets.totals@[column]) == self@.bucket(
                    column,
                ),
            forall|column: int|
                0 <= column < BUCKETS ==> (#[trigger] buckets.totals@[column]) <= buckets.peak,
            exists|column: int|
                0 <= column < BUCKETS && (#[trigger] buckets.totals@[column]) == buckets.peak,
    {
        let mut totals: [u16; BUCKETS] = [0;BUCKETS];
        let mut peak: u16 = 0;
        let mut bucket: usize = 0;
        while bucket < BUCKETS
            invariant
                self.wf(),
                bucket <= BUCKETS,
                forall|column: int|
                    0 <= column < bucket ==> (#[trigger] totals@[column]) == self@.bucket(column),
                forall|column: int| 0 <= column < bucket ==> (#[trigger] totals@[column]) <= peak,
                bucket == 0 ==> peak == 0,
                bucket > 0 ==> exists|column: int|
                    0 <= column < bucket && (#[trigger] totals@[column]) == peak,
            decreases BUCKETS - bucket,
        {
            // Column 0 is the oldest, so count back from the newest sample.
            let newest = (BUCKETS - 1 - bucket) * MINUTES_PER_BUCKET;
            let total = self.spent(newest, newest + MINUTES_PER_BUCKET);
            let ghost before = totals@;
            totals[bucket] = total;
            proof {
                assert(totals@[bucket as int] == total);
                if bucket > 0 && total <= peak {
                    let column = choose|column: int|
                        0 <= column < bucket && (#[trigger] before[column]) == peak;
                    assert(totals@[column] == peak);
                }
            }
            if total > peak {
                peak = total;
            }
            bucket = bucket + 1;
        }
        let buckets = Buckets { totals, peak };
        proof {
            let column = choose|column: int|
                0 <= column < BUCKETS && (#[trigger] totals@[column]) == peak;
            assert(buckets.totals@[column] == buckets.peak);
        }
        buckets
    }
}

/// No more than a session window's worth of minutes is ever kept.
pub proof fn law_history_is_bounded(samples: Samples, percent: u8)
    requires
        samples.deltas.len() <= SAMPLES,
    ensures
        samples.after(percent).deltas.len() <= SAMPLES,
{
}

/// The first reading has nothing to compare against, so it has no rate and
/// leaves the sparkline empty.
pub proof fn law_first_reading_records_nothing(percent: u8)
    ensures
        Samples::nothing().after(percent).deltas.len() == 0,
        Samples::nothing().after(percent).rate() is None,
        forall|n: int| Samples::nothing().after(percent).recent(n) == 0,
{
}

proof fn lemma_spent_bounded(samples: Samples, from: int, to: int)
    requires
        from <= to,
    ensures
        0 <= samples.spent(from, to) <= 255 * (to - from),
    decreases to - from,
{
    if from < to {
        lemma_spent_bounded(samples, from, to - 1);
    }
}

/// There is a rate exactly when there is enough history, whatever was spent: it
/// is the window's gain scaled to an hour, which the display can always show.
pub proof fn law_enough_history_has_a_rate(samples: Samples)
    ensures
        samples.rate() is Some <==> samples.deltas.len() >= MINIMUM_SAMPLES,
        samples.rate() matches Some(rate) ==> rate == samples.window_spent() * 60
            / samples.rate_window() && rate <= 15_300,
{
    if samples.deltas.len() >= MINIMUM_SAMPLES {
        let window = samples.rate_window();
        let spent = samples.window_spent();
        lemma_spent_bounded(samples, 0, window);
        assert(0 <= spent * 60 / window <= 15_300) by (nonlinear_arith)
            requires
                0 <= spent <= 255 * window,
                window > 0,
        ;
    }
}

/// A drop means the window rolled over: it records exactly what an unchanged
/// percentage would.
pub proof fn law_rollover_is_not_spending(samples: Samples, previous: u8, percent: u8)
    requires
        samples.previous == Some(previous),
        percent < previous,
    ensures
        samples.after(percent).deltas == samples.after(previous).deltas,
        samples.after(percent).recent(0) == 0,
{
}

/// The newest minutes are in the last column, the oldest in the first.
pub proof fn law_newest_column_is_last(samples: Samples)
    ensures
        samples.bucket(BUCKETS - 1) == samples.spent(0, MINUTES_PER_BUCKET as int),
        samples.bucket(0) == samples.spent(SAMPLES - MINUTES_PER_BUCKET, SAMPLES as int),
{
}

/// Sum of the columns from `column` to the last one.
pub open spec fn columns_from(samples: Samples, column: int) -> int
    decreases BUCKETS - column,
{
    if column >= BUCKETS {
        0
    } else {
        samples.bucket(column) + columns_from(samples, column + 1)
    }
}

/// The columns together account for everything kept: the chart covers exactly
/// the session window, each minute in one column.
pub proof fn law_columns_cover_the_history(samples: Samples)
    ensures
        columns_from(samples, 0) == samples.spent(0, SAMPLES as int),
{
    lemma_columns_cover(samples, 0);
}

proof fn lemma_columns_cover(samples: Samples, column: int)
    requires
        0 <= column <= BUCKETS,
    ensures
        columns_from(samples, column) == samples.spent(0, (BUCKETS - column) * MINUTES_PER_BUCKET),
    decreases BUCKETS - column,
{
    if column < BUCKETS {
        lemma_columns_cover(samples, column + 1);
        let newest = (BUCKETS - 1 - column) * MINUTES_PER_BUCKET;
        lemma_spent_splits(samples, 0, newest, newest + MINUTES_PER_BUCKET);
    }
}

proof fn lemma_spent_splits(samples: Samples, from: int, middle: int, to: int)
    requires
        from <= middle <= to,
    ensures
        samples.spent(from, to) == samples.spent(from, middle) + samples.spent(middle, to),
    decreases to - middle,
{
    if middle < to {
        lemma_spent_splits(samples, from, middle, to - 1);
    }
}

/// A rise is recorded as it is, in front of what was recorded before, and a
/// reading that is no rise as a minute without gain.
pub proof fn law_rises_are_recorded(samples: Samples, previous: u8, percent: u8, n: int)
    requires
        samples.deltas.len() <= 300,
        samples.previous == Some(previous),
        0 <= n < 299,
    ensures
        ({
            let after = samples.after(percent);
            &&& after.previous == Some(percent)
            &&& previous <= percent ==> after.recent(0) == percent - previous
            &&& previous > percent ==> after.recent(0) == 0
            &&& after.recent(n + 1) == samples.recent(n)
            &&& after.deltas.len() == if samples.deltas.len() < 300 {
                samples.deltas.len() + 1
            } else {
                300
            }
        }),
{
}

/// What is recorded of readings, one a minute.
pub open spec fn recorded(readings: Seq<u8>) -> Samples
    decreases readings.len(),
{
    if readings.len() == 0 {
        Samples::nothing()
    } else {
        recorded(readings.drop_last()).after(readings.last())
    }
}

/// A newer minute in front adds its gain.
proof fn lemma_newer_minute(samples: Samples, percent: u8, to: int)
    requires
        samples.previous is Some,
        samples.deltas.len() < 300,
        0 <= to,
    ensures
        samples.after(percent).spent(0, to + 1) == samples.after(percent).recent(0) + samples.spent(
            0,
            to,
        ),
    decreases to,
{
    let after = samples.after(percent);
    if to == 0 {
        reveal_with_fuel(Samples::spent, 2);
    } else {
        lemma_newer_minute(samples, percent, to - 1);
        assert(after.recent(to) == samples.recent(to - 1));
    }
}

proof fn lemma_rising_minutes(readings: Seq<u8>)
    requires
        1 <= readings.len() <= 300,
        forall|i: int, j: int| 0 <= i <= j < readings.len() ==> readings[i] <= readings[j],
    ensures
        ({
            let samples = recorded(readings);
            &&& samples.previous == Some(readings.last())
            &&& samples.deltas.len() == readings.len() - 1
            &&& samples.spent(0, readings.len() - 1) == readings.last() - readings[0]
        }),
    decreases readings.len(),
{
    reveal_with_fuel(recorded, 2);
    if readings.len() > 1 {
        let before = readings.drop_last();
        assert forall|i: int, j: int| 0 <= i <= j < before.len() implies before[i] <= before[j] by {
            assert(readings[i] <= readings[j]);
        }
        lemma_rising_minutes(before);
        assert(before.last() == readings[readings.len() - 2]);
        assert(readings[readings.len() - 2] <= readings[readings.len() - 1]);
        lemma_newer_minute(recorded(before), readings.last(), readings.len() - 2);
    }
}

/// The rate is the rise per hour: of a reading a minute that never falls, for
/// half an hour at most, it is the last percentage less the first, scaled from
/// the minutes between them to an hour and cut to whole percent. Five minutes
/// are needed for it.
pub proof fn law_rate_is_the_rise_per_hour(readings: Seq<u8>)
    requires
        1 <= readings.len() <= 31,
        forall|i: int, j: int| 0 <= i <= j < readings.len() ==> readings[i] <= readings[j],
    ensures
        ({
            let rise = readings.last() - readings[0];
            let minutes = readings.len() - 1;
            let rate = recorded(readings).rate();
            &&& rate is Some <==> minutes >= 5
            &&& rate matches Some(percent) ==> percent * minutes <= 60 * rise < (percent + 1)
                * minutes
        }),
{
    lemma_rising_minutes(readings);
    let samples = recorded(readings);
    law_enough_history_has_a_rate(samples);
    let minutes = readings.len() - 1;
    if minutes >= 5 {
        let spent = samples.window_spent();
        let percent = spent * 60 / minutes;
        vstd::arithmetic::div_mod::lemma_fundamental_div_mod(spent * 60, minutes);
        vstd::arithmetic::div_mod::lemma_mod_bound(spent * 60, minutes);
        assert(percent * minutes <= 60 * spent < (percent + 1) * minutes) by (nonlinear_arith)
            requires
                spent * 60 == minutes * percent + (spent * 60) % minutes,
                0 <= (spent * 60) % minutes < minutes,
        ;
    }
}

/// Only the last half hour counts for the rate: with that much history it is
/// twice what was gained in it.
pub proof fn law_rate_is_of_the_last_half_hour(samples: Samples)
    requires
        samples.deltas.len() >= 30,
    ensures
        samples.rate() matches Some(percent) && percent == 2 * samples.spent(0, 30),
{
    law_enough_history_has_a_rate(samples);
    let spent = samples.spent(0, 30);
    let window = samples.rate_window();
    assert(spent * 60 / window == 2 * spent) by (nonlinear_arith)
        requires
            window == 30,
    ;
}

/// A column is the gain of its own five minutes: each minute back falls into one
/// column, counted from the last.
pub proof fn law_columns_are_five_minutes(samples: Samples, column: int)
    requires
        0 <= column < 60,
    ensures
        ({
            let newest = 5 * (59 - column);
            samples.bucket(column) == samples.recent(newest) + samples.recent(newest + 1)
                + samples.recent(newest + 2) + samples.recent(newest + 3) + samples.recent(
                newest + 4,
            )
        }),
{
    reveal_with_fuel(Samples::spent, 6);
}

/// What was gained is scaled to an hour from as many minutes as there are, up to
/// half an hour, and cut to whole percent.
pub proof fn law_partial_windows_are_scaled_up(samples: Samples)
    requires
        5 <= samples.deltas.len(),
    ensures
        ({
            let minutes = if samples.deltas.len() < 30 {
                samples.deltas.len() as int
            } else {
                30
            };
            let gained = samples.spent(0, minutes);
            samples.rate() matches Some(percent) && percent * minutes <= 60 * gained < (percent + 1)
                * minutes
        }),
{
    law_enough_history_has_a_rate(samples);
    let minutes = samples.rate_window();
    let gained = samples.window_spent();
    let percent = gained * 60 / minutes;
    vstd::arithmetic::div_mod::lemma_fundamental_div_mod(gained * 60, minutes);
    vstd::arithmetic::div_mod::lemma_mod_bound(gained * 60, minutes);
    assert(percent * minutes <= 60 * gained < (percent + 1) * minutes) by (nonlinear_arith)
        requires
            gained * 60 == minutes * percent + (gained * 60) % minutes,
            0 <= (gained * 60) % minutes < minutes,
    ;
}

} // verus!
