//! Per-frame line-rendering and upload cost.
//!
//! Rendering and uploading overlap, so the useful split is the main pipeline
//! and the final tile.

use vstd::prelude::*;

verus! {

/// Frames reported individually before switching to batch summaries. The first
/// frame is the only full-screen upload and the single most interesting sample.
pub const DETAILED_FRAMES: u32 = 8;

/// Frames per summary once individual reporting stops.
pub const SUMMARY_FRAMES: u32 = 16;

/// What one line-rendered frame cost.
#[derive(Debug, Clone, Copy, PartialEq, Eq, Structural)]
pub struct FrameTiming {
    pub pipeline_us: u32,
    pub finish_us: u32,
    pub pixels: u64,
    pub rects: u32,
    pub transfers: u32,
}

impl Default for FrameTiming {
    fn default() -> (timing: Self)
        ensures
            timing == (FrameTiming {
                pipeline_us: 0,
                finish_us: 0,
                pixels: 0,
                rects: 0,
                transfers: 0,
            }),
    {
        FrameTiming { pipeline_us: 0, finish_us: 0, pixels: 0, rects: 0, transfers: 0 }
    }
}

/// What is reported of a frame.
#[derive(Debug, Clone, Copy, PartialEq, Eq, Structural)]
pub enum FrameReport {
    /// Nothing yet; the frame counts toward the next summary.
    Quiet,
    /// The frame by itself, with its number.
    Detailed { frame_number: u32, frame: FrameTiming },
    Summary {
        frames: u32,
        average_pipeline_us: u64,
        worst_pipeline_us: u32,
        average_finish_us: u64,
        worst_finish_us: u32,
        pixels: u64,
        transfers: u64,
    },
}

/// Rolling frame-cost accumulator.
///
/// Reporting every frame would perturb what it measures, so only the first few
/// frames are reported individually, as a benchmark; later ones are summed up.
pub struct FrameStats {
    frames: u32,
    pipeline_us: u64,
    finish_us: u64,
    pixels: u64,
    transfers: u64,
    worst_pipeline_us: u32,
    worst_finish_us: u32,
    /// The frames since the last summary.
    batch: Ghost<Seq<FrameTiming>>,
}

impl View for FrameStats {
    type V = Seq<FrameTiming>;

    closed spec fn view(&self) -> Seq<FrameTiming> {
        self.batch@
    }
}

impl Default for FrameStats {
    fn default() -> (stats: Self)
        ensures
            stats.wf(),
            stats@ == Seq::<FrameTiming>::empty(),
    {
        FrameStats {
            frames: 0,
            pipeline_us: 0,
            finish_us: 0,
            pixels: 0,
            transfers: 0,
            worst_pipeline_us: 0,
            worst_finish_us: 0,
            batch: Ghost(Seq::empty()),
        }
    }
}

/// The sum of a measure over frames.
pub open spec fn total(frames: Seq<FrameTiming>, measure: spec_fn(FrameTiming) -> int) -> int
    decreases frames.len(),
{
    if frames.len() == 0 {
        0
    } else {
        total(frames.drop_last(), measure) + measure(frames.last())
    }
}

/// The largest of a measure over frames.
pub open spec fn worst(frames: Seq<FrameTiming>, measure: spec_fn(FrameTiming) -> int) -> int
    decreases frames.len(),
{
    if frames.len() == 0 {
        0
    } else if measure(frames.last()) > worst(frames.drop_last(), measure) {
        measure(frames.last())
    } else {
        worst(frames.drop_last(), measure)
    }
}

/// Time in the pipeline.
pub open spec fn pipeline(frame: FrameTiming) -> int {
    frame.pipeline_us as int
}

/// Time for the final tile.
pub open spec fn finish(frame: FrameTiming) -> int {
    frame.finish_us as int
}

/// Pixels drawn.
pub open spec fn pixels(frame: FrameTiming) -> int {
    frame.pixels as int
}

/// Transfers made.
pub open spec fn transfers(frame: FrameTiming) -> int {
    frame.transfers as int
}

/// The summary of some frames.
pub open spec fn summary(batch: Seq<FrameTiming>) -> FrameReport {
    let count = batch.len() as int;
    FrameReport::Summary {
        frames: count as u32,
        average_pipeline_us: (total(batch, |f: FrameTiming| pipeline(f)) / count) as u64,
        worst_pipeline_us: worst(batch, |f: FrameTiming| pipeline(f)) as u32,
        average_finish_us: (total(batch, |f: FrameTiming| finish(f)) / count) as u64,
        worst_finish_us: worst(batch, |f: FrameTiming| finish(f)) as u32,
        pixels: total(batch, |f: FrameTiming| pixels(f)) as u64,
        transfers: total(batch, |f: FrameTiming| transfers(f)) as u64,
    }
}

/// What is reported of a frame, given the frames since the last summary.
pub open spec fn reported(
    batch: Seq<FrameTiming>,
    frame_number: u32,
    frame: FrameTiming,
) -> FrameReport {
    if frame_number <= DETAILED_FRAMES {
        FrameReport::Detailed { frame_number, frame }
    } else if batch.len() + 1 < SUMMARY_FRAMES {
        FrameReport::Quiet
    } else {
        summary(batch.push(frame))
    }
}

/// The frames since the last summary after one more frame.
pub open spec fn kept(
    batch: Seq<FrameTiming>,
    frame_number: u32,
    frame: FrameTiming,
) -> Seq<FrameTiming> {
    if frame_number <= DETAILED_FRAMES {
        batch
    } else if batch.len() + 1 < SUMMARY_FRAMES {
        batch.push(frame)
    } else {
        Seq::empty()
    }
}

proof fn lemma_total_bound(
    frames: Seq<FrameTiming>,
    measure: spec_fn(FrameTiming) -> int,
    bound: int,
)
    requires
        forall|frame: FrameTiming| 0 <= #[trigger] measure(frame) <= bound,
    ensures
        0 <= total(frames, measure) <= frames.len() * bound,
        0 <= worst(frames, measure) <= bound,
    decreases frames.len(),
{
    if frames.len() > 0 {
        lemma_total_bound(frames.drop_last(), measure, bound);
        assert((frames.len() - 1) * bound + bound == frames.len() * bound) by (nonlinear_arith);
    } else {
        assert(measure(arbitrary()) <= bound);
    }
}

impl FrameStats {
    /// The sums are those of the frames since the last summary, of which there
    /// are fewer than a summary takes.
    pub closed spec fn wf(self) -> bool {
        let batch = self.batch@;
        &&& batch.len() < SUMMARY_FRAMES
        &&& self.frames == batch.len()
        &&& self.pipeline_us == total(batch, |f: FrameTiming| pipeline(f))
        &&& self.finish_us == total(batch, |f: FrameTiming| finish(f))
        &&& self.pixels == total(batch, |f: FrameTiming| pixels(f))
        &&& self.transfers == total(batch, |f: FrameTiming| transfers(f))
        &&& self.worst_pipeline_us == worst(batch, |f: FrameTiming| pipeline(f))
        &&& self.worst_finish_us == worst(batch, |f: FrameTiming| finish(f))
    }

    /// Account for a frame: the first frames are reported by themselves, later
    /// ones when enough of them have come together.
    pub fn record(&mut self, frame_number: u32, frame: FrameTiming) -> (report: FrameReport)
        requires
            old(self).wf(),
            frame_number > DETAILED_FRAMES ==> total(
                old(self)@,
                |f: FrameTiming| pixels(f),
            ) + frame.pixels <= u64::MAX,
        ensures
            final(self).wf(),
            if frame_number <= DETAILED_FRAMES {
                &&& report == (FrameReport::Detailed { frame_number, frame })
                &&& final(self)@ == old(self)@
            } else if old(self)@.len() + 1 < SUMMARY_FRAMES {
                &&& report == FrameReport::Quiet
                &&& final(self)@ == old(self)@.push(frame)
            } else {
                &&& report == summary(old(self)@.push(frame))
                &&& final(self)@ == Seq::<FrameTiming>::empty()
            },
            report == reported(old(self)@, frame_number, frame),
            final(self)@ == kept(old(self)@, frame_number, frame),
    {
        if frame_number <= DETAILED_FRAMES {
            return FrameReport::Detailed { frame_number, frame };
        }
        let ghost before = self.batch@;
        let ghost batch = before.push(frame);
        proof {
            assert(batch.drop_last() =~= before);
            lemma_total_bound(before, |f: FrameTiming| pipeline(f), u32::MAX as int);
            lemma_total_bound(before, |f: FrameTiming| finish(f), u32::MAX as int);
            lemma_total_bound(before, |f: FrameTiming| pixels(f), u64::MAX as int);
            lemma_total_bound(before, |f: FrameTiming| transfers(f), u32::MAX as int);
        }
        self.frames = self.frames + 1;
        self.pipeline_us = self.pipeline_us + frame.pipeline_us as u64;
        self.finish_us = self.finish_us + frame.finish_us as u64;
        self.pixels = self.pixels + frame.pixels;
        self.transfers = self.transfers + frame.transfers as u64;
        if frame.pipeline_us > self.worst_pipeline_us {
            self.worst_pipeline_us = frame.pipeline_us;
        }
        if frame.finish_us > self.worst_finish_us {
            self.worst_finish_us = frame.finish_us;
        }
        self.batch = Ghost(batch);
        if self.frames < SUMMARY_FRAMES {
            return FrameReport::Quiet;
        }
        let report = FrameReport::Summary {
            frames: self.frames,
            average_pipeline_us: self.pipeline_us / self.frames as u64,
            worst_pipeline_us: self.worst_pipeline_us,
            average_finish_us: self.finish_us / self.frames as u64,
            worst_finish_us: self.worst_finish_us,
            pixels: self.pixels,
            transfers: self.transfers,
        };
        *self = FrameStats::default();
        report
    }
}

/// The worst frame is no cheaper than any frame, and the average is no dearer
/// than the worst.
pub proof fn law_worst_bounds_the_frames(
    frames: Seq<FrameTiming>,
    measure: spec_fn(FrameTiming) -> int,
    index: int,
)
    requires
        0 <= index < frames.len(),
        forall|frame: FrameTiming| 0 <= #[trigger] measure(frame),
    ensures
        measure(frames[index]) <= worst(frames, measure),
        total(frames, measure) <= frames.len() * worst(frames, measure),
    decreases frames.len(),
{
    let before = frames.drop_last();
    if before.len() > 0 {
        law_worst_bounds_the_frames(
            before,
            measure,
            if index < before.len() {
                index
            } else {
                0
            },
        );
    }
    let held = before.len() * worst(before, measure);
    let largest = worst(frames, measure);
    assert(held <= before.len() * largest) by (nonlinear_arith)
        requires
            held == before.len() * worst(before, measure),
            worst(before, measure) <= largest,
    ;
    assert(before.len() * largest + largest == frames.len() * largest) by (nonlinear_arith)
        requires
            before.len() + 1 == frames.len(),
    ;
    assert(before.len() == 0 ==> total(before, measure) == 0);
}

/// The first eight frames are reported by themselves. Of the others each counts
/// toward one summary of sixteen, and between summaries nothing is reported.
pub proof fn law_frames_are_reported(
    batch: Seq<FrameTiming>,
    frame_number: u32,
    frame: FrameTiming,
)
    requires
        batch.len() < 16,
    ensures
        frame_number <= 8 ==> reported(batch, frame_number, frame) == (FrameReport::Detailed {
            frame_number,
            frame,
        }) && kept(batch, frame_number, frame) == batch,
        frame_number > 8 && batch.len() < 15 ==> reported(batch, frame_number, frame)
            == FrameReport::Quiet && kept(batch, frame_number, frame) == batch.push(frame),
        frame_number > 8 && batch.len() == 15 ==> reported(batch, frame_number, frame) == summary(
            batch.push(frame),
        ) && kept(batch, frame_number, frame).len() == 0,
{
}

/// Sums start at nothing and grow by each frame, whatever is summed.
pub proof fn law_totals_add_up(
    frames: Seq<FrameTiming>,
    frame: FrameTiming,
    measure: spec_fn(FrameTiming) -> int,
)
    ensures
        total(Seq::<FrameTiming>::empty(), measure) == 0,
        total(frames.push(frame), measure) == total(frames, measure) + measure(frame),
{
    assert(frames.push(frame).drop_last() =~= frames);
}

/// The worst is the worst of some frame.
pub proof fn law_worst_is_one_of_the_frames(
    frames: Seq<FrameTiming>,
    measure: spec_fn(FrameTiming) -> int,
)
    requires
        frames.len() > 0,
        forall|frame: FrameTiming| 0 <= #[trigger] measure(frame),
    ensures
        exists|index: int|
            0 <= index < frames.len() && measure(#[trigger] frames[index]) == worst(
                frames,
                measure,
            ),
    decreases frames.len(),
{
    let before = frames.drop_last();
    let last = frames.len() - 1;
    if measure(frames[last]) > worst(before, measure) || before.len() == 0 {
        assert(worst(before, measure) >= 0) by {
            lemma_worst_is_no_debt(before, measure);
        }
        if before.len() == 0 {
            assert(worst(before, measure) == 0);
        }
        assert(measure(frames[last]) == worst(frames, measure));
    } else {
        law_worst_is_one_of_the_frames(before, measure);
        let index = choose|index: int|
            0 <= index < before.len() && measure(#[trigger] before[index]) == worst(
                before,
                measure,
            );
        assert(frames[index] == before[index]);
    }
}

proof fn lemma_worst_is_no_debt(frames: Seq<FrameTiming>, measure: spec_fn(FrameTiming) -> int)
    ensures
        worst(frames, measure) >= 0,
    decreases frames.len(),
{
    if frames.len() > 0 {
        lemma_worst_is_no_debt(frames.drop_last(), measure);
    }
}

/// A summary is that of its frames: it counts them, its pixels and transfers are
/// all of theirs, its averages are their times shared evenly and cut to whole
/// microseconds, and its worst times are the largest of theirs.
pub proof fn law_summaries_are_of_their_frames(batch: Seq<FrameTiming>)
    requires
        1 <= batch.len() <= 16,
        total(batch, |f: FrameTiming| f.pixels as int) <= u64::MAX,
    ensures
        match summary(batch) {
            FrameReport::Summary {
                frames,
                average_pipeline_us,
                worst_pipeline_us,
                average_finish_us,
                worst_finish_us,
                pixels,
                transfers,
            } => {
                let pipeline_us = total(batch, |f: FrameTiming| f.pipeline_us as int);
                let finish_us = total(batch, |f: FrameTiming| f.finish_us as int);
                &&& frames == batch.len()
                &&& pixels == total(batch, |f: FrameTiming| f.pixels as int)
                &&& transfers == total(batch, |f: FrameTiming| f.transfers as int)
                &&& average_pipeline_us * frames <= pipeline_us < (average_pipeline_us + 1) * frames
                &&& average_finish_us * frames <= finish_us < (average_finish_us + 1) * frames
                &&& worst_pipeline_us == worst(batch, |f: FrameTiming| f.pipeline_us as int)
                &&& worst_finish_us == worst(batch, |f: FrameTiming| f.finish_us as int)
            },
            _ => false,
        },
{
    let by_pipeline = |f: FrameTiming| pipeline(f);
    let by_finish = |f: FrameTiming| finish(f);
    let by_pixels = |f: FrameTiming| pixels(f);
    let by_transfers = |f: FrameTiming| transfers(f);
    assert(by_pipeline =~= |f: FrameTiming| f.pipeline_us as int);
    assert(by_finish =~= |f: FrameTiming| f.finish_us as int);
    assert(by_pixels =~= |f: FrameTiming| f.pixels as int);
    assert(by_transfers =~= |f: FrameTiming| f.transfers as int);
    lemma_total_bound(batch, by_pipeline, u32::MAX as int);
    lemma_total_bound(batch, by_finish, u32::MAX as int);
    lemma_total_bound(batch, by_transfers, u32::MAX as int);
    lemma_total_bound(batch, by_pixels, u64::MAX as int);
    lemma_shared(total(batch, by_pipeline), batch.len() as int);
    lemma_shared(total(batch, by_finish), batch.len() as int);
    assert(batch.len() * u32::MAX <= 16 * u32::MAX) by (nonlinear_arith)
        requires
            batch.len() <= 16,
    ;
}

proof fn lemma_shared(sum: int, count: int)
    requires
        1 <= count,
        0 <= sum,
    ensures
        (sum / count) * count <= sum < (sum / count + 1) * count,
        0 <= sum / count <= sum,
{
    vstd::arithmetic::div_mod::lemma_fundamental_div_mod(sum, count);
    vstd::arithmetic::div_mod::lemma_mod_bound(sum, count);
    let share = sum / count;
    assert(share * count <= sum < (share + 1) * count) by (nonlinear_arith)
        requires
            sum == count * share + sum % count,
            0 <= sum % count < count,
    ;
    assert(0 <= share <= sum) by (nonlinear_arith)
        requires
            share * count <= sum < (share + 1) * count,
            1 <= count,
            0 <= sum,
    ;
}

} // verus!
