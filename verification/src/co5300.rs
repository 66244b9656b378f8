//! The tile renderer's side of the display.
//!
//! The interface is drawn line by line into a band of eight lines. The parts of
//! each line that changed are remembered as spans. When drawing leaves the
//! band, spans that lie exactly under each other are joined into rectangles,
//! and each rectangle goes to the panel in one background transfer.

pub mod frames;
pub mod shown;

use crate::panel;
use crate::panel::{BusOp, Payload};
use vstd::prelude::*;

verus! {

/// Number of display rows accumulated before an upload.
///
/// Eight is deliberately even, preserving the controller's 2x2 address-window
/// requirement when an aligned dirty rectangle crosses a tile boundary.
pub const TILE_LINES: usize = 8;

/// Size of each of the two buffers: 480 x 8 pixels of two bytes.
pub const TILE_BUFFER_BYTES: usize = 7680;

pub const BYTES_PER_PIXEL: usize = 2;

/// The renderer reports at most three ranges per line. The spare capacity makes
/// a future increase a recoverable frame error.
pub const MAX_DIRTY_SPANS: usize = 32;

pub const MAX_DIRTY_RECTS: usize = 32;

/// Why a frame could not be shown. `E` is what the bus reports.
pub enum Error<E> {
    Spi(E),
    BufferTooSmall,
    InvalidRegion,
    /// The driver has lost its bus or its buffer.
    MissingResource,
}

/// Columns `start` to `end`, the end excluded, of one line.
#[derive(Clone, Copy)]
pub struct DirtySpan {
    pub line: u16,
    pub start: u16,
    pub end: u16,
}

#[derive(Clone, Copy)]
pub struct DirtyRect {
    pub x: u16,
    pub y: u16,
    pub width: u16,
    pub height: u16,
}

/// `heapless::Vec`, a vector of fixed capacity.
#[verifier::external_type_specification]
#[verifier::external_body]
#[verifier::reject_recursive_types(T)]
pub struct ExHeaplessVec<T, const N: usize>(heapless::Vec<T, N>);

/// The spans that a vector holds, in order.
pub uninterp spec fn held_spans(spans: heapless::Vec<DirtySpan, MAX_DIRTY_SPANS>) -> Seq<DirtySpan>;

/// `heapless::Vec::new`: an empty vector.
#[verifier::external_body]
fn no_spans() -> (spans: heapless::Vec<DirtySpan, MAX_DIRTY_SPANS>)
    ensures
        held_spans(spans) == Seq::<DirtySpan>::empty(),
{
    heapless::Vec::new()
}

/// `heapless::Vec::push`: appends while there is room, and otherwise leaves the
/// vector as it was.
#[verifier::external_body]
fn push_span(spans: &mut heapless::Vec<DirtySpan, MAX_DIRTY_SPANS>, span: DirtySpan) -> (pushed:
    bool)
    ensures
        pushed == (held_spans(*old(spans)).len() < MAX_DIRTY_SPANS),
        held_spans(*final(spans)) == if pushed {
            held_spans(*old(spans)).push(span)
        } else {
            held_spans(*old(spans))
        },
{
    spans.push(span).is_ok()
}

/// `heapless::Vec::clear`: the vector is empty afterwards.
#[verifier::external_body]
fn clear_spans(spans: &mut heapless::Vec<DirtySpan, MAX_DIRTY_SPANS>)
    ensures
        held_spans(*final(spans)) == Seq::<DirtySpan>::empty(),
{
    spans.clear();
}

/// `heapless::Vec::as_slice`: the elements in order.
#[verifier::external_body]
fn span_slice(spans: &heapless::Vec<DirtySpan, MAX_DIRTY_SPANS>) -> (slice: &[DirtySpan])
    ensures
        slice@ == held_spans(*spans),
        slice@.len() <= MAX_DIRTY_SPANS,
{
    spans.as_slice()
}

/// The rectangles that a vector holds, in order.
pub uninterp spec fn held_rects(rects: heapless::Vec<DirtyRect, MAX_DIRTY_RECTS>) -> Seq<DirtyRect>;

/// `heapless::Vec::new`: an empty vector.
#[verifier::external_body]
fn no_rects() -> (rects: heapless::Vec<DirtyRect, MAX_DIRTY_RECTS>)
    ensures
        held_rects(rects) == Seq::<DirtyRect>::empty(),
{
    heapless::Vec::new()
}

/// `heapless::Vec::push`: appends while there is room, and otherwise leaves the
/// vector as it was.
#[verifier::external_body]
fn push_rect(rects: &mut heapless::Vec<DirtyRect, MAX_DIRTY_RECTS>, rect: DirtyRect) -> (pushed:
    bool)
    ensures
        pushed == (held_rects(*old(rects)).len() < MAX_DIRTY_RECTS),
        held_rects(*final(rects)) == if pushed {
            held_rects(*old(rects)).push(rect)
        } else {
            held_rects(*old(rects))
        },
{
    rects.push(rect).is_ok()
}

/// `heapless::Vec::as_slice`: the elements in order.
#[verifier::external_body]
fn rect_slice(rects: &heapless::Vec<DirtyRect, MAX_DIRTY_RECTS>) -> (slice: &[DirtyRect])
    ensures
        slice@ == held_rects(*rects),
        slice@.len() <= MAX_DIRTY_RECTS,
{
    rects.as_slice()
}

/// `heapless::Vec::as_mut_slice`, indexed: one element is replaced.
#[verifier::external_body]
fn replace_rect(
    rects: &mut heapless::Vec<DirtyRect, MAX_DIRTY_RECTS>,
    index: usize,
    rect: DirtyRect,
)
    requires
        index < held_rects(*old(rects)).len(),
    ensures
        held_rects(*final(rects)) == held_rects(*old(rects)).update(index as int, rect),
{
    rects.as_mut_slice()[index] = rect;
}

/// The span lies directly under the rectangle and is as wide.
pub open spec fn extends(rect: DirtyRect, span: DirtySpan) -> bool {
    rect.x == span.start && rect.width == span.end - span.start && rect.y + rect.height
        == span.line
}

/// Index of the last rectangle that a span extends, or -1.
pub open spec fn last_extended(rects: Seq<DirtyRect>, span: DirtySpan) -> int
    decreases rects.len(),
{
    if rects.len() == 0 {
        -1
    } else if extends(rects.last(), span) {
        rects.len() - 1
    } else {
        last_extended(rects.drop_last(), span)
    }
}

/// The rectangles with one span more.
pub open spec fn with_span(rects: Seq<DirtyRect>, span: DirtySpan) -> Seq<DirtyRect> {
    let index = last_extended(rects, span);
    if index >= 0 {
        rects.update(
            index,
            DirtyRect { height: (rects[index].height + 1) as u16, ..rects[index] },
        )
    } else {
        rects.push(
            DirtyRect {
                x: span.start,
                y: span.line,
                width: (span.end - span.start) as u16,
                height: 1,
            },
        )
    }
}

/// The rectangles that spans join into.
pub open spec fn merged(spans: Seq<DirtySpan>) -> Seq<DirtyRect>
    decreases spans.len(),
{
    if spans.len() == 0 {
        Seq::empty()
    } else {
        with_span(merged(spans.drop_last()), spans.last())
    }
}

/// A pixel lies in a rectangle.
pub open spec fn in_rect(rect: DirtyRect, x: int, y: int) -> bool {
    rect.x <= x < rect.x + rect.width && rect.y <= y < rect.y + rect.height
}

/// A pixel lies in a span.
pub open spec fn in_span(span: DirtySpan, x: int, y: int) -> bool {
    span.start <= x < span.end && span.line == y
}

/// A rectangle within a band of a panel.
pub open spec fn within_band(width: int, height: int, band_y: int, rect: DirtyRect) -> bool {
    &&& 1 <= rect.width
    &&& 1 <= rect.height
    &&& rect.x + rect.width <= width
    &&& rect.y + rect.height <= height
    &&& band_y <= rect.y
    &&& rect.y + rect.height <= band_y + TILE_LINES
}

/// A span within a band of a panel.
pub open spec fn span_within_band(width: int, height: int, band_y: int, span: DirtySpan) -> bool {
    &&& span.start < span.end <= width
    &&& span.line < height
    &&& band_y <= span.line < band_y + TILE_LINES
}

/// The controller takes only windows at even places with even sizes.
pub open spec fn even(rect: DirtyRect) -> bool {
    rect.x % 2 == 0 && rect.y % 2 == 0 && rect.width % 2 == 0 && rect.height % 2 == 0
}

/// The bytes of a rectangle, row by row, in the render buffer of its band.
pub open spec fn rows_of(width: int, band_y: int, rect: DirtyRect) -> Payload {
    Payload::Rows {
        begin: ((rect.y - band_y) * (width * 2) + rect.x * 2) as usize,
        row_bytes: (rect.width * 2) as usize,
        rows: rect.height as usize,
        stride: (width * 2) as usize,
    }
}

/// Waiting for a transfer in the background, if there is one.
pub open spec fn wait_ops(pending: bool) -> Seq<BusOp> {
    if pending {
        seq![BusOp::Finish, BusOp::Deselect]
    } else {
        Seq::empty()
    }
}

/// Uploading one rectangle.
pub open spec fn rectangle_ops(pending: bool, width: int, band_y: int, rect: DirtyRect) -> Seq<
    BusOp,
> {
    wait_ops(pending) + panel::window_ops(rect.x, rect.y, rect.width, rect.height)
        + panel::command_ops(panel::MEMORY_WRITE_START, Payload::Nothing) + seq![
        BusOp::Select,
        BusOp::Start(panel::pixel_transfer(true, rows_of(width, band_y, rect))),
    ]
}

/// Uploading the first rectangles.
pub open spec fn upload_ops(
    pending: bool,
    width: int,
    band_y: int,
    rects: Seq<DirtyRect>,
    count: int,
) -> Seq<BusOp>
    decreases count,
{
    if count <= 0 {
        Seq::empty()
    } else {
        upload_ops(pending, width, band_y, rects, count - 1) + rectangle_ops(
            pending || count > 1,
            width,
            band_y,
            rects[count - 1],
        )
    }
}

/// How many of the first rectangles come before one the controller would
/// refuse.
pub open spec fn uploadable(rects: Seq<DirtyRect>, among: int) -> int
    decreases among,
{
    if among <= 0 {
        0
    } else {
        let before = uploadable(rects, among - 1);
        if before == among - 1 && even(rects[among - 1]) {
            among
        } else {
            before
        }
    }
}

proof fn lemma_refused_from(rects: Seq<DirtyRect>, first: int, among: int)
    requires
        0 <= first < among <= rects.len(),
        uploadable(rects, first) == first,
        !even(rects[first]),
    ensures
        uploadable(rects, among) == first,
    decreases among,
{
    if among > first + 1 {
        lemma_refused_from(rects, first, among - 1);
    }
}

proof fn lemma_last_extended(rects: Seq<DirtyRect>, span: DirtySpan)
    ensures
        -1 <= last_extended(rects, span) < rects.len(),
        last_extended(rects, span) >= 0 ==> extends(rects[last_extended(rects, span)], span),
        forall|i: int|
            last_extended(rects, span) < i < rects.len() ==> !extends(#[trigger] rects[i], span),
    decreases rects.len(),
{
    if rects.len() > 0 && !extends(rects.last(), span) {
        lemma_last_extended(rects.drop_last(), span);
        assert forall|i: int| last_extended(rects, span) < i < rects.len() implies !extends(
            #[trigger] rects[i],
            span,
        ) by {
            if i < rects.len() - 1 {
                assert(rects.drop_last()[i] == rects[i]);
            }
        }
    }
}

/// The index found from the end is the last one extended.
proof fn lemma_is_last_extended(rects: Seq<DirtyRect>, span: DirtySpan, index: int)
    requires
        -1 <= index < rects.len(),
        index >= 0 ==> extends(rects[index], span),
        forall|i: int| index < i < rects.len() ==> !extends(#[trigger] rects[i], span),
    ensures
        last_extended(rects, span) == index,
{
    lemma_last_extended(rects, span);
    let found = last_extended(rects, span);
    if found < index {
        assert(!extends(rects[index], span));
    } else if found > index {
        assert(!extends(rects[found], span));
    }
}

/// Joined rectangles stay within their band, and there are no more of them than
/// spans.
pub(crate) proof fn lemma_merged_within_band(width: int, height: int, band_y: int, spans: Seq<DirtySpan>)
    requires
        width <= u16::MAX,
        height <= u16::MAX,
        forall|i: int|
            0 <= i < spans.len() ==> span_within_band(width, height, band_y, #[trigger] spans[i]),
    ensures
        merged(spans).len() <= spans.len(),
        forall|i: int|
            0 <= i < merged(spans).len() ==> within_band(
                width,
                height,
                band_y,
                #[trigger] merged(spans)[i],
            ),
    decreases spans.len(),
{
    if spans.len() > 0 {
        let before = spans.drop_last();
        assert forall|i: int| 0 <= i < before.len() implies span_within_band(
            width,
            height,
            band_y,
            #[trigger] before[i],
        ) by {
            assert(before[i] == spans[i]);
        }
        lemma_merged_within_band(width, height, band_y, before);
        lemma_last_extended(merged(before), spans.last());
        assert(span_within_band(width, height, band_y, spans[spans.len() - 1]));
    }
}

/// The joined rectangles cover exactly the pixels of the spans.
pub proof fn law_rectangles_cover_the_spans(
    width: int,
    height: int,
    band_y: int,
    spans: Seq<DirtySpan>,
    x: int,
    y: int,
)
    requires
        width <= u16::MAX,
        height <= u16::MAX,
        forall|i: int|
            0 <= i < spans.len() ==> span_within_band(width, height, band_y, #[trigger] spans[i]),
    ensures
        (exists|i: int| 0 <= i < merged(spans).len() && in_rect(#[trigger] merged(spans)[i], x, y))
            <==> (exists|i: int| 0 <= i < spans.len() && in_span(#[trigger] spans[i], x, y)),
    decreases spans.len(),
{
    if spans.len() > 0 {
        let before = spans.drop_last();
        let span = spans.last();
        let rects = merged(before);
        let joined = merged(spans);
        assert forall|i: int| 0 <= i < before.len() implies span_within_band(
            width,
            height,
            band_y,
            #[trigger] before[i],
        ) by {
            assert(before[i] == spans[i]);
        }
        law_rectangles_cover_the_spans(width, height, band_y, before, x, y);
        lemma_merged_within_band(width, height, band_y, before);
        lemma_last_extended(rects, span);
        assert(span_within_band(width, height, band_y, spans[spans.len() - 1]));
        let index = last_extended(rects, span);
        let touched = if index >= 0 { index } else { rects.len() as int };
        assert(joined == with_span(rects, span));
        if in_span(span, x, y) {
            assert(in_rect(joined[touched], x, y));
            assert(in_span(spans[spans.len() - 1], x, y));
        }
        if exists|i: int| 0 <= i < rects.len() && in_rect(#[trigger] rects[i], x, y) {
            let i = choose|i: int| 0 <= i < rects.len() && in_rect(#[trigger] rects[i], x, y);
            assert(in_rect(joined[i], x, y));
        }
        if exists|i: int| 0 <= i < before.len() && in_span(#[trigger] before[i], x, y) {
            let i = choose|i: int| 0 <= i < before.len() && in_span(#[trigger] before[i], x, y);
            assert(in_span(spans[i], x, y));
        }
        if exists|i: int| 0 <= i < joined.len() && in_rect(#[trigger] joined[i], x, y) {
            let i = choose|i: int| 0 <= i < joined.len() && in_rect(#[trigger] joined[i], x, y);
            if !in_span(span, x, y) {
                assert(i < rects.len());
                assert(in_rect(rects[i], x, y));
            }
        }
        if exists|i: int| 0 <= i < spans.len() && in_span(#[trigger] spans[i], x, y) {
            let i = choose|i: int| 0 <= i < spans.len() && in_span(#[trigger] spans[i], x, y);
            if i < before.len() {
                assert(in_span(before[i], x, y));
            }
        }
    }
}

/// The state of the display between calls.
pub struct DisplayView<E> {
    pub width: u16,
    pub height: u16,
    /// Bytes the render buffer holds.
    pub capacity: usize,
    /// First line of the band being drawn.
    pub band_y: Option<u16>,
    /// What changed in the band, in drawing order.
    pub spans: Seq<DirtySpan>,
    /// Transfers begun for this frame.
    pub transfers: u32,
    /// What spoiled this frame.
    pub error: Option<Error<E>>,
    /// A transfer runs in the background.
    pub pending: bool,
}

impl<E> DisplayView<E> {
    /// The panel fits the buffers, and the spans lie in the band.
    pub open spec fn valid(self) -> bool {
        &&& self.width * (TILE_LINES * BYTES_PER_PIXEL) <= TILE_BUFFER_BYTES
        &&& self.width * (TILE_LINES * BYTES_PER_PIXEL) <= self.capacity
        &&& self.spans.len() <= MAX_DIRTY_SPANS
        &&& match self.band_y {
            None => self.spans.len() == 0,
            Some(band_y) => {
                &&& band_y as int % TILE_LINES as int == 0
                &&& forall|i: int|
                    0 <= i < self.spans.len() ==> span_within_band(
                        self.width as int,
                        self.height as int,
                        band_y as int,
                        #[trigger] self.spans[i],
                    )
            },
        }
    }

    /// The rectangles waiting in the band.
    pub open spec fn rects(self) -> Seq<DirtyRect> {
        merged(self.spans)
    }

    /// How many of them the controller takes before it would refuse one.
    pub open spec fn accepted(self) -> int {
        uploadable(self.rects(), self.rects().len() as int)
    }

    /// Flushing the band comes to its end.
    pub open spec fn flushes_completely(self) -> bool {
        self.accepted() == self.rects().len()
    }

    /// The state with something to spoil the frame; the first such thing stays.
    pub open spec fn with_error(self, error: Error<E>) -> DisplayView<E> {
        DisplayView {
            error: if self.error is Some {
                self.error
            } else {
                Some(error)
            },
            ..self
        }
    }

    /// What becomes of a line.
    pub open spec fn line_step(self, line: int, start: int, end: int) -> LineStep {
        if self.error is Some || start >= end || line >= self.height || end > self.width {
            LineStep::Skip
        } else if self.band_y matches Some(band_y) && band_y != line / 8 * 8 {
            LineStep::Flush
        } else {
            LineStep::Render {
                begin: (line % 8 * self.width + start) as usize,
                end: (line % 8 * self.width + end) as usize,
            }
        }
    }

    /// The state after that decision: a line outside the panel spoils the
    /// frame, and the first line drawn opens its band.
    pub open spec fn after_line_step(self, line: int, start: int, end: int) -> DisplayView<E> {
        if self.error is None && start < end && (line >= self.height || end > self.width) {
            self.with_error(Error::InvalidRegion)
        } else if self.line_step(line, start, end) is Render {
            DisplayView { band_y: Some((line / 8 * 8) as u16), ..self }
        } else {
            self
        }
    }

    /// The state after columns of a line were drawn.
    pub open spec fn after_drawing(self, line: int, start: int, end: int) -> DisplayView<E> {
        if self.spans.len() < MAX_DIRTY_SPANS {
            DisplayView {
                spans: self.spans.push(
                    DirtySpan { line: line as u16, start: start as u16, end: end as u16 },
                ),
                ..self
            }
        } else {
            self.with_error(Error::InvalidRegion)
        }
    }

    /// A pixel was drawn and waits to be uploaded.
    pub open spec fn is_dirty(self, x: int, y: int) -> bool {
        exists|i: int| 0 <= i < self.spans.len() && in_span(#[trigger] self.spans[i], x, y)
    }

    /// The state after the first operations of a flush, all of them where it
    /// succeeds.
    ///
    /// A failing bus is left without a transfer in the background.
    pub open spec fn after_flush(self, performed: int, success: bool) -> DisplayView<E> {
        let ops = self.flush_ops();
        DisplayView {
            transfers: (self.transfers + starts(ops, performed)) as u32,
            pending: if performed < ops.len() {
                false
            } else {
                self.pending || ops.len() > 0
            },
            band_y: if success {
                None
            } else {
                self.band_y
            },
            spans: if success {
                Seq::empty()
            } else {
                self.spans
            },
            ..self
        }
    }

    /// The operations of flushing the band.
    pub open spec fn flush_ops(self) -> Seq<BusOp> {
        match self.band_y {
            None => Seq::empty(),
            Some(band_y) => upload_ops(
                self.pending,
                self.width as int,
                band_y as int,
                self.rects(),
                self.accepted(),
            ),
        }
    }
}

/// What a flush asks of the bus.
pub struct FlushPlan {
    pub ops: Vec<BusOp>,
    /// Every rectangle of the band is among the operations.
    pub complete: bool,
}

/// What to do with a line that is to be drawn.
#[derive(Debug, Clone, Copy, PartialEq, Eq, Structural)]
pub enum LineStep {
    /// Leave the line out.
    Skip,
    /// Flush the band, report how that went, then ask again.
    Flush,
    /// Draw into these pixels of the render buffer, then report the line drawn.
    Render { begin: usize, end: usize },
}

/// The end of a frame.
pub struct FrameEnd<E> {
    /// What is left to do on the bus.
    pub closing: Vec<BusOp>,
    /// How many transfers the frame took, or what spoiled it.
    pub result: Result<u32, Error<E>>,
}

/// A display with a band being drawn.
pub struct Co5300<E> {
    width: u16,
    height: u16,
    render_capacity: usize,
    band_y: Option<u16>,
    dirty_spans: heapless::Vec<DirtySpan, MAX_DIRTY_SPANS>,
    frame_transfers: u32,
    frame_error: Option<Error<E>>,
    pending: bool,
}

impl<E> View for Co5300<E> {
    type V = DisplayView<E>;

    closed spec fn view(&self) -> DisplayView<E> {
        DisplayView {
            width: self.width,
            height: self.height,
            capacity: self.render_capacity,
            band_y: self.band_y,
            spans: held_spans(self.dirty_spans),
            transfers: self.frame_transfers,
            error: self.frame_error,
            pending: self.pending,
        }
    }
}

/// How many transfers are begun among the first operations.
pub open spec fn starts(ops: Seq<BusOp>, among: int) -> int
    decreases among,
{
    if among <= 0 {
        0
    } else {
        starts(ops, among - 1) + if ops[among - 1] is Start {
            1int
        } else {
            0
        }
    }
}

proof fn lemma_starts_ascend(ops: Seq<BusOp>, fewer: int, more: int)
    requires
        0 <= fewer <= more,
    ensures
        0 <= starts(ops, fewer) <= starts(ops, more),
    decreases more,
{
    if fewer < more {
        lemma_starts_ascend(ops, fewer, more - 1);
    } else if 0 < fewer {
        lemma_starts_ascend(ops, fewer - 1, more - 1);
    }
}

/// How many operations were performed before the one that failed.
pub open spec fn performed<E>(ops: Seq<BusOp>, failure: Option<(usize, Error<E>)>) -> int {
    match failure {
        Some(f) => f.0 as int,
        None => ops.len() as int,
    }
}

/// What a flush comes to.
pub open spec fn flush_result<E>(complete: bool, failure: Option<(usize, Error<E>)>) -> Result<
    (),
    Error<E>,
> {
    match failure {
        Some(f) => Err(f.1),
        None => if complete {
            Ok(())
        } else {
            Err(Error::InvalidRegion)
        },
    }
}

impl<E> DisplayView<E> {
    /// The state after a flush that a line asked for.
    pub open spec fn after_line_flush(
        self,
        complete: bool,
        failure: Option<(usize, Error<E>)>,
    ) -> DisplayView<E> {
        let done = performed(self.flush_ops(), failure);
        match flush_result(complete, failure) {
            Ok(_) => self.after_flush(done, true),
            Err(error) => self.after_flush(done, false).with_error(error),
        }
    }

    /// The operations of the end of a frame.
    pub open spec fn last_ops(self) -> Seq<BusOp> {
        if self.error is Some {
            Seq::empty()
        } else {
            self.flush_ops()
        }
    }

    /// What a frame comes to.
    pub open spec fn frame_result(
        self,
        complete: bool,
        failure: Option<(usize, Error<E>)>,
    ) -> Result<u32, Error<E>> {
        match (self.error, flush_result(complete, failure)) {
            (Some(error), _) => Err(error),
            (None, Err(error)) => Err(error),
            (None, Ok(_)) => Ok(
                (self.transfers + starts(self.last_ops(), self.last_ops().len() as int)) as u32,
            ),
        }
    }

    /// What is left to do on the bus at the end of a frame.
    pub open spec fn frame_closing(self, failed: bool) -> Seq<BusOp> {
        if failed {
            panel::release_ops(true)
        } else {
            wait_ops(self.pending || self.last_ops().len() > 0)
        }
    }

    /// The state before the next frame.
    pub open spec fn next_frame(self) -> DisplayView<E> {
        DisplayView {
            band_y: None,
            spans: Seq::empty(),
            transfers: 0,
            error: None,
            pending: false,
            ..self
        }
    }
}

/// Both buffers have room for a band of a display, and so has a transfer.
pub open spec fn has_room(render_capacity: int, transmit_capacity: int, width: int) -> bool {
    &&& width * (TILE_LINES * BYTES_PER_PIXEL) <= TILE_BUFFER_BYTES
    &&& width * (TILE_LINES * BYTES_PER_PIXEL) <= render_capacity
    &&& width * (TILE_LINES * BYTES_PER_PIXEL) <= transmit_capacity
}

impl<E> Co5300<E> {
    /// A display whose buffers have the given capacities in bytes.
    pub fn new(
        render_capacity: usize,
        transmit_capacity: usize,
        width: u16,
        height: u16,
    ) -> (result: Result<Self, Error<E>>)
        ensures
            match result {
                Ok(display) => {
                    &&& width * 16 <= TILE_BUFFER_BYTES
                    &&& width * 16 <= render_capacity
                    &&& width * 16 <= transmit_capacity
                    &&& display@ == (DisplayView::<E> {
                        width,
                        height,
                        capacity: render_capacity,
                        band_y: None,
                        spans: Seq::empty(),
                        transfers: 0,
                        error: None,
                        pending: false,
                    })
                    &&& display@.valid()
                },
                Err(Error::BufferTooSmall) => {
                    ||| width * 16 > TILE_BUFFER_BYTES
                    ||| width * 16 > render_capacity
                    ||| width * 16 > transmit_capacity
                },
                Err(_) => false,
            },
            result is Ok <==> has_room(
                render_capacity as int,
                transmit_capacity as int,
                width as int,
            ),
    {
        let required_capacity: usize = width as usize * TILE_LINES * BYTES_PER_PIXEL;
        if required_capacity > TILE_BUFFER_BYTES || render_capacity < required_capacity
            || transmit_capacity < required_capacity {
            return Err(Error::BufferTooSmall);
        }
        Ok(
            Co5300 {
                width,
                height,
                render_capacity,
                band_y: None,
                dirty_spans: no_spans(),
                frame_transfers: 0,
                frame_error: None,
                pending: false,
            },
        )
    }

    /// Join the spans of the band into rectangles.
    fn rectangles(&self) -> (rects: heapless::Vec<DirtyRect, MAX_DIRTY_RECTS>)
        requires
            self@.valid(),
            self@.band_y is Some,
        ensures
            held_rects(rects) == self@.rects(),
    {
        let mut rects = no_rects();
        let spans = span_slice(&self.dirty_spans);
        let ghost view = self@;
        let mut i: usize = 0;
        assert(spans@.take(0) =~= Seq::empty());
        while i < spans.len()
            invariant
                view == self@,
                view.valid(),
                view.band_y is Some,
                spans@ == view.spans,
                i <= spans@.len() <= MAX_DIRTY_SPANS,
                held_rects(rects) == merged(spans@.take(i as int)),
            decreases spans.len() - i,
        {
            let span = spans[i];
            let ghost before = spans@.take(i as int);
            proof {
                assert(spans@.take(i + 1).drop_last() =~= before);
                assert(spans@.take(i + 1).last() == span);
                assert(span_within_band(
                    view.width as int,
                    view.height as int,
                    view.band_y->0 as int,
                    view.spans[i as int],
                ));
                assert forall|k: int| 0 <= k < before.len() implies span_within_band(
                    view.width as int,
                    view.height as int,
                    view.band_y->0 as int,
                    #[trigger] before[k],
                ) by {
                    assert(before[k] == view.spans[k]);
                }
                lemma_merged_within_band(
                    view.width as int,
                    view.height as int,
                    view.band_y->0 as int,
                    before,
                );
            }
            let width: u16 = span.end - span.start;
            let current = rect_slice(&rects);
            let mut found: usize = current.len();
            let mut j: usize = current.len();
            while j > 0 && found == current.len()
                invariant
                    current@ == held_rects(rects),
                    held_rects(rects) == merged(before),
                    width == span.end - span.start,
                    j <= current@.len() <= MAX_DIRTY_RECTS,
                    found <= current@.len(),
                    found < current@.len() ==> found == j && extends(current@[found as int], span),
                    forall|k: int|
                        0 <= k < merged(before).len() ==> within_band(
                            view.width as int,
                            view.height as int,
                            view.band_y->0 as int,
                            #[trigger] merged(before)[k],
                        ),
                    forall|k: int|
                        j <= k < current@.len() && k != found ==> !extends(
                            #[trigger] current@[k],
                            span,
                        ),
                decreases j,
            {
                j = j - 1;
                let rect = current[j];
                assert(within_band(
                    view.width as int,
                    view.height as int,
                    view.band_y->0 as int,
                    merged(before)[j as int],
                ));
                if rect.x == span.start && rect.width == width && rect.y + rect.height
                    == span.line {
                    found = j;
                }
            }
            let ghost rects_before = held_rects(rects);
            if found < current.len() {
                proof {
                    lemma_is_last_extended(rects_before, span, found as int);
                }
                let rect = current[found];
                assert(within_band(
                    view.width as int,
                    view.height as int,
                    view.band_y->0 as int,
                    merged(before)[found as int],
                ));
                replace_rect(&mut rects, found, DirtyRect { height: rect.height + 1, ..rect });
            } else {
                proof {
                    lemma_is_last_extended(rects_before, span, -1);
                }
                let _pushed = push_rect(
                    &mut rects,
                    DirtyRect { x: span.start, y: span.line, width, height: 1 },
                );
            }
            i = i + 1;
        }
        assert(spans@.take(spans@.len() as int) =~= spans@);
        rects
    }

    /// Append the upload of one rectangle.
    fn write_rectangle(
        &self,
        ops: &mut Vec<BusOp>,
        pending: bool,
        band_y: u16,
        rect: DirtyRect,
    ) -> (accepted: bool)
        requires
            self@.valid(),
        ensures
            accepted == (within_band(
                self@.width as int,
                self@.height as int,
                band_y as int,
                rect,
            ) && even(rect)),
            final(ops)@ == if accepted {
                old(ops)@ + rectangle_ops(pending, self@.width as int, band_y as int, rect)
            } else {
                old(ops)@
            },
    {
        if rect.width == 0 || rect.height == 0 || rect.x % 2 != 0 || rect.y % 2 != 0 || rect.width
            % 2 != 0 || rect.height % 2 != 0 || rect.x as u32 + rect.width as u32
            > self.width as u32 || rect.y as u32 + rect.height as u32 > self.height as u32
            || rect.y < band_y || (rect.y - band_y) as usize + rect.height as usize > TILE_LINES {
            return false;
        }
        let ghost start = ops@;
        if pending {
            ops.push(BusOp::Finish);
            ops.push(BusOp::Deselect);
        }
        assert(ops@ =~= start + wait_ops(pending));
        panel::set_address_window(ops, rect.x, rect.y, rect.width, rect.height);
        panel::write_command(ops, panel::MEMORY_WRITE_START, Payload::Nothing);
        let stride: usize = self.width as usize * BYTES_PER_PIXEL;
        let row: usize = (rect.y - band_y) as usize;
        assert(self@.width * 16 <= TILE_BUFFER_BYTES);
        assert(row * stride <= 7 * 960) by (nonlinear_arith)
            requires
                row <= 7,
                stride <= 960,
        ;
        let payload = Payload::Rows {
            begin: row * stride + rect.x as usize * BYTES_PER_PIXEL,
            row_bytes: rect.width as usize * BYTES_PER_PIXEL,
            rows: rect.height as usize,
            stride,
        };
        ops.push(BusOp::Select);
        ops.push(BusOp::Start(panel::pixels(true, payload)));
        assert(ops@ =~= start + rectangle_ops(pending, self.width as int, band_y as int, rect));
        true
    }

    /// Plan the upload of the band.
    pub fn flush_band(&self) -> (plan: FlushPlan)
        requires
            self@.valid(),
        ensures
            plan.ops@ == self@.flush_ops(),
            plan.complete == (self@.band_y is None || self@.flushes_completely()),
    {
        let mut ops: Vec<BusOp> = Vec::new();
        let band_y = match self.band_y {
            Some(band_y) => band_y,
            None => {
                return FlushPlan { ops, complete: true };
            },
        };
        let rects = self.rectangles();
        let rects = rect_slice(&rects);
        let ghost view = self@;
        proof {
            lemma_merged_within_band(
                view.width as int,
                view.height as int,
                band_y as int,
                view.spans,
            );
        }
        let mut i: usize = 0;
        while i < rects.len()
            invariant
                view == self@,
                view.valid(),
                view.band_y == Some(band_y),
                rects@ == view.rects(),
                i <= rects@.len(),
                uploadable(rects@, i as int) == i,
                ops@ == upload_ops(
                    view.pending,
                    view.width as int,
                    band_y as int,
                    rects@,
                    i as int,
                ),
                forall|k: int|
                    0 <= k < rects@.len() ==> within_band(
                        view.width as int,
                        view.height as int,
                        band_y as int,
                        #[trigger] merged(view.spans)[k],
                    ),
            decreases rects.len() - i,
        {
            let rect = rects[i];
            assert(within_band(
                view.width as int,
                view.height as int,
                band_y as int,
                merged(view.spans)[i as int],
            ));
            if !self.write_rectangle(&mut ops, self.pending || i > 0, band_y, rect) {
                proof {
                    lemma_refused_from(rects@, i as int, rects@.len() as int);
                }
                return FlushPlan { ops, complete: false };
            }
            i = i + 1;
        }
        FlushPlan { ops, complete: true }
    }

    /// Take note of how the bus fared with a planned flush: `failure` names the
    /// operation that failed, a send or a start, and what the bus reported.
    pub fn flushed(&mut self, plan: &FlushPlan, failure: Option<(usize, Error<E>)>) -> (result:
        Result<(), Error<E>>)
        requires
            old(self)@.valid(),
            plan.ops@ == old(self)@.flush_ops(),
            plan.complete == (old(self)@.band_y is None || old(self)@.flushes_completely()),
            failure matches Some(f) ==> f.0 < plan.ops@.len() && panel::can_fail(plan.ops@[f.0 as int]),
            old(self)@.transfers + starts(plan.ops@, performed(plan.ops@, failure)) <= u32::MAX,
        ensures
            final(self)@.valid(),
            result == (match failure {
                Some(f) => Err(f.1),
                None => if plan.complete {
                    Ok(())
                } else {
                    Err(Error::InvalidRegion)
                },
            }),
            final(self)@ == old(self)@.after_flush(performed(plan.ops@, failure), result is Ok),
            result == flush_result(plan.complete, failure),
    {
        let performed: usize = match &failure {
            Some(f) => f.0,
            None => plan.ops.len(),
        };
        let mut i: usize = 0;
        while i < performed
            invariant
                i <= performed <= plan.ops@.len(),
                self@ == (DisplayView::<E> {
                    transfers: (old(self)@.transfers + starts(plan.ops@, i as int)) as u32,
                    ..old(self)@
                }),
                0 <= starts(plan.ops@, i as int),
                old(self)@.transfers + starts(plan.ops@, performed as int) <= u32::MAX,
            decreases performed - i,
        {
            proof {
                lemma_starts_ascend(plan.ops@, i + 1, performed as int);
            }
            if let BusOp::Start(_) = plan.ops[i] {
                self.frame_transfers = self.frame_transfers + 1;
            }
            i = i + 1;
        }
        match failure {
            Some(f) => {
                self.pending = false;
                Err(f.1)
            },
            None => {
                if plan.ops.len() > 0 {
                    self.pending = true;
                }
                if !plan.complete {
                    return Err(Error::InvalidRegion);
                }
                self.band_y = None;
                clear_spans(&mut self.dirty_spans);
                Ok(())
            },
        }
    }

    /// Keep the first thing that spoils a frame.
    fn set_frame_error(&mut self, error: Error<E>)
        requires
            old(self)@.valid(),
        ensures
            final(self)@.valid(),
            final(self)@ == old(self)@.with_error(error),
    {
        if self.frame_error.is_none() {
            self.frame_error = Some(error);
        }
    }

    /// Decide what to do with columns `start` to `end` of a line.
    ///
    /// Once a frame is spoiled, its remaining lines are left out.
    pub fn process_line(&mut self, line: usize, start: usize, end: usize) -> (step: LineStep)
        requires
            old(self)@.valid(),
        ensures
            final(self)@.valid(),
            step == old(self)@.line_step(line as int, start as int, end as int),
            final(self)@ == old(self)@.after_line_step(line as int, start as int, end as int),
    {
        if self.frame_error.is_some() || start >= end {
            return LineStep::Skip;
        }
        if line >= self.height as usize || end > self.width as usize {
            self.set_frame_error(Error::InvalidRegion);
            return LineStep::Skip;
        }
        let band_y: usize = line / TILE_LINES * TILE_LINES;
        match self.band_y {
            Some(current) => {
                if current as usize != band_y {
                    return LineStep::Flush;
                }
            },
            None => {
                self.band_y = Some(band_y as u16);
            },
        }
        let row: usize = line - band_y;
        assert(row * self.width <= 7 * self.width) by (nonlinear_arith)
            requires
                row <= 7,
        ;
        let begin: usize = row * self.width as usize + start;
        LineStep::Render { begin, end: begin + (end - start) }
    }

    /// Take note that a line was drawn.
    pub fn line_rendered(&mut self, line: usize, start: usize, end: usize)
        requires
            old(self)@.valid(),
            old(self)@.band_y is Some,
            start < end <= old(self)@.width,
            line < old(self)@.height,
            line as int / 8 * 8 == old(self)@.band_y->0,
        ensures
            final(self)@.valid(),
            final(self)@ == if old(self)@.spans.len() < MAX_DIRTY_SPANS {
                DisplayView {
                    spans: old(self)@.spans.push(
                        DirtySpan { line: line as u16, start: start as u16, end: end as u16 },
                    ),
                    ..old(self)@
                }
            } else {
                old(self)@.with_error(Error::InvalidRegion)
            },
            final(self)@ == old(self)@.after_drawing(line as int, start as int, end as int),
    {
        let span = DirtySpan { line: line as u16, start: start as u16, end: end as u16 };
        if !push_span(&mut self.dirty_spans, span) {
            self.set_frame_error(Error::InvalidRegion);
        }
    }

    /// Take note of a flush that a line asked for, and tell what is left to do on
    /// the bus. Its failure spoils the frame.
    pub fn line_flushed(&mut self, plan: &FlushPlan, failure: Option<(usize, Error<E>)>) -> (closing:
        Vec<BusOp>)
        requires
            old(self)@.valid(),
            plan.ops@ == old(self)@.flush_ops(),
            plan.complete == (old(self)@.band_y is None || old(self)@.flushes_completely()),
            failure matches Some(f) ==> f.0 < plan.ops@.len() && panel::can_fail(plan.ops@[f.0 as int]),
            old(self)@.transfers + starts(plan.ops@, performed(plan.ops@, failure)) <= u32::MAX,
        ensures
            final(self)@.valid(),
            final(self)@ == ({
                let done = performed(plan.ops@, failure);
                match failure {
                    Some(f) => old(self)@.after_flush(done, false).with_error(f.1),
                    None => if plan.complete {
                        old(self)@.after_flush(done, true)
                    } else {
                        old(self)@.after_flush(done, false).with_error(Error::InvalidRegion)
                    },
                }
            }),
            closing@ == panel::release_ops(failure is Some),
            final(self)@ == old(self)@.after_line_flush(plan.complete, failure),
    {
        let closing = panel::release(failure.is_some());
        if let Err(error) = self.flushed(plan, failure) {
            self.set_frame_error(error);
        }
        closing
    }

    /// Plan what the end of a frame uploads: the last band, unless the frame is
    /// spoiled.
    pub fn finish_frame(&self) -> (plan: FlushPlan)
        requires
            self@.valid(),
        ensures
            self@.error is Some ==> plan.ops@.len() == 0 && plan.complete,
            self@.error is None ==> plan.ops@ == self@.flush_ops() && plan.complete == (
            self@.band_y is None || self@.flushes_completely()),
            plan.ops@ == self@.last_ops(),
    {
        if self.frame_error.is_some() {
            return FlushPlan { ops: Vec::new(), complete: true };
        }
        self.flush_band()
    }

    /// End a frame once its last band went out, or could not.
    ///
    /// The display is ready for the next frame afterwards, whatever happened.
    pub fn frame_finished(&mut self, plan: &FlushPlan, failure: Option<(usize, Error<E>)>) -> (end:
        FrameEnd<E>)
        requires
            old(self)@.valid(),
            old(self)@.error is Some ==> plan.ops@.len() == 0,
            old(self)@.error is None ==> plan.ops@ == old(self)@.flush_ops() && plan.complete == (
            old(self)@.band_y is None || old(self)@.flushes_completely()),
            failure matches Some(f) ==> f.0 < plan.ops@.len() && panel::can_fail(plan.ops@[f.0 as int]),
            old(self)@.transfers + starts(plan.ops@, performed(plan.ops@, failure)) <= u32::MAX,
        ensures
            final(self)@.valid(),
            final(self)@ == (DisplayView::<E> {
                band_y: None,
                spans: Seq::empty(),
                transfers: 0,
                error: None,
                pending: false,
                ..old(self)@
            }),
            end.closing@ == if failure is Some {
                panel::release_ops(true)
            } else {
                wait_ops(old(self)@.pending || plan.ops@.len() > 0)
            },
            end.result == match (old(self)@.error, failure) {
                (Some(error), _) => Err(error),
                (None, Some(f)) => Err(f.1),
                (None, None) => if plan.complete {
                    Ok((old(self)@.transfers + starts(plan.ops@, plan.ops@.len() as int)) as u32)
                } else {
                    Err(Error::InvalidRegion)
                },
            },
            final(self)@ == old(self)@.next_frame(),
            end.closing@ == old(self)@.frame_closing(failure is Some),
            end.result == old(self)@.frame_result(plan.complete, failure),
    {
        let mut closing = panel::release(failure.is_some());
        let result = match self.frame_error.take() {
            Some(error) => Err(error),
            None => self.flushed(plan, failure),
        };
        self.wait_pending(&mut closing);
        let transfers = self.frame_transfers;
        self.frame_transfers = 0;
        self.band_y = None;
        clear_spans(&mut self.dirty_spans);
        FrameEnd {
            closing,
            result: match result {
                Ok(()) => Ok(transfers),
                Err(error) => Err(error),
            },
        }
    }

    /// Append waiting for the transfer in the background, if there is one.
    fn wait_pending(&mut self, ops: &mut Vec<BusOp>)
        ensures
            final(self)@ == (DisplayView::<E> { pending: false, ..old(self)@ }),
            final(ops)@ == old(ops)@ + wait_ops(old(self)@.pending),
    {
        if self.pending {
            ops.push(BusOp::Finish);
            ops.push(BusOp::Deselect);
            self.pending = false;
        }
        assert(ops@ =~= old(ops)@ + wait_ops(old(self)@.pending));
    }

    /// Put waiting for the transfer in the background before commands.
    fn after_pending(&mut self, commands: Vec<BusOp>) -> (ops: Vec<BusOp>)
        ensures
            final(self)@ == (DisplayView::<E> { pending: false, ..old(self)@ }),
            ops@ == wait_ops(old(self)@.pending) + commands@,
    {
        let mut ops: Vec<BusOp> = Vec::new();
        let mut commands = commands;
        self.wait_pending(&mut ops);
        ops.append(&mut commands);
        ops
    }

    /// Reset and initialize the panel.
    pub fn init(&mut self) -> (ops: Vec<BusOp>)
        ensures
            final(self)@ == (DisplayView::<E> { pending: false, ..old(self)@ }),
            ops@ == panel::reset_ops() + (wait_ops(old(self)@.pending) + panel::configure_ops()),
            ops@ == startup_ops(old(self)@.pending),
    {
        let mut ops = panel::reset();
        let mut configuration = self.after_pending(panel::configure());
        ops.append(&mut configuration);
        ops
    }

    /// Set the brightness register.
    pub fn set_brightness(&mut self, brightness: u8) -> (ops: Vec<BusOp>)
        ensures
            final(self)@ == (DisplayView::<E> { pending: false, ..old(self)@ }),
            ops@ == wait_ops(old(self)@.pending) + panel::command_ops(
                panel::WRITE_BRIGHTNESS_NORMAL,
                Payload::Byte(brightness),
            ),
            ops@ == wait_ops(old(self)@.pending) + panel::brightness_ops(brightness),
    {
        self.after_pending(panel::set_brightness(brightness))
    }

    /// Blank the panel and enter its low-power sleep mode.
    pub fn sleep(&mut self) -> (ops: Vec<BusOp>)
        ensures
            final(self)@ == (DisplayView::<E> { pending: false, ..old(self)@ }),
            ops@ == wait_ops(old(self)@.pending) + (panel::command_ops(
                panel::DISPLAY_OFF,
                Payload::Nothing,
            ) + panel::command_ops(panel::SLEEP_IN, Payload::Nothing)),
            ops@ == wait_ops(old(self)@.pending) + panel::sleep_ops(),
    {
        self.after_pending(panel::sleep())
    }

    /// Leave low-power sleep mode.
    ///
    /// The caller must wait at least 120 ms before [`Self::display_on`].
    pub fn wake(&mut self) -> (ops: Vec<BusOp>)
        ensures
            final(self)@ == (DisplayView::<E> { pending: false, ..old(self)@ }),
            ops@ == wait_ops(old(self)@.pending) + panel::command_ops(
                panel::SLEEP_OUT,
                Payload::Nothing,
            ),
            ops@ == wait_ops(old(self)@.pending) + panel::sleep_out_ops(),
    {
        self.after_pending(panel::wake())
    }

    /// Enable panel output after the sleep-out delay has elapsed.
    pub fn display_on(&mut self) -> (ops: Vec<BusOp>)
        ensures
            final(self)@ == (DisplayView::<E> { pending: false, ..old(self)@ }),
            ops@ == wait_ops(old(self)@.pending) + panel::command_ops(
                panel::DISPLAY_ON,
                Payload::Nothing,
            ),
            ops@ == wait_ops(old(self)@.pending) + panel::display_on_ops(),
    {
        self.after_pending(panel::display_on())
    }
}

/// Starting the panel up.
pub open spec fn startup_ops(pending: bool) -> Seq<BusOp> {
    panel::reset_ops() + (wait_ops(pending) + panel::configure_ops())
}

/// A byte of the transmit buffer once rows were laid into it.
pub open spec fn staged(
    render: Seq<u8>,
    begin: int,
    row_bytes: int,
    stride: int,
    index: int,
) -> u8 {
    render[begin + index / row_bytes * stride + index % row_bytes]
}

/// Lay the rows of a rectangle one after another into the transmit buffer, and
/// tell how many bytes that is.
pub fn stage_rows(
    render: &[u8],
    begin: usize,
    row_bytes: usize,
    rows: usize,
    stride: usize,
    transmit: &mut [u8],
) -> (length: usize)
    requires
        rows * row_bytes <= old(transmit)@.len(),
        rows >= 1 ==> begin + (rows - 1) * stride + row_bytes <= render@.len(),
    ensures
        length == rows * row_bytes,
        final(transmit)@.len() == old(transmit)@.len(),
        forall|row: int, byte: int|
            #![trigger final(transmit)@[row * row_bytes + byte]]
            0 <= row < rows && 0 <= byte < row_bytes ==> final(transmit)@[row * row_bytes + byte]
                == render@[begin + row * stride + byte],
        forall|i: int|
            rows * row_bytes <= i < old(transmit)@.len() ==> #[trigger] final(transmit)@[i] == old(
                transmit,
            )@[i],
        forall|i: int|
            0 <= i < rows * row_bytes ==> #[trigger] final(transmit)@[i] == staged(
                render@,
                begin as int,
                row_bytes as int,
                stride as int,
                i,
            ),
{
    let available: usize = render.len();
    let capacity: usize = transmit.len();
    let mut row: usize = 0;
    let mut target: usize = 0;
    let mut source: usize = begin;
    while row < rows
        invariant
            available == render@.len(),
            capacity == transmit@.len(),
            row <= rows,
            target == row * row_bytes,
            row < rows ==> source == begin + row * stride,
            rows * row_bytes <= transmit@.len(),
            transmit@.len() == old(transmit)@.len(),
            rows >= 1 ==> begin + (rows - 1) * stride + row_bytes <= render@.len(),
            forall|r: int, byte: int|
                #![trigger transmit@[r * row_bytes + byte]]
                0 <= r < row && 0 <= byte < row_bytes ==> transmit@[r * row_bytes + byte]
                    == render@[begin + r * stride + byte],
            forall|i: int| target <= i < transmit@.len() ==> #[trigger] transmit@[i] == old(
                transmit,
            )@[i],
        decreases rows - row,
    {
        proof {
            assert((row + 1) * row_bytes <= rows * row_bytes) by (nonlinear_arith)
                requires
                    row + 1 <= rows,
            ;
            assert((row + 1) * row_bytes == row * row_bytes + row_bytes) by (nonlinear_arith);
            assert(row * stride <= (rows - 1) * stride) by (nonlinear_arith)
                requires
                    row <= rows - 1,
            ;
        }
        let mut byte: usize = 0;
        let ghost before = transmit@;
        while byte < row_bytes
            invariant
                available == render@.len(),
                capacity == transmit@.len(),
                byte <= row_bytes,
                target + row_bytes <= transmit@.len(),
                transmit@.len() == before.len(),
                source + row_bytes <= render@.len(),
                forall|i: int| 0 <= i < target ==> #[trigger] transmit@[i] == before[i],
                forall|i: int|
                    target <= i < target + byte ==> #[trigger] transmit@[i] == render@[source + i
                        - target],
                forall|i: int|
                    target + byte <= i < transmit@.len() ==> #[trigger] transmit@[i] == before[i],
            decreases row_bytes - byte,
        {
            transmit[target + byte] = render[source + byte];
            byte = byte + 1;
        }
        proof {
            assert forall|r: int, byte: int|
                #![trigger transmit@[r * row_bytes + byte]]
                0 <= r < row + 1 && 0 <= byte < row_bytes implies transmit@[r * row_bytes + byte]
                == render@[begin + r * stride + byte] by {
                if r < row {
                    assert(r * row_bytes + byte < row * row_bytes) by (nonlinear_arith)
                        requires
                            r + 1 <= row,
                            0 <= byte < row_bytes,
                    ;
                    assert(0 <= r * row_bytes) by (nonlinear_arith)
                        requires
                            0 <= r,
                    ;
                    assert(before[r * row_bytes + byte] == render@[begin + r * stride + byte]);
                }
            }
            if row + 1 < rows {
                assert((row + 1) * stride <= (rows - 1) * stride) by (nonlinear_arith)
                    requires
                        row + 1 <= rows - 1,
                ;
            }
            assert((row + 1) * stride == row * stride + stride) by (nonlinear_arith);
        }
        row = row + 1;
        target = target + row_bytes;
        if row < rows {
            source = source + stride;
        }
    }
    proof {
        let width = row_bytes as int;
        assert forall|i: int| 0 <= i < rows * row_bytes implies #[trigger] transmit@[i] == staged(
            render@,
            begin as int,
            width,
            stride as int,
            i,
        ) by {
            assert(0 < width) by (nonlinear_arith)
                requires
                    0 <= i < rows * width,
                    0 <= width,
            ;
            vstd::arithmetic::div_mod::lemma_fundamental_div_mod(i, width);
            vstd::arithmetic::div_mod::lemma_mod_bound(i, width);
            let r = i / width;
            assert(0 <= r < rows) by (nonlinear_arith)
                requires
                    0 <= i < rows * width,
                    i == width * r + i % width,
                    0 <= i % width < width,
            ;
            assert(width * r == r * width) by (nonlinear_arith);
            assert(transmit@[r * row_bytes + i % width] == render@[begin + r * stride + i % width]);
        }
    }
    target
}

/// The bus while a display is between calls.
pub open spec fn bus_of(pending: bool) -> panel::Bus {
    if pending {
        panel::Bus::pending()
    } else {
        panel::Bus::idle()
    }
}

proof fn lemma_rectangle_keeps_the_bus_in_order(
    pending: bool,
    width: int,
    band_y: int,
    rect: DirtyRect,
)
    ensures
        bus_of(pending).allows_all(rectangle_ops(pending, width, band_y, rect)),
        bus_of(pending).after_all(rectangle_ops(pending, width, band_y, rect))
            == panel::Bus::pending(),
{
    let bus = bus_of(pending);
    let idle = panel::Bus::idle();
    let wait = wait_ops(pending);
    let columns = panel::command_ops(
        panel::SET_COLUMN_ADDRESS,
        Payload::Bounds { first: rect.x, last: (rect.x + rect.width - 1) as u16 },
    );
    let pages = panel::command_ops(
        panel::SET_PAGE_ADDRESS,
        Payload::Bounds { first: rect.y, last: (rect.y + rect.height - 1) as u16 },
    );
    let write = panel::command_ops(panel::MEMORY_WRITE_START, Payload::Nothing);
    let start = seq![
        BusOp::Select,
        BusOp::Start(panel::pixel_transfer(true, rows_of(width, band_y, rect))),
    ];
    reveal_with_fuel(panel::Bus::after_all, 3);
    reveal_with_fuel(panel::Bus::allows_all, 3);
    assert(bus.allows_all(wait) && bus.after_all(wait) == idle) by {
        if pending {
            assert(wait.drop_last() =~= seq![BusOp::Finish]);
            assert(seq![BusOp::Finish].drop_last() =~= Seq::<BusOp>::empty());
        }
    }
    assert(idle.allows_all(start) && idle.after_all(start) == panel::Bus::pending()) by {
        assert(start.drop_last() =~= seq![BusOp::Select]);
        assert(seq![BusOp::Select].drop_last() =~= Seq::<BusOp>::empty());
    }
    panel::lemma_command_keeps_the_bus_idle(
        panel::SET_COLUMN_ADDRESS,
        Payload::Bounds { first: rect.x, last: (rect.x + rect.width - 1) as u16 },
    );
    panel::lemma_command_keeps_the_bus_idle(
        panel::SET_PAGE_ADDRESS,
        Payload::Bounds { first: rect.y, last: (rect.y + rect.height - 1) as u16 },
    );
    panel::lemma_command_keeps_the_bus_idle(panel::MEMORY_WRITE_START, Payload::Nothing);
    idle.lemma_joined(columns, pages);
    bus.lemma_joined(wait, columns + pages);
    bus.lemma_joined(wait + (columns + pages), write);
    bus.lemma_joined(wait + (columns + pages) + write, start);
}

proof fn lemma_upload_keeps_the_bus_in_order(
    pending: bool,
    width: int,
    band_y: int,
    rects: Seq<DirtyRect>,
    count: int,
)
    requires
        0 <= count,
    ensures
        bus_of(pending).allows_all(upload_ops(pending, width, band_y, rects, count)),
        bus_of(pending).after_all(upload_ops(pending, width, band_y, rects, count)) == bus_of(
            pending || count > 0,
        ),
    decreases count,
{
    if count > 0 {
        let earlier = upload_ops(pending, width, band_y, rects, count - 1);
        let last = rectangle_ops(pending || count > 1, width, band_y, rects[count - 1]);
        lemma_upload_keeps_the_bus_in_order(pending, width, band_y, rects, count - 1);
        lemma_rectangle_keeps_the_bus_in_order(
            pending || count > 1,
            width,
            band_y,
            rects[count - 1],
        );
        bus_of(pending).lemma_joined(earlier, last);
    }
}

/// Transfers never overlap: flushing waits for the transfer in the background
/// before it touches the bus again, writes only while the panel is selected,
/// and leaves a transfer in the background only with the panel selected.
pub proof fn law_transfers_never_overlap<E>(view: DisplayView<E>)
    ensures
        bus_of(view.pending).allows_all(view.flush_ops()),
        bus_of(view.pending).after_all(view.flush_ops()) == bus_of(
            view.pending || view.flush_ops().len() > 0,
        ),
{
    match view.band_y {
        Some(band_y) => {
            lemma_uploadable_bounds(view.rects(), view.rects().len() as int);
            lemma_upload_keeps_the_bus_in_order(
                view.pending,
                view.width as int,
                band_y as int,
                view.rects(),
                view.accepted(),
            );
        },
        None => {},
    }
}

/// A flush that fails leaves the panel released and no transfer in the
/// background, which is what the display takes note of.
pub proof fn law_failed_flushes_release_the_panel<E>(view: DisplayView<E>, failed: int)
    requires
        0 <= failed < view.flush_ops().len(),
        panel::can_fail(view.flush_ops()[failed]),
    ensures
        ({
            let ended = view.flush_ops().take(failed) + panel::release_ops(true);
            &&& bus_of(view.pending).allows_all(ended)
            &&& bus_of(view.pending).after_all(ended) == panel::Bus::idle()
            &&& bus_of(view.after_flush(failed, false).pending) == panel::Bus::idle()
        }),
{
    law_transfers_never_overlap(view);
    panel::law_failed_writes_release_the_panel(bus_of(view.pending), view.flush_ops(), failed);
}

pub(crate) proof fn lemma_uploadable_bounds(rects: Seq<DirtyRect>, among: int)
    requires
        0 <= among,
    ensures
        0 <= uploadable(rects, among) <= among,
    decreases among,
{
    if among > 0 {
        lemma_uploadable_bounds(rects, among - 1);
    }
}

proof fn lemma_starts_joined(head: Seq<BusOp>, tail: Seq<BusOp>, among: int)
    requires
        0 <= among <= tail.len(),
    ensures
        starts(head + tail, head.len() + among) == starts(head, head.len() as int) + starts(
            tail,
            among,
        ),
    decreases among,
{
    if among == 0 {
        lemma_starts_agree(head, head + tail, head.len() as int);
    } else {
        lemma_starts_joined(head, tail, among - 1);
    }
}

proof fn lemma_starts_agree(a: Seq<BusOp>, b: Seq<BusOp>, among: int)
    requires
        among <= a.len(),
        among <= b.len(),
        forall|i: int| 0 <= i < among ==> #[trigger] a[i] == b[i],
    ensures
        starts(a, among) == starts(b, among),
    decreases among,
{
    if among > 0 {
        lemma_starts_agree(a, b, among - 1);
    }
}

proof fn lemma_upload_starts(
    pending: bool,
    width: int,
    band_y: int,
    rects: Seq<DirtyRect>,
    count: int,
)
    requires
        0 <= count,
    ensures
        ({
            let ops = upload_ops(pending, width, band_y, rects, count);
            starts(ops, ops.len() as int) == count
        }),
    decreases count,
{
    if count > 0 {
        let earlier = upload_ops(pending, width, band_y, rects, count - 1);
        let last = rectangle_ops(pending || count > 1, width, band_y, rects[count - 1]);
        lemma_upload_starts(pending, width, band_y, rects, count - 1);
        lemma_starts_joined(earlier, last, last.len() as int);
        lemma_rectangle_starts(pending || count > 1, width, band_y, rects[count - 1]);
    }
}

proof fn lemma_rectangle_starts(pending: bool, width: int, band_y: int, rect: DirtyRect)
    ensures
        ({
            let ops = rectangle_ops(pending, width, band_y, rect);
            starts(ops, ops.len() as int) == 1
        }),
{
    let wait = wait_ops(pending);
    let window = panel::window_ops(rect.x, rect.y, rect.width, rect.height);
    let write = panel::command_ops(panel::MEMORY_WRITE_START, Payload::Nothing);
    let start = seq![
        BusOp::Select,
        BusOp::Start(panel::pixel_transfer(true, rows_of(width, band_y, rect))),
    ];
    lemma_starts_joined(wait + window + write, start, 2);
    lemma_starts_joined(wait + window, write, 3);
    lemma_starts_joined(wait, window, 6);
    reveal_with_fuel(starts, 7);
    assert(starts(wait, wait.len() as int) == 0);
    assert(starts(window, 6) == 0);
    assert(starts(write, 3) == 0);
    assert(starts(start, 2) == 1);
}

/// A complete flush begins one transfer for each rectangle of the band.
pub proof fn law_one_transfer_per_rectangle<E>(view: DisplayView<E>)
    requires
        view.band_y is Some,
        view.flushes_completely(),
    ensures
        starts(view.flush_ops(), view.flush_ops().len() as int) == view.rects().len(),
{
    lemma_upload_starts(
        view.pending,
        view.width as int,
        view.band_y->0 as int,
        view.rects(),
        view.accepted(),
    );
}

/// The rows of a rectangle lie within the render buffer of its display and fit
/// the transmit buffer.
pub proof fn law_rows_stay_within_the_buffers<E>(
    view: DisplayView<E>,
    band_y: int,
    rect: DirtyRect,
)
    requires
        view.valid(),
        within_band(view.width as int, view.height as int, band_y, rect),
    ensures
        rows_of(view.width as int, band_y, rect) matches Payload::Rows {
            begin,
            row_bytes,
            rows,
            stride,
        } && begin + (rows - 1) * stride + row_bytes <= view.capacity && rows * row_bytes
            <= TILE_BUFFER_BYTES,
{
    let width = view.width as int;
    let row = rect.y - band_y;
    let rows = rect.height as int;
    assert(row * (width * 2) + (rows - 1) * (width * 2) <= 7 * (width * 2)) by (nonlinear_arith)
        requires
            0 <= row,
            1 <= rows,
            row + rows <= 8,
            0 <= width,
    ;
    assert(0 <= row * (width * 2)) by (nonlinear_arith)
        requires
            0 <= row,
            0 <= width,
    ;
    assert(0 <= (rows - 1) * (width * 2)) by (nonlinear_arith)
        requires
            1 <= rows,
            0 <= width,
    ;
    assert(rows * (rect.width * 2) <= 8 * (width * 2)) by (nonlinear_arith)
        requires
            1 <= rows <= 8,
            0 <= rect.width <= width,
    ;
}

/// What was drawn for a pixel is what is sent for it: the bytes staged for a
/// pixel of a rectangle are those at the place where the line was drawn.
pub proof fn law_drawn_pixels_are_sent<E>(
    view: DisplayView<E>,
    rect: DirtyRect,
    line: int,
    start: int,
    end: int,
    column: int,
    byte: int,
)
    requires
        view.valid(),
        view.line_step(line, start, end) is Render,
        0 <= line,
        0 <= start <= column < end,
        0 <= byte < 2,
        within_band(view.width as int, view.height as int, line / 8 * 8, rect),
        in_rect(rect, column, line),
    ensures
        view.line_step(line, start, end) matches LineStep::Render { begin: drawn, .. } && rows_of(
            view.width as int,
            line / 8 * 8,
            rect,
        ) matches Payload::Rows { begin, stride, .. } && begin + (line - rect.y) * stride + ((column
            - rect.x) * 2 + byte) == 2 * (drawn + (column - start)) + byte,
{
    let width = view.width as int;
    let band_y = line / 8 * 8;
    assert((rect.y - band_y) * (width * 2) + (line - rect.y) * (width * 2) == 2 * ((line % 8)
        * width)) by (nonlinear_arith)
        requires
            line - band_y == line % 8,
    ;
    assert(0 <= (line % 8) * width <= 7 * width) by (nonlinear_arith)
        requires
            0 <= line % 8 <= 7,
            0 <= width,
    ;
    assert(0 <= (rect.y - band_y) * (width * 2) <= 7 * (width * 2)) by (nonlinear_arith)
        requires
            0 <= rect.y - band_y <= 7,
            0 <= width,
    ;
}

/// Once something spoils a frame it stays: what follows cannot replace it, and
/// the rest of the frame is left out without a change.
pub proof fn law_first_error_stays<E>(
    view: DisplayView<E>,
    later: Error<E>,
    line: int,
    start: int,
    end: int,
)
    requires
        view.error is Some,
    ensures
        view.with_error(later) == view,
        view.line_step(line, start, end) is Skip,
        view.after_line_step(line, start, end) == view,
{
}

} // verus!
