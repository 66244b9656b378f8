//! What the panel shows once a band was uploaded.

use crate::co5300::{
    even, extends, in_rect, in_span, law_rectangles_cover_the_spans, lemma_merged_within_band,
    lemma_uploadable_bounds, merged, rectangle_ops, rows_of, staged, upload_ops, uploadable,
    wait_ops, within_band, DirtyRect, DirtySpan, DisplayView, Error, LineStep, TILE_BUFFER_BYTES,
};
use crate::controller;
use crate::controller::Controller;
use crate::panel;
use crate::panel::{BusOp, Payload};
use vstd::prelude::*;

verus! {

/// What a drawn line makes dirty are its own columns and no others; a band that
/// is full already spoils the frame instead.
pub proof fn law_drawn_lines_are_dirty<E>(
    view: DisplayView<E>,
    line: int,
    start: int,
    end: int,
    x: int,
    y: int,
)
    requires
        view.valid(),
        0 <= line < view.height,
        0 <= start < end <= view.width,
        view.error is None,
    ensures
        ({
            let after = view.after_drawing(line, start, end);
            &&& after.error is None ==> (after.is_dirty(x, y) <==> view.is_dirty(x, y) || (y == line
                && start <= x < end))
            &&& after.error is Some <==> view.spans.len() >= 32
            &&& after.error is Some ==> after.error == Some(Error::<E>::InvalidRegion)
                && after.spans == view.spans
        }),
{
    let after = view.after_drawing(line, start, end);
    if after.error is None {
        let count = view.spans.len() as int;
        assert(in_span(after.spans[count], x, y) <==> (y == line && start <= x < end));
        assert forall|i: int| 0 <= i < count implies #[trigger] after.spans[i] == view.spans[i] by {}
        if view.is_dirty(x, y) {
            let i = choose|i: int| 0 <= i < count && in_span(#[trigger] view.spans[i], x, y);
            assert(in_span(after.spans[i], x, y));
        }
        if after.is_dirty(x, y) {
            let i = choose|i: int|
                0 <= i < after.spans.len() && in_span(#[trigger] after.spans[i], x, y);
            if i < count {
                assert(in_span(view.spans[i], x, y));
            }
        }
    }
}

/// The place of a pixel's first byte in the render buffer of its band.
pub open spec fn buffered_at(width: int, band_y: int, x: int, y: int) -> int {
    2 * ((y - band_y) * width + x)
}

/// A pixel is drawn at its own place of the render buffer, whichever columns of
/// its line are drawn with it.
pub proof fn law_pixels_are_drawn_at_their_place<E>(
    view: DisplayView<E>,
    line: int,
    start: int,
    end: int,
    x: int,
)
    requires
        view.valid(),
        view.line_step(line, start, end) is Render,
        0 <= line,
        0 <= start <= x < end,
    ensures
        view.line_step(line, start, end) matches LineStep::Render { begin, end: after } && 2 * (begin
            + (x - start)) == buffered_at(view.width as int, line / 8 * 8, x, line) && after - begin
            == end - start && 2 * after <= view.capacity,
        view.after_line_step(line, start, end).band_y matches Some(band_y) && band_y == line / 8 * 8,
{
    let width = view.width as int;
    assert(0 <= (line % 8) * width <= 7 * width) by (nonlinear_arith)
        requires
            0 <= line % 8 <= 7,
            0 <= width,
    ;
    assert(line - line / 8 * 8 == line % 8);
}

/// Different pixels of a band are drawn at different places.
pub proof fn law_places_are_distinct(width: int, band_y: int, a: (int, int), b: (int, int))
    requires
        0 <= a.0 < width,
        0 <= b.0 < width,
        a != b,
    ensures
        buffered_at(width, band_y, a.0, a.1) != buffered_at(width, band_y, b.0, b.1),
{
    if a.1 < b.1 {
        assert((a.1 - band_y) * width + width <= (b.1 - band_y) * width) by (nonlinear_arith)
            requires
                a.1 + 1 <= b.1,
                0 < width,
        ;
    } else if b.1 < a.1 {
        assert((b.1 - band_y) * width + width <= (a.1 - band_y) * width) by (nonlinear_arith)
            requires
                b.1 + 1 <= a.1,
                0 < width,
        ;
    }
}

/// Uploading a rectangle shows each of its pixels at its place on the panel,
/// from its place in the render buffer, and changes nothing else.
proof fn lemma_rectangle_is_shown(
    controller: Controller,
    pending: bool,
    width: int,
    height: int,
    band_y: int,
    rect: DirtyRect,
    x: int,
    y: int,
)
    requires
        width <= u16::MAX,
        height <= u16::MAX,
        width * 16 <= TILE_BUFFER_BYTES,
        0 <= band_y,
        within_band(width, height, band_y, rect),
    ensures
        ({
            let shown = controller.after_all(rectangle_ops(pending, width, band_y, rect)).memory;
            if in_rect(rect, x, y) {
                shown.contains_pair((x, y), buffered_at(width, band_y, x, y))
            } else {
                controller::same_at(controller.memory, shown, x, y)
            }
        }),
{
    let wait = wait_ops(pending);
    let window = panel::window_ops(rect.x, rect.y, rect.width, rect.height);
    let write = panel::command_ops(panel::MEMORY_WRITE_START, Payload::Nothing);
    let payload = rows_of(width, band_y, rect);
    let pixels = BusOp::Start(panel::pixel_transfer(true, payload));
    let start = seq![BusOp::Select, pixels];
    controller.lemma_joined(wait + window + write, start);
    controller.lemma_joined(wait + window, write);
    controller.lemma_joined(wait, window);
    reveal_with_fuel(Controller::after_all, 3);
    assert(controller.after_all(wait) == controller) by {
        if pending {
            assert(wait.drop_last() =~= seq![BusOp::Finish]);
            assert(seq![BusOp::Finish].drop_last() =~= Seq::<BusOp>::empty());
        }
    }
    controller::law_windows_are_the_rectangle(
        controller,
        rect.x,
        rect.y,
        rect.width,
        rect.height,
    );
    let windowed = controller.after_all(window);
    controller::lemma_write_starts(windowed);
    let ready = windowed.after_all(write);
    assert(start.drop_last() =~= seq![BusOp::Select]);
    assert(seq![BusOp::Select].drop_last() =~= Seq::<BusOp>::empty());
    controller::lemma_pixel_transfer(ready, true, payload);
    let row_bytes = rect.width * 2;
    let rows = rect.height as int;
    let first = rect.y - band_y;
    assert(0 <= first * (width * 2) <= 7 * (width * 2)) by (nonlinear_arith)
        requires
            0 <= first <= 7,
            0 <= width,
    ;
    assert(rows * row_bytes / 2 == rows * rect.width && 0 <= rows * rect.width) by (nonlinear_arith)
        requires
            row_bytes == rect.width * 2,
            0 <= rows,
            0 <= rect.width,
    ;
    assert(controller::pixels_in(payload) == rows * rect.width);
    ready.lemma_pixels(payload, rows * rect.width, x, y);
    let number = (y - rect.y) * rect.width + (x - rect.x);
    if in_rect(rect, x, y) {
        assert(0 <= number < rows * rect.width) by (nonlinear_arith)
            requires
                number == (y - rect.y) * rect.width + (x - rect.x),
                0 <= y - rect.y < rows,
                0 <= x - rect.x < rect.width,
        ;
        assert(2 * number == (y - rect.y) * row_bytes + 2 * (x - rect.x)) by (nonlinear_arith)
            requires
                number == (y - rect.y) * rect.width + (x - rect.x),
                row_bytes == rect.width * 2,
        ;
        vstd::arithmetic::div_mod::lemma_fundamental_div_mod_converse(
            2 * number,
            row_bytes,
            y - rect.y,
            2 * (x - rect.x),
        );
        assert(first * (width * 2) + rect.x * 2 + (y - rect.y) * (width * 2) + 2 * (x - rect.x)
            == 2 * ((y - band_y) * width + x)) by (nonlinear_arith)
            requires
                first == rect.y - band_y,
        ;
    } else if rect.x <= x < rect.x + rect.width {
        assert(!(0 <= number < rows * rect.width)) by (nonlinear_arith)
            requires
                number == (y - rect.y) * rect.width + (x - rect.x),
                0 <= x - rect.x < rect.width,
                y - rect.y < 0 || y - rect.y >= rows,
                0 <= rows,
        ;
    }
}

proof fn lemma_upload_is_shown(
    controller: Controller,
    pending: bool,
    width: int,
    height: int,
    band_y: int,
    rects: Seq<DirtyRect>,
    count: int,
    x: int,
    y: int,
)
    requires
        width <= u16::MAX,
        height <= u16::MAX,
        width * 16 <= TILE_BUFFER_BYTES,
        0 <= band_y,
        0 <= count <= rects.len(),
        forall|i: int|
            0 <= i < count ==> within_band(width, height, band_y, #[trigger] rects[i]),
    ensures
        ({
            let shown = controller.after_all(
                upload_ops(pending, width, band_y, rects, count),
            ).memory;
            if exists|i: int| 0 <= i < count && in_rect(#[trigger] rects[i], x, y) {
                shown.contains_pair((x, y), buffered_at(width, band_y, x, y))
            } else {
                controller::same_at(controller.memory, shown, x, y)
            }
        }),
    decreases count,
{
    if count > 0 {
        let earlier = upload_ops(pending, width, band_y, rects, count - 1);
        let last = rectangle_ops(pending || count > 1, width, band_y, rects[count - 1]);
        lemma_upload_is_shown(
            controller,
            pending,
            width,
            height,
            band_y,
            rects,
            count - 1,
            x,
            y,
        );
        controller.lemma_joined(earlier, last);
        lemma_rectangle_is_shown(
            controller.after_all(earlier),
            pending || count > 1,
            width,
            height,
            band_y,
            rects[count - 1],
            x,
            y,
        );
        if exists|i: int| 0 <= i < count - 1 && in_rect(#[trigger] rects[i], x, y) {
            let i = choose|i: int| 0 <= i < count - 1 && in_rect(#[trigger] rects[i], x, y);
            assert(0 <= i < count && in_rect(rects[i], x, y));
        }
    }
}

/// What is drawn is shown: flushing a band shows every pixel that was drawn in
/// it at its own column and row of the panel, from the place of the render
/// buffer where it was drawn, and changes no other place. Where the controller
/// would refuse a rectangle the flush ends there, and still changes no place
/// that was not drawn.
pub proof fn law_drawn_pixels_are_shown<E>(
    view: DisplayView<E>,
    controller: Controller,
    x: int,
    y: int,
)
    requires
        view.valid(),
    ensures
        ({
            let shown = controller.after_all(view.flush_ops()).memory;
            &&& !view.is_dirty(x, y) ==> controller::same_at(controller.memory, shown, x, y)
            &&& view.is_dirty(x, y) && view.flushes_completely() ==> shown.contains_pair(
                (x, y),
                buffered_at(view.width as int, view.band_y->0 as int, x, y),
            )
            &&& view.is_dirty(x, y) ==> controller::same_at(controller.memory, shown, x, y)
                || shown.contains_pair(
                (x, y),
                buffered_at(view.width as int, view.band_y->0 as int, x, y),
            )
        }),
{
    match view.band_y {
        Some(band_y) => {
            let width = view.width as int;
            let height = view.height as int;
            let rects = view.rects();
            lemma_uploadable_bounds(rects, rects.len() as int);
            lemma_merged_within_band(width, height, band_y as int, view.spans);
            law_rectangles_cover_the_spans(width, height, band_y as int, view.spans, x, y);
            lemma_upload_is_shown(
                controller,
                view.pending,
                width,
                height,
                band_y as int,
                rects,
                view.accepted(),
                x,
                y,
            );
            if exists|i: int| 0 <= i < view.accepted() && in_rect(#[trigger] rects[i], x, y) {
                let i = choose|i: int|
                    0 <= i < view.accepted() && in_rect(#[trigger] rects[i], x, y);
                assert(0 <= i < merged(view.spans).len() && in_rect(merged(view.spans)[i], x, y));
                assert(view.is_dirty(x, y));
            } else if view.is_dirty(x, y) && view.flushes_completely() {
                let i = choose|i: int|
                    0 <= i < merged(view.spans).len() && in_rect(
                        #[trigger] merged(view.spans)[i],
                        x,
                        y,
                    );
                assert(in_rect(rects[i], x, y));
            }
        },
        None => {},
    }
}

/// A band that is drawn at even places in even sizes is uploaded whole: the
/// flush is refused only where a joined rectangle is not even.
pub proof fn law_even_bands_are_uploaded<E>(view: DisplayView<E>)
    requires
        view.valid(),
    ensures
        view.flushes_completely() <==> forall|i: int|
            0 <= i < view.rects().len() ==> (#[trigger] view.rects()[i]).x % 2 == 0
                && view.rects()[i].y % 2 == 0 && view.rects()[i].width % 2 == 0
                && view.rects()[i].height % 2 == 0,
{
    lemma_uploadable_all(view.rects(), view.rects().len() as int);
}

proof fn lemma_uploadable_all(rects: Seq<DirtyRect>, among: int)
    requires
        0 <= among <= rects.len(),
    ensures
        uploadable(rects, among) == among <==> forall|i: int|
            0 <= i < among ==> even(#[trigger] rects[i]),
    decreases among,
{
    if among > 0 {
        lemma_uploadable_bounds(rects, among - 1);
        lemma_uploadable_all(rects, among - 1);
    }
}

/// Lines that touch join: columns drawn on consecutive lines make one rectangle
/// of as many lines.
pub proof fn law_touching_lines_join(spans: Seq<DirtySpan>)
    requires
        0 < spans.len() <= u16::MAX,
        spans[0].start <= spans[0].end,
        spans[0].line + spans.len() <= u16::MAX,
        forall|i: int|
            0 <= i < spans.len() ==> (#[trigger] spans[i]).start == spans[0].start && spans[i].end
                == spans[0].end && spans[i].line == spans[0].line + i,
    ensures
        merged(spans) == seq![
            DirtyRect {
                x: spans[0].start,
                y: spans[0].line,
                width: (spans[0].end - spans[0].start) as u16,
                height: spans.len() as u16,
            },
        ],
    decreases spans.len(),
{
    let before = spans.drop_last();
    assert(spans.last() == spans[spans.len() - 1]);
    if spans.len() == 1 {
        assert(merged(before) =~= Seq::<DirtyRect>::empty());
        assert(merged(spans) =~= seq![
            DirtyRect {
                x: spans[0].start,
                y: spans[0].line,
                width: (spans[0].end - spans[0].start) as u16,
                height: 1,
            },
        ]);
    } else {
        assert forall|i: int| 0 <= i < before.len() implies (#[trigger] before[i]).start
            == before[0].start && before[i].end == before[0].end && before[i].line
            == before[0].line + i by {
            assert(before[i] == spans[i]);
        }
        law_touching_lines_join(before);
        let rects = merged(before);
        assert(extends(rects.last(), spans.last()));
        assert(merged(spans) =~= seq![
            DirtyRect {
                x: spans[0].start,
                y: spans[0].line,
                width: (spans[0].end - spans[0].start) as u16,
                height: spans.len() as u16,
            },
        ]);
    }
}

/// The bytes laid out for a rectangle are those that its transfer is said to
/// carry: each pixel's two bytes, in order.
pub proof fn law_staged_bytes_are_the_pixels(
    render: Seq<u8>,
    begin: usize,
    row_bytes: usize,
    rows: usize,
    stride: usize,
    number: int,
)
    requires
        row_bytes % 2 == 0,
        0 < row_bytes,
        0 <= number < rows * row_bytes / 2,
    ensures
        ({
            let at = controller::source_of(
                Payload::Rows { begin, row_bytes, rows, stride },
                number,
            );
            &&& staged(render, begin as int, row_bytes as int, stride as int, 2 * number)
                == render[at]
            &&& staged(render, begin as int, row_bytes as int, stride as int, 2 * number + 1)
                == render[at + 1]
        }),
{
    let width = row_bytes as int;
    let row = (2 * number) / width;
    let byte = (2 * number) % width;
    vstd::arithmetic::div_mod::lemma_fundamental_div_mod(2 * number, width);
    vstd::arithmetic::div_mod::lemma_mod_bound(2 * number, width);
    let half = width / 2;
    assert(width * row == 2 * (half * row)) by (nonlinear_arith)
        requires
            width == 2 * half,
    ;
    assert(width * row == row * width) by (nonlinear_arith);
    vstd::arithmetic::div_mod::lemma_fundamental_div_mod_converse(
        2 * number + 1,
        width,
        row,
        byte + 1,
    );
}

} // verus!
