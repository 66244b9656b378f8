//! What becomes of frames: which lines are taken, and what ends them.

use crate::co5300;
use crate::co5300::{DisplayView, Error};
use crate::panel;
use vstd::prelude::*;

verus! {

/// A display needs room for eight lines of two bytes a pixel in either of its
/// buffers, and in one transfer of 7680 bytes.
pub proof fn law_displays_need_room(render_capacity: int, transmit_capacity: int, width: int)
    ensures
        co5300::has_room(render_capacity, transmit_capacity, width) <==> {
            &&& 16 * width <= 7680
            &&& 16 * width <= render_capacity
            &&& 16 * width <= transmit_capacity
        },
{
    assert(co5300::TILE_LINES * co5300::BYTES_PER_PIXEL == 16);
    assert(width * (co5300::TILE_LINES * co5300::BYTES_PER_PIXEL) == 16 * width)
        by (nonlinear_arith)
        requires
            co5300::TILE_LINES * co5300::BYTES_PER_PIXEL == 16,
    ;
}

/// Every line on the panel is taken, as long as nothing spoiled its frame: it is
/// drawn where the band of its eight lines is open or none is, and the open band
/// goes out first where that is another one. What is empty is left out, and what
/// lies outside the panel spoils the frame.
pub proof fn law_lines_are_taken<E>(view: DisplayView<E>, line: int, start: int, end: int)
    requires
        view.valid(),
        view.error is None,
        0 <= line,
        0 <= start,
    ensures
        ({
            let step = view.line_step(line, start, end);
            let after = view.after_line_step(line, start, end);
            let inside = start < end <= view.width && line < view.height;
            &&& start >= end ==> step is Skip && after == view
            &&& start < end && !inside ==> step is Skip && after.error == Some(
                Error::<E>::InvalidRegion,
            )
            &&& inside && (view.band_y is None || view.band_y->0 <= line < view.band_y->0 + 8)
                ==> {
                &&& step is Render
                &&& after.band_y is Some
                &&& after.band_y->0 <= line < after.band_y->0 + 8
            }
            &&& inside && step is Flush ==> view.band_y is Some && !(view.band_y->0 <= line
                < view.band_y->0 + 8) && after == view
            &&& inside ==> !(step is Skip) && after.error is None
        }),
{
}

/// A flush succeeds only whole: no write failed, and every rectangle went out.
/// What the bus reported is what is told.
pub proof fn law_flushes_succeed_whole<E>(complete: bool, failure: Option<(usize, Error<E>)>)
    ensures
        co5300::flush_result(complete, failure) is Ok <==> complete && failure is None,
        failure matches Some(f) ==> co5300::flush_result(complete, failure) == Err::<(), Error<E>>(
            f.1,
        ),
        !complete && failure is None ==> co5300::flush_result(complete, failure) == Err::<
            (),
            Error<E>,
        >(Error::InvalidRegion),
{
}

/// A line's flush that succeeds closes the band, with nothing left to upload. One
/// that fails keeps what was to be uploaded and spoils the frame, with its own
/// error unless there was one already. Either way the transfers that were begun
/// count.
pub proof fn law_failed_flushes_spoil_the_frame<E>(
    view: DisplayView<E>,
    complete: bool,
    failure: Option<(usize, Error<E>)>,
    x: int,
    y: int,
)
    ensures
        ({
            let after = view.after_line_flush(complete, failure);
            match co5300::flush_result(complete, failure) {
                Ok(_) => {
                    &&& after.band_y is None
                    &&& !after.is_dirty(x, y)
                    &&& after.error == view.error
                },
                Err(error) => {
                    &&& after.band_y == view.band_y
                    &&& after.is_dirty(x, y) == view.is_dirty(x, y)
                    &&& view.error is None ==> after.error == Some(error)
                    &&& view.error is Some ==> after.error == view.error
                },
            }
        }),
        view.transfers + co5300::starts(view.flush_ops(), co5300::performed(view.flush_ops(), failure))
            <= u32::MAX && 0 <= co5300::starts(
            view.flush_ops(),
            co5300::performed(view.flush_ops(), failure),
        ) ==> view.after_line_flush(complete, failure).transfers == view.transfers + co5300::starts(
            view.flush_ops(),
            co5300::performed(view.flush_ops(), failure),
        ),
        failure is None ==> view.after_line_flush(complete, failure).pending == (view.pending
            || view.flush_ops().len() > 0),
        failure matches Some(f) ==> (f.0 < view.flush_ops().len() ==> !view.after_line_flush(
            complete,
            failure,
        ).pending),
{
    let after = view.after_line_flush(complete, failure);
    match co5300::flush_result(complete, failure) {
        Ok(_) => {
            assert(after.spans.len() == 0);
        },
        Err(_) => {
            assert(after.spans == view.spans);
        },
    }
}

/// A frame succeeds only where nothing spoiled it and its last band went out
/// whole. It tells how many transfers it took, of all its bands. Otherwise it
/// tells the first thing that went wrong.
pub proof fn law_frames_tell_what_became_of_them<E>(
    view: DisplayView<E>,
    complete: bool,
    failure: Option<(usize, Error<E>)>,
)
    requires
        view.transfers + co5300::starts(view.flush_ops(), view.flush_ops().len() as int)
            <= u32::MAX,
        0 <= co5300::starts(view.flush_ops(), view.flush_ops().len() as int),
    ensures
        match view.frame_result(complete, failure) {
            Ok(transfers) => {
                &&& view.error is None
                &&& failure is None
                &&& complete
                &&& transfers == view.transfers + co5300::starts(
                    view.flush_ops(),
                    view.flush_ops().len() as int,
                )
            },
            Err(error) => {
                &&& view.error is Some || failure is Some || !complete
                &&& view.error matches Some(first) ==> error == first
                &&& view.error is None ==> (failure matches Some(f) ==> error == f.1)
            },
        },
        view.error is Some ==> view.last_ops().len() == 0,
{
}

/// Whatever became of a frame, the next one starts anew: no band is open, nothing
/// waits to be uploaded, nothing was sent and nothing went wrong. The display is
/// the same.
pub proof fn law_frames_start_anew<E>(view: DisplayView<E>, x: int, y: int)
    requires
        view.valid(),
    ensures
        ({
            let next = view.next_frame();
            &&& next.valid()
            &&& next.band_y is None
            &&& !next.is_dirty(x, y)
            &&& next.transfers == 0
            &&& next.error is None
            &&& !next.pending
            &&& next.width == view.width
            &&& next.height == view.height
            &&& next.capacity == view.capacity
        }),
{
}

/// The end of a frame leaves the bus to no one: the last transfer is waited for,
/// or the panel is released after a failure.
pub proof fn law_frames_release_the_panel<E>(view: DisplayView<E>, failed: int)
    ensures
        ({
            let ops = view.last_ops() + view.frame_closing(false);
            &&& co5300::bus_of(view.pending).allows_all(ops)
            &&& co5300::bus_of(view.pending).after_all(ops) == panel::Bus::idle()
        }),
        0 <= failed < view.last_ops().len() && panel::can_fail(view.last_ops()[failed]) ==> {
            let ops = view.last_ops().take(failed) + view.frame_closing(true);
            &&& co5300::bus_of(view.pending).allows_all(ops)
            &&& co5300::bus_of(view.pending).after_all(ops) == panel::Bus::idle()
        },
{
    let bus = co5300::bus_of(view.pending);
    let ops = view.last_ops();
    co5300::law_transfers_never_overlap(view);
    if view.error is Some {
        reveal_with_fuel(panel::Bus::after_all, 2);
        reveal_with_fuel(panel::Bus::allows_all, 2);
    }
    assert(bus.allows_all(ops));
    let closing = view.frame_closing(false);
    let busy = view.pending || ops.len() > 0;
    assert(bus.after_all(ops) == co5300::bus_of(busy));
    bus.lemma_joined(ops, closing);
    lemma_waiting_ends(busy);
    if 0 <= failed < ops.len() && panel::can_fail(ops[failed]) {
        panel::law_failed_writes_release_the_panel(bus, ops, failed);
    }
}

proof fn lemma_waiting_ends(pending: bool)
    ensures
        co5300::bus_of(pending).allows_all(co5300::wait_ops(pending)),
        co5300::bus_of(pending).after_all(co5300::wait_ops(pending)) == panel::Bus::idle(),
{
    let wait = co5300::wait_ops(pending);
    reveal_with_fuel(panel::Bus::after_all, 3);
    reveal_with_fuel(panel::Bus::allows_all, 3);
    if pending {
        assert(wait.drop_last() =~= seq![wait[0]]);
        assert(seq![wait[0]].drop_last() =~= Seq::<panel::BusOp>::empty());
    }
}

} // verus!
