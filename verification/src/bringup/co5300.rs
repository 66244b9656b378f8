//! Uploading the changed parts of a full framebuffer.
//!
//! Each rectangle the renderer changed is sent in as few transfers as the
//! transfer buffer allows.

use crate::controller;
use crate::controller::Controller;
use crate::panel;
use crate::panel::{BusOp, Payload};
use vstd::prelude::*;

verus! {

/// Largest pixel payload put into a single transfer. The bus must be built with
/// buffers of at least this size.
pub const MAX_TRANSFER_BYTES: usize = 7680;

/// Why an upload stopped. `E` is what the bus reports.
pub enum Error<E> {
    Spi(E),
    InvalidRegion,
}

/// A changed rectangle as the renderer reports it.
#[derive(Debug, Clone, Copy, PartialEq, Eq, Structural)]
pub struct Rectangle {
    pub x: i32,
    pub y: i32,
    pub width: u32,
    pub height: u32,
}

impl Rectangle {
    /// The panel's coordinates can express it.
    pub open spec fn representable(self) -> bool {
        &&& 0 <= self.x <= u16::MAX
        &&& 0 <= self.y <= u16::MAX
        &&& self.width <= u16::MAX
        &&& self.height <= u16::MAX
    }

    /// A rectangle as the renderer promises it: not empty, at an even place
    /// with an even size, and on the panel.
    pub open spec fn placed(self, panel_width: int, panel_height: int) -> bool {
        &&& self.x % 2 == 0
        &&& self.y % 2 == 0
        &&& self.width % 2 == 0
        &&& self.height % 2 == 0
        &&& 0 < self.width
        &&& 0 < self.height
        &&& self.x + self.width <= panel_width
        &&& self.y + self.height <= panel_height
    }

    /// Rows sent at once. A rectangle spanning the full stride has contiguous
    /// rows, so it goes out in transfers as large as the buffer allows.
    pub open spec fn rows_per_chunk(self, stride: int) -> int {
        let coalesced = MAX_TRANSFER_BYTES as int / (self.width * 2);
        if self.x == 0 && self.width == stride && coalesced >= 1 {
            coalesced
        } else {
            1
        }
    }

    /// Rows sent by a chunk.
    pub open spec fn chunk_rows(self, stride: int, chunk: int) -> int {
        let rows = self.rows_per_chunk(stride);
        if rows <= self.height - chunk * rows {
            rows
        } else {
            self.height - chunk * rows
        }
    }

    /// Number of chunks.
    pub open spec fn chunks(self, stride: int) -> int {
        (self.height + self.rows_per_chunk(stride) - 1) / self.rows_per_chunk(stride)
    }

    /// First pixel of a chunk in the framebuffer.
    pub open spec fn chunk_begin(self, stride: int, chunk: int) -> int {
        (self.y + chunk * self.rows_per_chunk(stride)) * stride + self.x
    }

    /// Pixels of a chunk.
    pub open spec fn chunk_length(self, stride: int, chunk: int) -> int {
        self.chunk_rows(stride, chunk) * self.width
    }

    /// The transfers of the first chunks.
    pub open spec fn sends(self, stride: int, count: int) -> Seq<BusOp> {
        Seq::new(
            count as nat,
            |chunk: int|
                BusOp::Send(
                    panel::pixel_transfer(
                        chunk == 0,
                        Payload::Pixels {
                            begin: self.chunk_begin(stride, chunk) as usize,
                            end: (self.chunk_begin(stride, chunk) + self.chunk_length(
                                stride,
                                chunk,
                            )) as usize,
                        },
                    ),
                ),
        )
    }

    /// Uploading the rectangle.
    pub open spec fn ops(self, stride: int) -> Seq<BusOp> {
        panel::window_ops(
            self.x as u16,
            self.y as u16,
            self.width as u16,
            self.height as u16,
        ) + panel::command_ops(panel::MEMORY_WRITE_START, Payload::Nothing) + seq![BusOp::Select]
            + self.sends(stride, self.chunks(stride)) + seq![BusOp::Deselect]
    }

    /// Framebuffer index of a pixel, numbering the rectangle's pixels row by
    /// row.
    pub open spec fn pixel_index(self, stride: int, number: int) -> int {
        (self.y + number / (self.width as int)) * stride + self.x + number % (self.width as int)
    }
}

/// How many rectangles come before the first that cannot be expressed.
pub open spec fn expressible(region: Seq<Rectangle>, among: int) -> int
    decreases among,
{
    if among <= 0 {
        0
    } else {
        let before = expressible(region, among - 1);
        if before == among - 1 && region[among - 1].representable() {
            among
        } else {
            before
        }
    }
}

/// Uploading the first rectangles.
pub open spec fn region_ops(region: Seq<Rectangle>, stride: int, count: int) -> Seq<BusOp>
    decreases count,
{
    if count <= 0 {
        Seq::empty()
    } else {
        region_ops(region, stride, count - 1) + region[count - 1].ops(stride)
    }
}

/// Pixel transfers of the first rectangles.
pub open spec fn region_transfers(region: Seq<Rectangle>, stride: int, count: int) -> int
    decreases count,
{
    if count <= 0 {
        0
    } else {
        region_transfers(region, stride, count - 1) + region[count - 1].chunks(stride)
    }
}

/// What an upload asks of the bus, and what it comes to once that is done.
pub struct Upload<E> {
    pub ops: Vec<BusOp>,
    /// How many pixel transfers it took.
    pub outcome: Result<u32, Error<E>>,
}

/// What an upload of changed rectangles comes to if the bus performs it.
pub open spec fn region_outcome<E>(region: Seq<Rectangle>, stride: int) -> Result<u32, Error<E>> {
    if expressible(region, region.len() as int) == region.len() {
        Ok(region_transfers(region, stride, region.len() as int) as u32)
    } else {
        Err(Error::InvalidRegion)
    }
}

/// What something comes to, given what the bus reported.
pub open spec fn ended<T, E>(outcome: Result<T, Error<E>>, failure: Option<E>) -> Result<
    T,
    Error<E>,
> {
    match failure {
        Some(error) => Err(Error::Spi(error)),
        None => outcome,
    }
}

/// How an upload ended.
pub struct UploadEnd<E> {
    /// What is left to do on the bus.
    pub closing: Vec<BusOp>,
    /// How many pixel transfers it took, or what stopped it.
    pub result: Result<u32, Error<E>>,
}

/// End an upload, given what the bus reported of the first write that failed.
/// The rest is given up then, and the panel is released.
pub fn uploaded<E>(upload: Upload<E>, failure: Option<E>) -> (end: UploadEnd<E>)
    ensures
        end.closing@ == panel::release_ops(failure is Some),
        end.result == match failure {
            Some(error) => Err(Error::Spi(error)),
            None => upload.outcome,
        },
        end.result == ended(upload.outcome, failure),
{
    UploadEnd {
        closing: panel::release(failure.is_some()),
        result: match failure {
            Some(error) => Err(Error::Spi(error)),
            None => upload.outcome,
        },
    }
}

/// How commands ended.
pub struct CommandEnd<E> {
    /// What is left to do on the bus.
    pub closing: Vec<BusOp>,
    pub result: Result<(), Error<E>>,
}

/// End commands, given what the bus reported of the first write that failed.
pub fn commanded<E>(failure: Option<E>) -> (end: CommandEnd<E>)
    ensures
        end.closing@ == panel::release_ops(failure is Some),
        end.result == match failure {
            Some(error) => Err::<(), Error<E>>(Error::Spi(error)),
            None => Ok::<(), Error<E>>(()),
        },
        end.result == ended(Ok(()), failure),
{
    CommandEnd {
        closing: panel::release(failure.is_some()),
        result: match failure {
            Some(error) => Err(Error::Spi(error)),
            None => Ok(()),
        },
    }
}

/// `bytemuck::cast_slice` from pixels to bytes: the bytes of the pixels in
/// order.
#[verifier::external_body]
fn as_bytes(pixels: &[[u8; 2]]) -> (bytes: &[u8])
    ensures
        bytes@.len() == 2 * pixels@.len(),
        forall|i: int| 0 <= i < bytes@.len() ==> #[trigger] bytes@[i] == pixels@[i / 2]@[i % 2],
{
    bytemuck::cast_slice(pixels)
}

/// The bytes of consecutive pixels of a framebuffer.
pub fn pixel_bytes(framebuffer: &[[u8; 2]], begin: usize, end: usize) -> (bytes: &[u8])
    requires
        begin <= end <= framebuffer@.len(),
    ensures
        bytes@.len() == 2 * (end - begin),
        forall|i: int|
            0 <= i < bytes@.len() ==> #[trigger] bytes@[i] == framebuffer@[begin + i / 2]@[i % 2],
{
    as_bytes(vstd::slice::slice_subrange(framebuffer, begin, end))
}

proof fn lemma_expressible_bounds(region: Seq<Rectangle>, among: int)
    requires
        0 <= among <= region.len(),
    ensures
        0 <= expressible(region, among) <= among,
        forall|i: int|
            0 <= i < expressible(region, among) ==> #[trigger] region[i].representable(),
    decreases among,
{
    if among > 0 {
        lemma_expressible_bounds(region, among - 1);
    }
}

/// Among fewer rectangles, as many come before the first refused one, or all.
proof fn lemma_expressible_prefix(region: Seq<Rectangle>, fewer: int, more: int)
    requires
        0 <= fewer <= more <= region.len(),
    ensures
        expressible(region, fewer) == if expressible(region, more) < fewer {
            expressible(region, more)
        } else {
            fewer
        },
    decreases more,
{
    lemma_expressible_bounds(region, more);
    lemma_expressible_bounds(region, fewer);
    if fewer < more {
        lemma_expressible_prefix(region, fewer, more - 1);
    } else if 0 < fewer {
        lemma_expressible_prefix(region, fewer - 1, more - 1);
    }
}

proof fn lemma_transfers_ascend(region: Seq<Rectangle>, stride: int, fewer: int, more: int)
    requires
        0 <= fewer <= more <= region.len(),
        forall|i: int| 0 <= i < more ==> #[trigger] region[i].chunks(stride) >= 0,
    ensures
        0 <= region_transfers(region, stride, fewer) <= region_transfers(region, stride, more),
    decreases more,
{
    if fewer < more {
        lemma_transfers_ascend(region, stride, fewer, more - 1);
        assert(region[more - 1].chunks(stride) >= 0);
    } else if 0 < fewer {
        lemma_transfers_ascend(region, stride, fewer - 1, more - 1);
        assert(region[fewer - 1].chunks(stride) >= 0);
    }
}

/// A panel of the given size.
#[derive(Debug, Clone, Copy, PartialEq, Eq, Structural)]
pub struct Co5300 {
    pub width: u16,
    pub height: u16,
}

impl Co5300 {
    pub fn new(width: u16, height: u16) -> (panel: Self)
        ensures
            panel == (Co5300 { width, height }),
    {
        Co5300 { width, height }
    }

    /// Reset and initialize the panel.
    pub fn init(&self) -> (ops: Vec<BusOp>)
        ensures
            ops@ == panel::reset_ops() + panel::configure_ops(),
            ops@ == crate::co5300::startup_ops(false),
    {
        let mut ops = panel::reset();
        let mut configuration = panel::configure();
        ops.append(&mut configuration);
        assert(ops@ =~= crate::co5300::startup_ops(false));
        ops
    }

    /// Set the brightness register.
    pub fn set_brightness(&self, brightness: u8) -> (ops: Vec<BusOp>)
        ensures
            ops@ == panel::command_ops(panel::WRITE_BRIGHTNESS_NORMAL, Payload::Byte(brightness)),
            ops@ == panel::brightness_ops(brightness),
    {
        panel::set_brightness(brightness)
    }

    /// Blank the panel and enter its low-power sleep mode.
    pub fn sleep(&self) -> (ops: Vec<BusOp>)
        ensures
            ops@ == panel::command_ops(panel::DISPLAY_OFF, Payload::Nothing) + panel::command_ops(
                panel::SLEEP_IN,
                Payload::Nothing,
            ),
            ops@ == panel::sleep_ops(),
    {
        panel::sleep()
    }

    /// Leave low-power sleep mode.
    ///
    /// The caller must wait at least 120 ms before [`Self::display_on`].
    pub fn wake(&self) -> (ops: Vec<BusOp>)
        ensures
            ops@ == panel::command_ops(panel::SLEEP_OUT, Payload::Nothing),
            ops@ == panel::sleep_out_ops(),
    {
        panel::wake()
    }

    /// Enable panel output after the sleep-out delay has elapsed.
    pub fn display_on(&self) -> (ops: Vec<BusOp>)
        ensures
            ops@ == panel::command_ops(panel::DISPLAY_ON, Payload::Nothing),
            ops@ == panel::display_on_ops(),
    {
        panel::display_on()
    }

    /// Append the upload of one rectangle and tell how many pixel transfers it
    /// takes.
    fn write_rectangle(
        &self,
        ops: &mut Vec<BusOp>,
        pixels: usize,
        stride: usize,
        rectangle: Rectangle,
    ) -> (issued: u32)
        requires
            stride >= self.width,
            pixels >= stride * self.height,
            rectangle.representable(),
            rectangle.placed(self.width as int, self.height as int),
        ensures
            final(ops)@ == old(ops)@ + rectangle.ops(stride as int),
            issued == rectangle.chunks(stride as int),
    {
        let x: u16 = rectangle.x as u16;
        let y: u16 = rectangle.y as u16;
        let width: u16 = rectangle.width as u16;
        let height: u16 = rectangle.height as u16;
        let ghost start = ops@;
        panel::set_address_window(ops, x, y, width, height);
        panel::write_command(ops, panel::MEMORY_WRITE_START, Payload::Nothing);
        ops.push(BusOp::Select);
        let first_row: usize = y as usize;
        let last_row: usize = first_row + height as usize;
        let coalesced: usize = MAX_TRANSFER_BYTES / (width as usize * 2);
        let rows_per_chunk: usize = if x == 0 && width as usize == stride && coalesced >= 1 {
            coalesced
        } else {
            1
        };
        let ghost rows = rectangle.rows_per_chunk(stride as int);
        let ghost opened = ops@;
        assert(rectangle.sends(stride as int, 0) =~= Seq::<BusOp>::empty());
        let mut chunk_start: usize = first_row;
        let mut issued: u32 = 0;
        while chunk_start < last_row
            invariant
                x == rectangle.x,
                y == rectangle.y,
                width == rectangle.width,
                height == rectangle.height,
                stride >= self.width,
                pixels >= stride * self.height,
                rectangle.placed(self.width as int, self.height as int),
                first_row == y,
                last_row == first_row + height,
                rows == rectangle.rows_per_chunk(stride as int),
                rows_per_chunk == rows,
                1 <= rows <= MAX_TRANSFER_BYTES,
                issued <= height,
                issued <= rectangle.chunks(stride as int),
                chunk_start == if issued * rows < height {
                    first_row + issued * rows
                } else {
                    last_row as int
                },
                issued > 0 ==> (issued - 1) * rows < height,
                ops@ == opened + rectangle.sends(stride as int, issued as int),
            decreases last_row - chunk_start,
        {
            proof {
                lemma_chunk_bounds(
                    rectangle,
                    self.width as int,
                    self.height as int,
                    stride as int,
                    issued as int,
                );
            }
            let left: usize = last_row - chunk_start;
            let chunk_rows: usize = if rows_per_chunk <= left {
                rows_per_chunk
            } else {
                left
            };
            assert(chunk_start * stride + x <= pixels);
            assert(0 <= chunk_start * stride) by (nonlinear_arith);
            let begin: usize = chunk_start * stride + x as usize;
            let end: usize = begin + chunk_rows * width as usize;
            ops.push(BusOp::Send(panel::pixels(issued == 0, Payload::Pixels { begin, end })));
            issued = issued + 1;
            proof {
                assert(rectangle.sends(stride as int, issued as int) =~= rectangle.sends(
                    stride as int,
                    issued - 1,
                ).push(ops@.last()));
                assert(ops@ =~= opened + rectangle.sends(stride as int, issued as int));
                assert(issued * rows == (issued - 1) * rows + rows) by (nonlinear_arith);
            }
            chunk_start = if rows_per_chunk <= left {
                chunk_start + rows_per_chunk
            } else {
                last_row
            };
        }
        proof {
            lemma_chunk_count(rectangle, stride as int, issued as int);
        }
        ops.push(BusOp::Deselect);
        assert(ops@ =~= start + rectangle.ops(stride as int));
        issued
    }

    /// Send every rectangle that was rendered to the panel.
    ///
    /// The framebuffer and the stride are those the renderer just used for a
    /// window of this panel's size, and the rectangles are those it changed.
    /// Rectangles up to the first that the panel cannot express are sent.
    pub fn write_region<E>(
        &self,
        framebuffer: &[[u8; 2]],
        stride: usize,
        region: &[Rectangle],
    ) -> (upload: Upload<E>)
        requires
            stride >= self.width,
            framebuffer@.len() >= stride * self.height,
            forall|i: int|
                0 <= i < expressible(region@, region@.len() as int) ==> (
                #[trigger] region@[i]).placed(self.width as int, self.height as int),
            region_transfers(
                region@,
                stride as int,
                expressible(region@, region@.len() as int),
            ) <= u32::MAX,
        ensures
            upload.ops@ == region_ops(
                region@,
                stride as int,
                expressible(region@, region@.len() as int),
            ),
            upload.outcome == if expressible(region@, region@.len() as int) == region@.len() {
                Ok::<u32, Error<E>>(
                    region_transfers(region@, stride as int, region@.len() as int) as u32,
                )
            } else {
                Err::<u32, Error<E>>(Error::InvalidRegion)
            },
            upload.outcome == region_outcome::<E>(region@, stride as int),
    {
        let mut ops: Vec<BusOp> = Vec::new();
        let mut transfers: u32 = 0;
        let mut i: usize = 0;
        let ghost sendable = expressible(region@, region@.len() as int);
        let pixels: usize = framebuffer.len();
        proof {
            lemma_expressible_bounds(region@, region@.len() as int);
            assert forall|k: int| 0 <= k < sendable implies #[trigger] region@[k].chunks(
                stride as int,
            ) >= 0 by {
                assert(region@[k].placed(self.width as int, self.height as int));
                lemma_rows_per_chunk(region@[k], stride as int);
            }
        }
        while i < region.len()
            invariant
                sendable == expressible(region@, region@.len() as int),
                pixels == framebuffer@.len(),
                stride >= self.width,
                framebuffer@.len() >= stride * self.height,
                forall|k: int|
                    0 <= k < sendable ==> (#[trigger] region@[k]).placed(
                        self.width as int,
                        self.height as int,
                    ),
                forall|k: int|
                    0 <= k < sendable ==> #[trigger] region@[k].chunks(stride as int) >= 0,
                region_transfers(region@, stride as int, sendable) <= u32::MAX,
                0 <= i <= sendable <= region@.len(),
                ops@ == region_ops(region@, stride as int, i as int),
                transfers == region_transfers(region@, stride as int, i as int),
            decreases region.len() - i,
        {
            let rectangle = region[i];
            proof {
                lemma_expressible_prefix(region@, i as int, region@.len() as int);
                lemma_expressible_prefix(region@, i + 1, region@.len() as int);
            }
            if rectangle.x < 0 || rectangle.x > u16::MAX as i32 || rectangle.y < 0 || rectangle.y
                > u16::MAX as i32 || rectangle.width > u16::MAX as u32 || rectangle.height
                > u16::MAX as u32 {
                return Upload { ops, outcome: Err(Error::InvalidRegion) };
            }
            proof {
                lemma_transfers_ascend(region@, stride as int, i + 1, sendable);
            }
            let issued = self.write_rectangle(&mut ops, pixels, stride, rectangle);
            transfers = transfers + issued;
            i = i + 1;
        }
        Upload { ops, outcome: Ok(transfers) }
    }
}

/// A chunk has at least one row and no more than the buffer has bytes.
proof fn lemma_rows_per_chunk(rectangle: Rectangle, stride: int)
    requires
        0 < rectangle.width,
        0 < rectangle.height,
    ensures
        1 <= rectangle.rows_per_chunk(stride) <= MAX_TRANSFER_BYTES,
        0 < rectangle.chunks(stride),
{
    let rows = rectangle.rows_per_chunk(stride);
    let width = rectangle.width as int;
    assert(MAX_TRANSFER_BYTES as int / (width * 2) <= MAX_TRANSFER_BYTES) by (nonlinear_arith)
        requires
            0 < width,
    ;
    assert(0 < (rectangle.height + rows - 1) / rows) by (nonlinear_arith)
        requires
            1 <= rows,
            1 <= rectangle.height,
    ;
}

proof fn lemma_chunk_bounds(
    rectangle: Rectangle,
    panel_width: int,
    panel_height: int,
    stride: int,
    chunk: int,
)
    requires
        rectangle.placed(panel_width, panel_height),
        0 <= rectangle.x,
        0 <= rectangle.y,
        panel_width <= stride,
        0 <= chunk,
        chunk * rectangle.rows_per_chunk(stride) < rectangle.height,
    ensures
        chunk < rectangle.chunks(stride),
        chunk < rectangle.height,
        0 <= rectangle.chunk_begin(stride, chunk),
        1 <= rectangle.chunk_rows(stride, chunk) <= rectangle.height,
        0 <= rectangle.chunk_length(stride, chunk),
        rectangle.chunk_begin(stride, chunk) + rectangle.chunk_length(stride, chunk) <= stride
            * panel_height,
{
    lemma_rows_per_chunk(rectangle, stride);
    let rows = rectangle.rows_per_chunk(stride);
    let height = rectangle.height as int;
    let width = rectangle.width as int;
    let taken = rectangle.chunk_rows(stride, chunk);
    let first = rectangle.y + chunk * rows;
    assert(chunk < (height + rows - 1) / rows) by (nonlinear_arith)
        requires
            1 <= rows,
            0 <= chunk,
            chunk * rows < height,
    ;
    assert(chunk <= chunk * rows) by (nonlinear_arith)
        requires
            1 <= rows,
            0 <= chunk,
    ;
    assert(0 <= first * stride) by (nonlinear_arith)
        requires
            0 <= first,
            0 <= stride,
    ;
    assert(0 <= taken * width) by (nonlinear_arith)
        requires
            1 <= taken,
            0 <= width,
    ;
    if rows == 1 {
        assert(first * stride + stride <= stride * panel_height) by (nonlinear_arith)
            requires
                first + 1 <= panel_height,
                0 <= stride,
        ;
        assert(taken * width == width) by (nonlinear_arith)
            requires
                taken == 1,
        ;
    } else {
        assert(first * stride + taken * stride <= stride * panel_height) by (nonlinear_arith)
            requires
                first + taken <= panel_height,
                0 <= stride,
        ;
    }
}

proof fn lemma_chunk_count(rectangle: Rectangle, stride: int, issued: int)
    requires
        0 < rectangle.width,
        0 < rectangle.height,
        0 < issued,
        (issued - 1) * rectangle.rows_per_chunk(stride) < rectangle.height,
        rectangle.height <= issued * rectangle.rows_per_chunk(stride),
    ensures
        issued == rectangle.chunks(stride),
{
    lemma_rows_per_chunk(rectangle, stride);
    let rows = rectangle.rows_per_chunk(stride);
    let height = rectangle.height as int;
    assert((height + rows - 1) / rows == issued) by (nonlinear_arith)
        requires
            1 <= rows,
            (issued - 1) * rows < height,
            height <= issued * rows,
    ;
}

/// The chunks of a rectangle are its pixels, row by row, in order: a chunk
/// continues where the one before it ended, the last one ends with the last
/// pixel, and each holds the framebuffer's pixels of its part.
pub proof fn law_chunks_are_the_rectangle(
    rectangle: Rectangle,
    panel_width: int,
    panel_height: int,
    stride: int,
    chunk: int,
    offset: int,
)
    requires
        rectangle.representable(),
        rectangle.placed(panel_width, panel_height),
        panel_width <= stride,
        0 <= chunk < rectangle.chunks(stride),
        0 <= offset < rectangle.chunk_length(stride, chunk),
    ensures
        ({
            let before = chunk * rectangle.rows_per_chunk(stride) * rectangle.width;
            let next = (chunk + 1) * rectangle.rows_per_chunk(stride) * rectangle.width;
            &&& rectangle.chunk_begin(stride, chunk) + offset == rectangle.pixel_index(
                stride,
                before + offset,
            )
            &&& before + rectangle.chunk_length(stride, chunk) == if chunk + 1
                < rectangle.chunks(stride) {
                next
            } else {
                rectangle.width * rectangle.height
            }
        }),
{
    lemma_rows_per_chunk(rectangle, stride);
    let rows = rectangle.rows_per_chunk(stride);
    let height = rectangle.height as int;
    let width = rectangle.width as int;
    let count = rectangle.chunks(stride);
    let taken = rectangle.chunk_rows(stride, chunk);
    let row = offset / width;
    let column = offset % width;
    assert(chunk * rows < height) by (nonlinear_arith)
        requires
            1 <= rows,
            chunk < count,
            count == (height + rows - 1) / rows,
    ;
    assert(chunk + 1 < count <==> (chunk + 1) * rows < height) by (nonlinear_arith)
        requires
            1 <= rows,
            count == (height + rows - 1) / rows,
    ;
    assert((chunk + 1) * rows == chunk * rows + rows) by (nonlinear_arith);
    // The row and the column of the pixel within the chunk.
    assert(offset == row * width + column && 0 <= column < width && 0 <= row) by (nonlinear_arith)
        requires
            0 < width,
            0 <= offset,
            row == offset / width,
            column == offset % width,
    ;
    let before = chunk * rows * width;
    assert(before + offset == (chunk * rows + row) * width + column) by (nonlinear_arith)
        requires
            before == chunk * rows * width,
            offset == row * width + column,
    ;
    vstd::arithmetic::div_mod::lemma_fundamental_div_mod_converse(
        before + offset,
        width,
        chunk * rows + row,
        column,
    );
    let first = rectangle.y + chunk * rows;
    assert((first + row) * stride == first * stride + row * stride) by (nonlinear_arith);
    if rows == 1 {
        assert(row == 0) by (nonlinear_arith)
            requires
                0 <= offset < taken * width,
                taken == 1,
                row == offset / width,
                0 < width,
        ;
        assert(row * stride == row * width) by (nonlinear_arith)
            requires
                row == 0,
        ;
    }
    assert(chunk * rows * width + taken * width == (chunk * rows + taken) * width)
        by (nonlinear_arith);
    assert((chunk + 1) * rows * width == (chunk * rows + rows) * width) by (nonlinear_arith);
    if chunk + 1 >= count {
        assert(chunk * rows + taken == height);
        assert(height * width == width * height) by (nonlinear_arith);
    } else {
        assert(taken == rows);
    }
}

/// A transfer fits the buffer as long as a single row does.
pub proof fn law_transfers_fit_the_buffer(rectangle: Rectangle, stride: int, chunk: int)
    requires
        0 < rectangle.width,
        0 < rectangle.height,
        rectangle.width * 2 <= MAX_TRANSFER_BYTES,
        0 <= chunk < rectangle.chunks(stride),
    ensures
        rectangle.chunk_length(stride, chunk) * 2 <= MAX_TRANSFER_BYTES,
{
    lemma_rows_per_chunk(rectangle, stride);
    let rows = rectangle.rows_per_chunk(stride);
    let width = rectangle.width as int;
    let taken = rectangle.chunk_rows(stride, chunk);
    assert(taken * width <= rows * width) by (nonlinear_arith)
        requires
            taken <= rows,
            0 < width,
    ;
    if rows == 1 {
        assert(rows * width == width) by (nonlinear_arith)
            requires
                rows == 1,
        ;
    } else {
        assert(rows * width * 2 <= MAX_TRANSFER_BYTES) by (nonlinear_arith)
            requires
                rows == MAX_TRANSFER_BYTES as int / (width * 2),
                0 < width,
        ;
    }
}

/// Rows that touch are sent together: a rectangle as wide as the stride takes
/// as many transfers as buffers its pixels fill, where whole rows fit.
pub proof fn law_full_rows_are_coalesced(rectangle: Rectangle, stride: int)
    requires
        rectangle.x == 0,
        rectangle.width == stride,
        0 < rectangle.width,
        rectangle.width * 2 <= MAX_TRANSFER_BYTES,
    ensures
        ({
            let rows = MAX_TRANSFER_BYTES as int / (rectangle.width * 2);
            rectangle.chunks(stride) == (rectangle.height + rows - 1) / rows
        }),
{
    let width = rectangle.width as int;
    assert(MAX_TRANSFER_BYTES as int / (width * 2) >= 1) by (nonlinear_arith)
        requires
            0 < width,
            width * 2 <= MAX_TRANSFER_BYTES,
    ;
}

proof fn lemma_sends_keep_the_bus_selected(rectangle: Rectangle, stride: int, count: int)
    requires
        0 <= count,
    ensures
        ({
            let selected = panel::Bus { selected: true, busy: false };
            &&& selected.allows_all(rectangle.sends(stride, count))
            &&& selected.after_all(rectangle.sends(stride, count)) == selected
        }),
    decreases count,
{
    if count > 0 {
        lemma_sends_keep_the_bus_selected(rectangle, stride, count - 1);
        assert(rectangle.sends(stride, count).drop_last() =~= rectangle.sends(stride, count - 1));
    }
}

proof fn lemma_rectangle_keeps_the_bus_idle(rectangle: Rectangle, stride: int)
    requires
        0 <= rectangle.chunks(stride),
    ensures
        panel::Bus::idle().allows_all(rectangle.ops(stride)),
        panel::Bus::idle().after_all(rectangle.ops(stride)) == panel::Bus::idle(),
{
    let idle = panel::Bus::idle();
    let x_bounds = Payload::Bounds {
        first: rectangle.x as u16,
        last: ((rectangle.x as u16) + (rectangle.width as u16) - 1) as u16,
    };
    let y_bounds = Payload::Bounds {
        first: rectangle.y as u16,
        last: ((rectangle.y as u16) + (rectangle.height as u16) - 1) as u16,
    };
    let columns = panel::command_ops(panel::SET_COLUMN_ADDRESS, x_bounds);
    let pages = panel::command_ops(panel::SET_PAGE_ADDRESS, y_bounds);
    let write = panel::command_ops(panel::MEMORY_WRITE_START, Payload::Nothing);
    let sends = rectangle.sends(stride, rectangle.chunks(stride));
    panel::lemma_command_keeps_the_bus_idle(panel::SET_COLUMN_ADDRESS, x_bounds);
    panel::lemma_command_keeps_the_bus_idle(panel::SET_PAGE_ADDRESS, y_bounds);
    panel::lemma_command_keeps_the_bus_idle(panel::MEMORY_WRITE_START, Payload::Nothing);
    lemma_sends_keep_the_bus_selected(rectangle, stride, rectangle.chunks(stride));
    reveal_with_fuel(panel::Bus::after_all, 2);
    reveal_with_fuel(panel::Bus::allows_all, 2);
    assert(seq![BusOp::Select].drop_last() =~= Seq::<BusOp>::empty());
    assert(seq![BusOp::Deselect].drop_last() =~= Seq::<BusOp>::empty());
    idle.lemma_joined(columns, pages);
    idle.lemma_joined(columns + pages, write);
    idle.lemma_joined(columns + pages + write, seq![BusOp::Select]);
    idle.lemma_joined(columns + pages + write + seq![BusOp::Select], sends);
    idle.lemma_joined(
        columns + pages + write + seq![BusOp::Select] + sends,
        seq![BusOp::Deselect],
    );
}

/// Uploading keeps the bus in order: pixels are written only while the panel is
/// selected, and the panel is released in the end.
pub proof fn law_uploads_release_the_panel(region: Seq<Rectangle>, stride: int, count: int)
    requires
        0 <= count <= region.len(),
        forall|i: int| 0 <= i < count ==> 0 < (#[trigger] region[i]).width && 0 < region[i].height,
    ensures
        panel::Bus::idle().allows_all(region_ops(region, stride, count)),
        panel::Bus::idle().after_all(region_ops(region, stride, count)) == panel::Bus::idle(),
    decreases count,
{
    if count > 0 {
        law_uploads_release_the_panel(region, stride, count - 1);
        assert(0 < region[count - 1].width);
        lemma_rows_per_chunk(region[count - 1], stride);
        lemma_rectangle_keeps_the_bus_idle(region[count - 1], stride);
        panel::Bus::idle().lemma_joined(
            region_ops(region, stride, count - 1),
            region[count - 1].ops(stride),
        );
    }
}

/// An upload that fails releases the panel as well: at whichever write the bus
/// fails, what is done in place of the rest leaves the bus to no one.
pub proof fn law_failed_uploads_release_the_panel(
    region: Seq<Rectangle>,
    stride: int,
    count: int,
    failed: int,
)
    requires
        0 <= count <= region.len(),
        forall|i: int| 0 <= i < count ==> 0 < (#[trigger] region[i]).width && 0 < region[i].height,
        0 <= failed < region_ops(region, stride, count).len(),
        panel::can_fail(region_ops(region, stride, count)[failed]),
    ensures
        ({
            let ended = region_ops(region, stride, count).take(failed) + panel::release_ops(true);
            &&& panel::Bus::idle().allows_all(ended)
            &&& panel::Bus::idle().after_all(ended) == panel::Bus::idle()
        }),
{
    law_uploads_release_the_panel(region, stride, count);
    panel::law_failed_writes_release_the_panel(
        panel::Bus::idle(),
        region_ops(region, stride, count),
        failed,
    );
}

/// A pixel lies in a rectangle.
pub open spec fn in_rectangle(rectangle: Rectangle, x: int, y: int) -> bool {
    rectangle.x <= x < rectangle.x + rectangle.width && rectangle.y <= y < rectangle.y
        + rectangle.height
}

/// How many pixels the first chunks hold.
spec fn pixels_of(rectangle: Rectangle, stride: int, count: int) -> int {
    if count < rectangle.chunks(stride) {
        count * rectangle.rows_per_chunk(stride) * rectangle.width
    } else {
        rectangle.width * rectangle.height
    }
}

/// A chunk goes on where the one before it ended.
proof fn lemma_chunk_follows(
    rectangle: Rectangle,
    panel_width: int,
    panel_height: int,
    stride: int,
    chunk: int,
)
    requires
        rectangle.representable(),
        rectangle.placed(panel_width, panel_height),
        panel_width <= stride,
        stride * panel_height <= usize::MAX,
        0 <= chunk < rectangle.chunks(stride),
    ensures
        0 <= rectangle.chunk_begin(stride, chunk),
        0 < rectangle.chunk_length(stride, chunk),
        rectangle.chunk_begin(stride, chunk) + rectangle.chunk_length(stride, chunk) <= usize::MAX,
        pixels_of(rectangle, stride, chunk) == chunk * rectangle.rows_per_chunk(stride)
            * rectangle.width,
        pixels_of(rectangle, stride, chunk) + rectangle.chunk_length(stride, chunk) == pixels_of(
            rectangle,
            stride,
            chunk + 1,
        ),
        0 <= pixels_of(rectangle, stride, chunk),
{
    lemma_rows_per_chunk(rectangle, stride);
    let rows = rectangle.rows_per_chunk(stride);
    let height = rectangle.height as int;
    let width = rectangle.width as int;
    let count = rectangle.chunks(stride);
    assert(chunk * rows < height) by (nonlinear_arith)
        requires
            1 <= rows,
            chunk < count,
            count == (height + rows - 1) / rows,
    ;
    lemma_chunk_bounds(rectangle, panel_width, panel_height, stride, chunk);
    let taken = rectangle.chunk_rows(stride, chunk);
    assert(0 < taken * width) by (nonlinear_arith)
        requires
            1 <= taken,
            0 < width,
    ;
    assert(0 <= chunk * rows * width) by (nonlinear_arith)
        requires
            0 <= chunk,
            1 <= rows,
            0 < width,
    ;
    law_chunks_are_the_rectangle(rectangle, panel_width, panel_height, stride, chunk, 0);
}

/// Sending chunks fills the window with the rectangle's pixels.
proof fn lemma_sends_are_shown(
    ready: Controller,
    rectangle: Rectangle,
    panel_width: int,
    panel_height: int,
    stride: int,
    count: int,
    x: int,
    y: int,
)
    requires
        rectangle.representable(),
        rectangle.placed(panel_width, panel_height),
        panel_width <= stride,
        stride * panel_height <= usize::MAX,
        0 <= count <= rectangle.chunks(stride),
        ready.columns == (rectangle.x as int, rectangle.x + rectangle.width - 1),
        ready.rows == (rectangle.y as int, rectangle.y + rectangle.height - 1),
        ready.cursor == 0,
    ensures
        ({
            let after = ready.after_all(rectangle.sends(stride, count));
            let number = (y - rectangle.y) * rectangle.width + (x - rectangle.x);
            &&& after == (Controller {
                cursor: pixels_of(rectangle, stride, count),
                memory: after.memory,
                ..ready
            })
            &&& if rectangle.x <= x < rectangle.x + rectangle.width && 0 <= number < pixels_of(
                rectangle,
                stride,
                count,
            ) {
                after.memory.contains_pair((x, y), y * stride + x)
            } else {
                controller::same_at(ready.memory, after.memory, x, y)
            }
        }),
    decreases count,
{
    lemma_rows_per_chunk(rectangle, stride);
    let sends = rectangle.sends(stride, count);
    let rows = rectangle.rows_per_chunk(stride);
    let width = rectangle.width as int;
    if count == 0 {
        assert(sends =~= Seq::<BusOp>::empty());
        assert(0 * rows * width == 0) by (nonlinear_arith);
    } else {
        let chunk = count - 1;
        lemma_sends_are_shown(
            ready,
            rectangle,
            panel_width,
            panel_height,
            stride,
            chunk,
            x,
            y,
        );
        lemma_chunk_follows(rectangle, panel_width, panel_height, stride, chunk);
        assert(sends.drop_last() =~= rectangle.sends(stride, chunk));
        let before = ready.after_all(rectangle.sends(stride, chunk));
        let begin = rectangle.chunk_begin(stride, chunk);
        let length = rectangle.chunk_length(stride, chunk);
        let payload = Payload::Pixels { begin: begin as usize, end: (begin + length) as usize };
        assert(sends.last() == BusOp::Send(panel::pixel_transfer(chunk == 0, payload)));
        controller::lemma_pixel_transfer(before, chunk == 0, payload);
        before.lemma_pixels(payload, length, x, y);
        let number = (y - rectangle.y) * width + (x - rectangle.x);
        let sent = pixels_of(rectangle, stride, chunk);
        if rectangle.x <= x < rectangle.x + width && sent <= number < sent + length {
            law_chunks_are_the_rectangle(
                rectangle,
                panel_width,
                panel_height,
                stride,
                chunk,
                number - sent,
            );
            vstd::arithmetic::div_mod::lemma_fundamental_div_mod_converse(
                number,
                width,
                y - rectangle.y,
                x - rectangle.x,
            );
        }
    }
}

/// Uploading a rectangle shows each of its pixels at its place, and changes
/// nothing else.
proof fn lemma_rectangle_is_shown(
    controller: Controller,
    rectangle: Rectangle,
    panel_width: int,
    panel_height: int,
    stride: int,
    x: int,
    y: int,
)
    requires
        rectangle.representable(),
        rectangle.placed(panel_width, panel_height),
        panel_width <= u16::MAX,
        panel_height <= u16::MAX,
        panel_width <= stride,
        stride * panel_height <= usize::MAX,
    ensures
        ({
            let shown = controller.after_all(rectangle.ops(stride)).memory;
            if in_rectangle(rectangle, x, y) {
                shown.contains_pair((x, y), y * stride + x)
            } else {
                controller::same_at(controller.memory, shown, x, y)
            }
        }),
{
    lemma_rows_per_chunk(rectangle, stride);
    let window = panel::window_ops(
        rectangle.x as u16,
        rectangle.y as u16,
        rectangle.width as u16,
        rectangle.height as u16,
    );
    let write = panel::command_ops(panel::MEMORY_WRITE_START, Payload::Nothing);
    let select = seq![BusOp::Select];
    let count = rectangle.chunks(stride);
    let sends = rectangle.sends(stride, count);
    let release = seq![BusOp::Deselect];
    controller.lemma_joined(window + write + select + sends, release);
    controller.lemma_joined(window + write + select, sends);
    controller.lemma_joined(window + write, select);
    controller.lemma_joined(window, write);
    controller::law_windows_are_the_rectangle(
        controller,
        rectangle.x as u16,
        rectangle.y as u16,
        rectangle.width as u16,
        rectangle.height as u16,
    );
    let windowed = controller.after_all(window);
    controller::lemma_write_starts(windowed);
    let ready = windowed.after_all(write);
    ready.lemma_single(BusOp::Select);
    ready.after_all(sends).lemma_single(BusOp::Deselect);
    lemma_sends_are_shown(
        ready,
        rectangle,
        panel_width,
        panel_height,
        stride,
        count,
        x,
        y,
    );
    let width = rectangle.width as int;
    let height = rectangle.height as int;
    let number = (y - rectangle.y) * width + (x - rectangle.x);
    if rectangle.x <= x < rectangle.x + width {
        assert((0 <= number < width * height) <==> (0 <= y - rectangle.y < height))
            by (nonlinear_arith)
            requires
                number == (y - rectangle.y) * width + (x - rectangle.x),
                0 <= x - rectangle.x < width,
                0 < height,
        ;
    }
}

/// What was rendered is shown: uploading rectangles shows every pixel of them at
/// its own column and row of the panel, from its place in the framebuffer, and
/// changes no other place.
pub proof fn law_rendered_pixels_are_shown(
    controller: Controller,
    region: Seq<Rectangle>,
    panel_width: int,
    panel_height: int,
    stride: int,
    count: int,
    x: int,
    y: int,
)
    requires
        panel_width <= u16::MAX,
        panel_height <= u16::MAX,
        panel_width <= stride,
        stride * panel_height <= usize::MAX,
        0 <= count <= region.len(),
        forall|i: int|
            0 <= i < count ==> (#[trigger] region[i]).representable() && region[i].placed(
                panel_width,
                panel_height,
            ),
    ensures
        ({
            let shown = controller.after_all(region_ops(region, stride, count)).memory;
            if exists|i: int| 0 <= i < count && in_rectangle(#[trigger] region[i], x, y) {
                shown.contains_pair((x, y), y * stride + x)
            } else {
                controller::same_at(controller.memory, shown, x, y)
            }
        }),
    decreases count,
{
    if count > 0 {
        let earlier = region_ops(region, stride, count - 1);
        law_rendered_pixels_are_shown(
            controller,
            region,
            panel_width,
            panel_height,
            stride,
            count - 1,
            x,
            y,
        );
        controller.lemma_joined(earlier, region[count - 1].ops(stride));
        lemma_rectangle_is_shown(
            controller.after_all(earlier),
            region[count - 1],
            panel_width,
            panel_height,
            stride,
            x,
            y,
        );
        if exists|i: int| 0 <= i < count - 1 && in_rectangle(#[trigger] region[i], x, y) {
            let i = choose|i: int| 0 <= i < count - 1 && in_rectangle(#[trigger] region[i], x, y);
            assert(0 <= i < count && in_rectangle(region[i], x, y));
        }
    }
}

/// Everything up to the first rectangle that the panel cannot express is
/// uploaded, and with no such rectangle all of them are.
pub proof fn law_expressible_rectangles_are_uploaded(region: Seq<Rectangle>)
    ensures
        ({
            let count = expressible(region, region.len() as int);
            &&& 0 <= count <= region.len()
            &&& forall|i: int|
                0 <= i < count ==> 0 <= (#[trigger] region[i]).x <= 65535 && 0 <= region[i].y
                    <= 65535 && region[i].width <= 65535 && region[i].height <= 65535
            &&& count < region.len() ==> !(0 <= region[count].x <= 65535 && 0 <= region[count].y
                <= 65535 && region[count].width <= 65535 && region[count].height <= 65535)
        }),
{
    let all = region.len() as int;
    lemma_expressible_bounds(region, all);
    let count = expressible(region, all);
    if count < all {
        lemma_expressible_prefix(region, count + 1, all);
        lemma_expressible_prefix(region, count, all);
        assert(!region[count].representable());
    }
    assert forall|i: int| 0 <= i < count implies 0 <= (#[trigger] region[i]).x <= 65535 && 0
        <= region[i].y <= 65535 && region[i].width <= 65535 && region[i].height <= 65535 by {
        assert(region[i].representable());
    }
}

/// A failure of the bus is what is told of anything, and without one it is what
/// it came to.
pub proof fn law_failures_of_the_bus_are_told<T, E>(outcome: Result<T, Error<E>>, error: E)
    ensures
        ended(outcome, Some(error)) == Err::<T, Error<E>>(Error::Spi(error)),
        ended(outcome, None) == outcome,
{
}

/// Writes of pixels among the first operations.
pub open spec fn pixel_writes(ops: Seq<BusOp>, among: int) -> int
    decreases among,
{
    if among <= 0 {
        0
    } else {
        pixel_writes(ops, among - 1) + if ops[among - 1] matches BusOp::Send(transfer)
            && transfer.data is Quad {
            1int
        } else {
            0
        }
    }
}

proof fn lemma_writes_joined(head: Seq<BusOp>, tail: Seq<BusOp>, among: int)
    requires
        0 <= among <= tail.len(),
    ensures
        pixel_writes(head + tail, head.len() + among) == pixel_writes(head, head.len() as int)
            + pixel_writes(tail, among),
    decreases among,
{
    if among == 0 {
        lemma_writes_of_the_head(head, tail, head.len() as int);
    } else {
        lemma_writes_joined(head, tail, among - 1);
        assert((head + tail)[head.len() + among - 1] == tail[among - 1]);
    }
}

proof fn lemma_writes_of_the_head(head: Seq<BusOp>, tail: Seq<BusOp>, among: int)
    requires
        0 <= among <= head.len(),
    ensures
        pixel_writes(head + tail, among) == pixel_writes(head, among),
    decreases among,
{
    if among > 0 {
        lemma_writes_of_the_head(head, tail, among - 1);
        assert((head + tail)[among - 1] == head[among - 1]);
    }
}

proof fn lemma_writes_of_sends(rectangle: Rectangle, stride: int, count: int, among: int)
    requires
        0 <= among <= count,
    ensures
        pixel_writes(rectangle.sends(stride, count), among) == among,
    decreases among,
{
    if among > 0 {
        lemma_writes_of_sends(rectangle, stride, count, among - 1);
    }
}

proof fn lemma_writes_of_commands(opcode: u8, payload: Payload)
    ensures
        pixel_writes(panel::command_ops(opcode, payload), 3) == 0,
{
    reveal_with_fuel(pixel_writes, 4);
}

proof fn lemma_writes_of_a_rectangle(rectangle: Rectangle, stride: int)
    requires
        rectangle.chunks(stride) >= 0,
    ensures
        pixel_writes(rectangle.ops(stride), rectangle.ops(stride).len() as int) == rectangle.chunks(
            stride,
        ),
{
    reveal_with_fuel(pixel_writes, 2);
    let columns = panel::command_ops(
        panel::SET_COLUMN_ADDRESS,
        Payload::Bounds {
            first: rectangle.x as u16,
            last: (rectangle.x as u16 + rectangle.width as u16 - 1) as u16,
        },
    );
    let rows = panel::command_ops(
        panel::SET_PAGE_ADDRESS,
        Payload::Bounds {
            first: rectangle.y as u16,
            last: (rectangle.y as u16 + rectangle.height as u16 - 1) as u16,
        },
    );
    let start = panel::command_ops(panel::MEMORY_WRITE_START, Payload::Nothing);
    let sends = rectangle.sends(stride, rectangle.chunks(stride));
    lemma_writes_of_commands(
        panel::SET_COLUMN_ADDRESS,
        Payload::Bounds {
            first: rectangle.x as u16,
            last: (rectangle.x as u16 + rectangle.width as u16 - 1) as u16,
        },
    );
    lemma_writes_of_commands(
        panel::SET_PAGE_ADDRESS,
        Payload::Bounds {
            first: rectangle.y as u16,
            last: (rectangle.y as u16 + rectangle.height as u16 - 1) as u16,
        },
    );
    lemma_writes_of_commands(panel::MEMORY_WRITE_START, Payload::Nothing);
    lemma_writes_joined(columns, rows, 3);
    lemma_writes_joined(columns + rows, start, 3);
    let begun = columns + rows + start;
    lemma_writes_joined(begun, seq![BusOp::Select], 1);
    lemma_writes_of_sends(rectangle, stride, rectangle.chunks(stride), rectangle.chunks(stride));
    lemma_writes_joined(begun + seq![BusOp::Select], sends, sends.len() as int);
    lemma_writes_joined(begun + seq![BusOp::Select] + sends, seq![BusOp::Deselect], 1);
    assert(rectangle.ops(stride) == begun + seq![BusOp::Select] + sends + seq![BusOp::Deselect]);
}

/// What an upload tells is how many writes of pixels it made, where it could
/// express every rectangle.
pub proof fn law_transfers_are_counted<E>(region: Seq<Rectangle>, stride: int)
    requires
        forall|i: int| 0 <= i < region.len() ==> (#[trigger] region[i]).representable(),
        forall|i: int| 0 <= i < region.len() ==> (#[trigger] region[i]).chunks(stride) >= 0,
        region_transfers(region, stride, region.len() as int) <= u32::MAX,
    ensures
        region_outcome::<E>(region, stride) matches Ok(transfers) && transfers == pixel_writes(
            region_ops(region, stride, region.len() as int),
            region_ops(region, stride, region.len() as int).len() as int,
        ),
{
    law_expressible_rectangles_are_uploaded(region);
    lemma_region_writes(region, stride, region.len() as int);
    lemma_transfers_ascend(region, stride, 0, region.len() as int);
}

proof fn lemma_region_writes(region: Seq<Rectangle>, stride: int, count: int)
    requires
        0 <= count <= region.len(),
        forall|i: int| 0 <= i < region.len() ==> (#[trigger] region[i]).chunks(stride) >= 0,
    ensures
        pixel_writes(
            region_ops(region, stride, count),
            region_ops(region, stride, count).len() as int,
        ) == region_transfers(region, stride, count),
    decreases count,
{
    if count > 0 {
        lemma_region_writes(region, stride, count - 1);
        let last = region[count - 1].ops(stride);
        lemma_writes_of_a_rectangle(region[count - 1], stride);
        lemma_writes_joined(region_ops(region, stride, count - 1), last, last.len() as int);
    }
}

} // verus!
