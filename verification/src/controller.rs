//! What the panel's controller makes of the bus.
//!
//! A model of the controller as its data sheet describes it: commands arrive as
//! an opcode in the middle of a 24-bit address with their parameters behind it,
//! and pixels fill the address window row by row. What the drivers ask of the
//! bus is held against it.

pub mod commanded;

use crate::panel;
use crate::panel::{BusOp, Payload, Transfer};
use vstd::prelude::*;

verus! {

/// How many pixels a payload carries, two bytes each.
pub open spec fn pixels_in(payload: Payload) -> int {
    match payload {
        Payload::Pixels { begin, end } => end - begin,
        Payload::Rows { row_bytes, rows, .. } => rows * row_bytes / 2,
        _ => 0,
    }
}

/// Where in its buffer a pixel of a payload comes from: a pixel's index in a
/// framebuffer, and the place of its first byte among gathered rows.
pub open spec fn source_of(payload: Payload, number: int) -> int {
    match payload {
        Payload::Pixels { begin, .. } => begin + number,
        Payload::Rows { begin, row_bytes, stride, .. } => begin + (2 * number) / (row_bytes as int)
            * stride + (2 * number) % (row_bytes as int),
        _ => 0,
    }
}

/// Two bytes as a number, the high one first.
pub open spec fn high_first(bytes: Seq<u8>, at: int) -> int {
    bytes[at] * 256 + bytes[at + 1]
}

/// The controller.
#[verifier::ext_equal]
pub struct Controller {
    /// First and last column of the address window.
    pub columns: (int, int),
    /// First and last row of the address window.
    pub rows: (int, int),
    /// Pixels written since the last start of a memory write.
    pub cursor: int,
    /// Where in its buffer the pixel shown at a column and a row came from.
    pub memory: Map<(int, int), int>,
    /// The registers that one byte sets, by their opcodes.
    pub registers: Map<int, u8>,
    pub asleep: bool,
    /// The panel shows its memory.
    pub lit: bool,
    /// Milliseconds waited since sleep was left.
    pub waited_ms: int,
    /// The panel was lit sooner after its sleep than it can bear.
    pub hurried: bool,
}

impl Controller {
    /// Columns of the address window.
    pub open spec fn window_width(self) -> int {
        self.columns.1 - self.columns.0 + 1
    }

    /// Where the next pixel goes.
    pub open spec fn place(self) -> (int, int) {
        (
            self.columns.0 + self.cursor % self.window_width(),
            self.rows.0 + self.cursor / self.window_width(),
        )
    }

    /// The controller after one pixel.
    pub open spec fn with_pixel(self, source: int) -> Controller {
        Controller {
            memory: self.memory.insert(self.place(), source),
            cursor: self.cursor + 1,
            ..self
        }
    }

    /// The controller after the first pixels of a payload.
    pub open spec fn with_pixels(self, payload: Payload, count: int) -> Controller
        decreases count,
    {
        if count <= 0 {
            self
        } else {
            self.with_pixels(payload, count - 1).with_pixel(source_of(payload, count - 1))
        }
    }

    /// The controller after a command.
    pub open spec fn after_command(self, opcode: int, bytes: Seq<u8>) -> Controller {
        if opcode == 0x2a && bytes.len() == 4 {
            Controller { columns: (high_first(bytes, 0), high_first(bytes, 2)), ..self }
        } else if opcode == 0x2b && bytes.len() == 4 {
            Controller { rows: (high_first(bytes, 0), high_first(bytes, 2)), ..self }
        } else if opcode == 0x2c && bytes.len() == 0 {
            Controller { cursor: 0, ..self }
        } else if opcode == 0x10 && bytes.len() == 0 {
            Controller { asleep: true, ..self }
        } else if opcode == 0x11 && bytes.len() == 0 {
            Controller { asleep: false, waited_ms: 0, ..self }
        } else if opcode == 0x28 && bytes.len() == 0 {
            Controller { lit: false, ..self }
        } else if opcode == 0x29 && bytes.len() == 0 {
            Controller { lit: true, hurried: self.hurried || self.waited_ms < 120, ..self }
        } else if bytes.len() == 1 {
            Controller { registers: self.registers.insert(opcode, bytes[0]), ..self }
        } else {
            self
        }
    }

    /// The controller after a write. Pixels come either behind the instruction
    /// to go on writing memory, or with nothing before them, to go on where the
    /// write before them ended.
    pub open spec fn after_transfer(self, transfer: Transfer) -> Controller {
        if transfer.data is Single && transfer.command == Some(0x02u16) && transfer.address is Some
            && transfer.address->0 as int % 256 == 0 {
            self.after_command(transfer.address->0 as int / 256, transfer.payload.parameters())
        } else if transfer.data is Quad && ((transfer.command == Some(0x32u16) && transfer.address
            == Some(0x00_3c_00u32)) || (transfer.command is None && transfer.address is None)) {
            self.with_pixels(transfer.payload, pixels_in(transfer.payload))
        } else {
            self
        }
    }

    /// The controller after an operation.
    pub open spec fn after(self, op: BusOp) -> Controller {
        match op {
            BusOp::Send(transfer) => self.after_transfer(transfer),
            BusOp::Start(transfer) => self.after_transfer(transfer),
            BusOp::DelayMs(ms) => Controller { waited_ms: self.waited_ms + ms, ..self },
            _ => self,
        }
    }

    /// The controller after some operations.
    pub open spec fn after_all(self, ops: Seq<BusOp>) -> Controller
        decreases ops.len(),
    {
        if ops.len() == 0 {
            self
        } else {
            self.after_all(ops.drop_last()).after(ops.last())
        }
    }

    /// Doing one list of operations after another is doing them joined.
    pub proof fn lemma_joined(self, head: Seq<BusOp>, tail: Seq<BusOp>)
        ensures
            self.after_all(head + tail) == self.after_all(head).after_all(tail),
        decreases tail.len(),
    {
        if tail.len() == 0 {
            assert(head + tail =~= head);
        } else {
            assert((head + tail).drop_last() =~= head + tail.drop_last());
            assert((head + tail).last() == tail.last());
            self.lemma_joined(head, tail.drop_last());
        }
    }

    /// One operation is done as it is.
    pub proof fn lemma_single(self, op: BusOp)
        ensures
            self.after_all(seq![op]) == self.after(op),
    {
        reveal_with_fuel(Controller::after_all, 2);
        assert(seq![op].drop_last() =~= Seq::<BusOp>::empty());
    }

    /// A command does what its opcode says.
    pub proof fn lemma_command(self, opcode: u8, payload: Payload)
        ensures
            self.after_all(panel::command_ops(opcode, payload)) == self.after_command(
                opcode as int,
                payload.parameters(),
            ),
    {
        let ops = panel::command_ops(opcode, payload);
        reveal_with_fuel(Controller::after_all, 4);
        assert(ops.drop_last() =~= seq![ops[0], ops[1]]);
        assert(seq![ops[0], ops[1]].drop_last() =~= seq![ops[0]]);
        assert(seq![ops[0]].drop_last() =~= Seq::<BusOp>::empty());
        assert((opcode * 256) as u32 as int / 256 == opcode);
        assert((opcode * 256) as u32 as int % 256 == 0);
    }

    /// Pixels fill the window row by row: a place in it that lies between the
    /// first and the last pixel written holds its own, and no other changes.
    pub proof fn lemma_pixels(self, payload: Payload, count: int, column: int, row: int)
        requires
            0 <= count,
            0 <= self.cursor,
            1 <= self.window_width(),
        ensures
            ({
                let after = self.with_pixels(payload, count);
                let number = (row - self.rows.0) * self.window_width() + (column - self.columns.0);
                &&& after == (Controller {
                    cursor: self.cursor + count,
                    memory: after.memory,
                    ..self
                })
                &&& if self.columns.0 <= column <= self.columns.1 && self.cursor <= number
                    < self.cursor + count {
                    after.memory.contains_pair((column, row), source_of(
                        payload,
                        number - self.cursor,
                    ))
                } else {
                    same_at(self.memory, after.memory, column, row)
                }
            }),
        decreases count,
    {
        if count > 0 {
            self.lemma_pixels(payload, count - 1, column, row);
            let before = self.with_pixels(payload, count - 1);
            let width = self.window_width();
            let number = (row - self.rows.0) * width + (column - self.columns.0);
            let written = self.cursor + count - 1;
            let place = before.place();
            assert(place == (self.columns.0 + written % width, self.rows.0 + written / width));
            vstd::arithmetic::div_mod::lemma_fundamental_div_mod(written, width);
            assert((written / width) * width == width * (written / width)) by (nonlinear_arith);
            if self.columns.0 <= column <= self.columns.1 && number == written {
                vstd::arithmetic::div_mod::lemma_fundamental_div_mod_converse(
                    written,
                    width,
                    row - self.rows.0,
                    column - self.columns.0,
                );
                assert(place == (column, row));
            } else if place == (column, row) {
                vstd::arithmetic::div_mod::lemma_mod_bound(written, width);
                assert(number == written);
            }
        }
    }
}

/// Two memories agree at a place.
pub open spec fn same_at(
    a: Map<(int, int), int>,
    b: Map<(int, int), int>,
    column: int,
    row: int,
) -> bool {
    &&& a.dom().contains((column, row)) <==> b.dom().contains((column, row))
    &&& a.dom().contains((column, row)) ==> a[(column, row)] == b[(column, row)]
}

/// The commands that confine pixels to a rectangle set exactly its window: the
/// columns from `x` on, as many as it is wide, and the rows from `y` on, as many
/// as it is high. Nothing else changes.
pub proof fn law_windows_are_the_rectangle(
    controller: Controller,
    x: u16,
    y: u16,
    width: u16,
    height: u16,
)
    requires
        1 <= width,
        1 <= height,
        x + width <= u16::MAX,
        y + height <= u16::MAX,
    ensures
        controller.after_all(panel::window_ops(x, y, width, height)) == (Controller {
            columns: (x as int, x + width - 1),
            rows: (y as int, y + height - 1),
            ..controller
        }),
{
    let columns = Payload::Bounds { first: x, last: (x + width - 1) as u16 };
    let rows = Payload::Bounds { first: y, last: (y + height - 1) as u16 };
    controller.lemma_joined(
        panel::command_ops(panel::SET_COLUMN_ADDRESS, columns),
        panel::command_ops(panel::SET_PAGE_ADDRESS, rows),
    );
    controller.lemma_command(panel::SET_COLUMN_ADDRESS, columns);
    controller.after_all(
        panel::command_ops(panel::SET_COLUMN_ADDRESS, columns),
    ).lemma_command(panel::SET_PAGE_ADDRESS, rows);
    lemma_high_first(x, (x + width - 1) as u16);
    lemma_high_first(y, (y + height - 1) as u16);
}

/// Bounds are read as they were sent.
proof fn lemma_high_first(first: u16, last: u16)
    ensures
        ({
            let bytes = Payload::Bounds { first, last }.parameters();
            &&& bytes.len() == 4
            &&& high_first(bytes, 0) == first
            &&& high_first(bytes, 2) == last
        }),
{
}

/// Starting a memory write begins the window anew.
pub proof fn lemma_write_starts(controller: Controller)
    ensures
        controller.after_all(
            panel::command_ops(panel::MEMORY_WRITE_START, Payload::Nothing),
        ) == (Controller { cursor: 0, ..controller }),
{
    controller.lemma_command(panel::MEMORY_WRITE_START, Payload::Nothing);
}

/// A transfer of pixels writes them, whether it is the first or goes on.
pub proof fn lemma_pixel_transfer(controller: Controller, first: bool, payload: Payload)
    ensures
        controller.after_transfer(panel::pixel_transfer(first, payload)) == controller.with_pixels(
            payload,
            pixels_in(payload),
        ),
{
}

} // verus!
