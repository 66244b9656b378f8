//! The display panel's bus protocol.
//!
//! The controller takes an 8-bit operation followed by a 24-bit register
//! address. Commands and their parameters travel on one data line, pixels on
//! all four. Everything asked of the panel is written down as bus operations,
//! which a driver performs in order. Where a write fails, the driver gives up
//! the rest and performs what [`release`] says.

use vstd::prelude::*;

verus! {

/// Dimmest setting the interface offers. The panel is legible below this, but
/// the steppers would otherwise walk it down to fully black.
pub const MINIMUM_BRIGHTNESS_PERCENT: u8 = 5;

pub const QSPI_WRITE_COMMAND: u16 = 0x02;

pub const QSPI_WRITE_PIXELS: u16 = 0x32;

pub const QSPI_MEMORY_CONTINUE_ADDRESS: u32 = 0x00_3c_00;

pub const SLEEP_IN: u8 = 0x10;

pub const SLEEP_OUT: u8 = 0x11;

pub const DISPLAY_INVERSION_OFF: u8 = 0x20;

pub const DISPLAY_OFF: u8 = 0x28;

pub const DISPLAY_ON: u8 = 0x29;

pub const SET_COLUMN_ADDRESS: u8 = 0x2a;

pub const SET_PAGE_ADDRESS: u8 = 0x2b;

pub const MEMORY_WRITE_START: u8 = 0x2c;

pub const MEMORY_ACCESS_CONTROL: u8 = 0x36;

pub const INTERFACE_PIXEL_FORMAT: u8 = 0x3a;

pub const WRITE_BRIGHTNESS_NORMAL: u8 = 0x51;

pub const WRITE_CONTROL_DISPLAY_1: u8 = 0x53;

pub const WRITE_CONTRAST_ENHANCEMENT: u8 = 0x58;

pub const WRITE_BRIGHTNESS_HBM: u8 = 0x63;

pub const SPI_MODE_CONTROL: u8 = 0xc4;

/// Selects the manufacturer's command page.
pub const COMMAND_PAGE: u8 = 0xfe;

/// The data lines a payload travels on.
#[derive(Debug, Clone, Copy, PartialEq, Eq, Structural)]
pub enum Lines {
    Single,
    Quad,
}

/// What a transfer carries after its command and address.
#[derive(Debug, Clone, Copy, PartialEq, Eq, Structural)]
pub enum Payload {
    /// A command without parameters.
    Nothing,
    /// One parameter byte.
    Byte(u8),
    /// The first and last coordinate of an address window, high bytes first.
    Bounds { first: u16, last: u16 },
    /// The bytes of consecutive pixels of a framebuffer.
    Pixels { begin: usize, end: usize },
    /// Bytes gathered row by row from a buffer with the given stride.
    Rows { begin: usize, row_bytes: usize, rows: usize, stride: usize },
}

/// One half-duplex write. Command and address travel on one line.
#[derive(Debug, Clone, Copy, PartialEq, Eq, Structural)]
pub struct Transfer {
    pub data: Lines,
    /// An 8-bit operation, where the transfer has one.
    pub command: Option<u16>,
    /// A 24-bit register address, where the transfer has one.
    pub address: Option<u32>,
    pub payload: Payload,
}

/// Something the driver does.
#[derive(Debug, Clone, Copy, PartialEq, Eq, Structural)]
pub enum BusOp {
    /// Pull chip select low.
    Select,
    /// Raise chip select.
    Deselect,
    /// Write and wait until the write is done.
    Send(Transfer),
    /// Begin a write in the background.
    Start(Transfer),
    /// Wait for the write in the background.
    Finish,
    ResetHigh,
    ResetLow,
    DelayMs(u32),
}

/// The bus reports on writes alone.
pub open spec fn can_fail(op: BusOp) -> bool {
    op is Send || op is Start
}

/// What ends a list of operations: a write that failed leaves the panel
/// selected, and chip select is raised in place of the rest.
pub open spec fn release_ops(failed: bool) -> Seq<BusOp> {
    if failed {
        seq![BusOp::Deselect]
    } else {
        Seq::empty()
    }
}

/// What is left to do on the bus once a list of operations came to its end, or
/// to a write that failed.
pub fn release(failed: bool) -> (ops: Vec<BusOp>)
    ensures
        ops@ == release_ops(failed),
{
    let mut ops: Vec<BusOp> = Vec::new();
    if failed {
        ops.push(BusOp::Deselect);
    }
    assert(ops@ =~= release_ops(failed));
    ops
}

impl Payload {
    /// The parameter bytes of a command.
    pub open spec fn parameters(self) -> Seq<u8> {
        match self {
            Payload::Byte(byte) => seq![byte],
            Payload::Bounds { first, last } => seq![
                (first / 256) as u8,
                (first % 256) as u8,
                (last / 256) as u8,
                (last % 256) as u8,
            ],
            _ => Seq::empty(),
        }
    }

    /// The parameter bytes of a command; pixels are taken from their buffer.
    pub fn parameter_bytes(self) -> (bytes: Vec<u8>)
        ensures
            bytes@ == self.parameters(),
    {
        let mut bytes: Vec<u8> = Vec::new();
        match self {
            Payload::Byte(byte) => {
                bytes.push(byte);
            },
            Payload::Bounds { first, last } => {
                bytes.push((first / 256) as u8);
                bytes.push((first % 256) as u8);
                bytes.push((last / 256) as u8);
                bytes.push((last % 256) as u8);
            },
            _ => {},
        }
        assert(bytes@ =~= self.parameters());
        bytes
    }
}

/// The transfer of a command.
pub open spec fn command_transfer(opcode: u8, payload: Payload) -> Transfer {
    Transfer {
        data: Lines::Single,
        command: Some(QSPI_WRITE_COMMAND),
        address: Some((opcode * 256) as u32),
        payload,
    }
}

/// A command on its own: select, send, release.
pub open spec fn command_ops(opcode: u8, payload: Payload) -> Seq<BusOp> {
    seq![BusOp::Select, BusOp::Send(command_transfer(opcode, payload)), BusOp::Deselect]
}

/// Append a command.
pub(crate) fn write_command(ops: &mut Vec<BusOp>, opcode: u8, payload: Payload)
    ensures
        final(ops)@ == old(ops)@ + command_ops(opcode, payload),
{
    ops.push(BusOp::Select);
    ops.push(
        BusOp::Send(
            Transfer {
                data: Lines::Single,
                command: Some(QSPI_WRITE_COMMAND),
                address: Some(opcode as u32 * 256),
                payload,
            },
        ),
    );
    ops.push(BusOp::Deselect);
    assert(ops@ =~= old(ops)@ + command_ops(opcode, payload));
}

/// The commands that confine the following pixels to a rectangle.
pub open spec fn window_ops(x: u16, y: u16, width: u16, height: u16) -> Seq<BusOp> {
    command_ops(
        SET_COLUMN_ADDRESS,
        Payload::Bounds { first: x, last: (x + width - 1) as u16 },
    ) + command_ops(
        SET_PAGE_ADDRESS,
        Payload::Bounds { first: y, last: (y + height - 1) as u16 },
    )
}

/// Append the commands that confine the following pixels to a rectangle.
pub(crate) fn set_address_window(ops: &mut Vec<BusOp>, x: u16, y: u16, width: u16, height: u16)
    requires
        1 <= width,
        1 <= height,
        x + width <= u16::MAX,
        y + height <= u16::MAX,
    ensures
        final(ops)@ == old(ops)@ + window_ops(x, y, width, height),
{
    let end_x: u16 = x + width - 1;
    let end_y: u16 = y + height - 1;
    write_command(ops, SET_COLUMN_ADDRESS, Payload::Bounds { first: x, last: end_x });
    write_command(ops, SET_PAGE_ADDRESS, Payload::Bounds { first: y, last: end_y });
    assert(ops@ =~= old(ops)@ + window_ops(x, y, width, height));
}

/// The first transfer of a rectangle's pixels carries an operation and an
/// address; the controller keeps filling the window across the ones that
/// follow, which carry neither.
pub open spec fn pixel_transfer(first: bool, payload: Payload) -> Transfer {
    Transfer {
        data: Lines::Quad,
        command: if first {
            Some(QSPI_WRITE_PIXELS)
        } else {
            None
        },
        address: if first {
            Some(QSPI_MEMORY_CONTINUE_ADDRESS)
        } else {
            None
        },
        payload,
    }
}

/// A transfer of pixels.
pub(crate) fn pixels(first: bool, payload: Payload) -> (transfer: Transfer)
    ensures
        transfer == pixel_transfer(first, payload),
{
    if first {
        Transfer {
            data: Lines::Quad,
            command: Some(QSPI_WRITE_PIXELS),
            address: Some(QSPI_MEMORY_CONTINUE_ADDRESS),
            payload,
        }
    } else {
        Transfer { data: Lines::Quad, command: None, address: None, payload }
    }
}

/// Power-up reset of the panel.
pub open spec fn reset_ops() -> Seq<BusOp> {
    seq![
        BusOp::Deselect,
        BusOp::ResetHigh,
        BusOp::DelayMs(10),
        BusOp::ResetLow,
        BusOp::DelayMs(200),
        BusOp::ResetHigh,
        BusOp::DelayMs(200),
    ]
}

/// The panel maker's initialization commands, with the rests they need.
pub open spec fn configure_ops() -> Seq<BusOp> {
    command_ops(SLEEP_OUT, Payload::Nothing) + seq![BusOp::DelayMs(120)] + command_ops(
        COMMAND_PAGE,
        Payload::Byte(0x00),
    ) + command_ops(SPI_MODE_CONTROL, Payload::Byte(0x80)) + command_ops(
        INTERFACE_PIXEL_FORMAT,
        Payload::Byte(0x55),
    ) + command_ops(WRITE_CONTROL_DISPLAY_1, Payload::Byte(0x20)) + command_ops(
        WRITE_BRIGHTNESS_HBM,
        Payload::Byte(0xff),
    ) + command_ops(DISPLAY_INVERSION_OFF, Payload::Nothing) + command_ops(
        DISPLAY_ON,
        Payload::Nothing,
    ) + command_ops(WRITE_BRIGHTNESS_NORMAL, Payload::Byte(0xd0)) + command_ops(
        WRITE_CONTRAST_ENHANCEMENT,
        Payload::Byte(0x00),
    ) + command_ops(MEMORY_ACCESS_CONTROL, Payload::Byte(0xa0)) + seq![BusOp::DelayMs(10)]
}

/// Reset the panel.
pub fn reset() -> (ops: Vec<BusOp>)
    ensures
        ops@ == reset_ops(),
{
    let mut ops: Vec<BusOp> = Vec::new();
    ops.push(BusOp::Deselect);
    ops.push(BusOp::ResetHigh);
    ops.push(BusOp::DelayMs(10));
    ops.push(BusOp::ResetLow);
    ops.push(BusOp::DelayMs(200));
    ops.push(BusOp::ResetHigh);
    ops.push(BusOp::DelayMs(200));
    assert(ops@ =~= reset_ops());
    ops
}

/// Configure the panel after its reset.
pub fn configure() -> (ops: Vec<BusOp>)
    ensures
        ops@ == configure_ops(),
{
    let mut ops: Vec<BusOp> = Vec::new();
    write_command(&mut ops, SLEEP_OUT, Payload::Nothing);
    let ghost woken = ops@;
    ops.push(BusOp::DelayMs(120));
    assert(ops@ =~= woken + seq![BusOp::DelayMs(120)]);
    write_command(&mut ops, COMMAND_PAGE, Payload::Byte(0x00));
    write_command(&mut ops, SPI_MODE_CONTROL, Payload::Byte(0x80));
    write_command(&mut ops, INTERFACE_PIXEL_FORMAT, Payload::Byte(0x55));
    write_command(&mut ops, WRITE_CONTROL_DISPLAY_1, Payload::Byte(0x20));
    write_command(&mut ops, WRITE_BRIGHTNESS_HBM, Payload::Byte(0xff));
    write_command(&mut ops, DISPLAY_INVERSION_OFF, Payload::Nothing);
    write_command(&mut ops, DISPLAY_ON, Payload::Nothing);
    write_command(&mut ops, WRITE_BRIGHTNESS_NORMAL, Payload::Byte(0xd0));
    write_command(&mut ops, WRITE_CONTRAST_ENHANCEMENT, Payload::Byte(0x00));
    // The board's panel is mounted turned, which overrides the generic setting.
    write_command(&mut ops, MEMORY_ACCESS_CONTROL, Payload::Byte(0xa0));
    let ghost configured = ops@;
    ops.push(BusOp::DelayMs(10));
    assert(ops@ =~= configured + seq![BusOp::DelayMs(10)]);
    ops
}

/// Setting the brightness register.
pub open spec fn brightness_ops(brightness: u8) -> Seq<BusOp> {
    command_ops(WRITE_BRIGHTNESS_NORMAL, Payload::Byte(brightness))
}

/// Going to sleep.
pub open spec fn sleep_ops() -> Seq<BusOp> {
    command_ops(DISPLAY_OFF, Payload::Nothing) + command_ops(SLEEP_IN, Payload::Nothing)
}

/// Leaving sleep.
pub open spec fn sleep_out_ops() -> Seq<BusOp> {
    command_ops(SLEEP_OUT, Payload::Nothing)
}

/// Lighting the panel.
pub open spec fn display_on_ops() -> Seq<BusOp> {
    command_ops(DISPLAY_ON, Payload::Nothing)
}

/// Set the brightness register.
pub fn set_brightness(brightness: u8) -> (ops: Vec<BusOp>)
    ensures
        ops@ == command_ops(WRITE_BRIGHTNESS_NORMAL, Payload::Byte(brightness)),
        ops@ == brightness_ops(brightness),
{
    let mut ops: Vec<BusOp> = Vec::new();
    write_command(&mut ops, WRITE_BRIGHTNESS_NORMAL, Payload::Byte(brightness));
    ops
}

/// Blank the panel and enter its low-power sleep mode.
pub fn sleep() -> (ops: Vec<BusOp>)
    ensures
        ops@ == command_ops(DISPLAY_OFF, Payload::Nothing) + command_ops(
            SLEEP_IN,
            Payload::Nothing,
        ),
        ops@ == sleep_ops(),
{
    let mut ops: Vec<BusOp> = Vec::new();
    write_command(&mut ops, DISPLAY_OFF, Payload::Nothing);
    write_command(&mut ops, SLEEP_IN, Payload::Nothing);
    ops
}

/// Leave low-power sleep mode.
///
/// The caller must wait at least 120 ms before [`display_on`].
pub fn wake() -> (ops: Vec<BusOp>)
    ensures
        ops@ == command_ops(SLEEP_OUT, Payload::Nothing),
        ops@ == sleep_out_ops(),
{
    let mut ops: Vec<BusOp> = Vec::new();
    write_command(&mut ops, SLEEP_OUT, Payload::Nothing);
    ops
}

/// Enable panel output after the sleep-out delay has elapsed.
pub fn display_on() -> (ops: Vec<BusOp>)
    ensures
        ops@ == command_ops(DISPLAY_ON, Payload::Nothing),
        ops@ == display_on_ops(),
{
    let mut ops: Vec<BusOp> = Vec::new();
    write_command(&mut ops, DISPLAY_ON, Payload::Nothing);
    ops
}

/// The register value of a percentage: rounded to the nearest of 255 steps, and
/// never below the dimmest setting.
pub open spec fn register_of(percent: int) -> int {
    let held = if percent < MINIMUM_BRIGHTNESS_PERCENT {
        MINIMUM_BRIGHTNESS_PERCENT as int
    } else if percent > 100 {
        100
    } else {
        percent
    };
    (held * 255 + 50) / 100
}

/// Map a percentage onto the panel's brightness register.
pub fn brightness_register(percent: u8) -> (register: u8)
    ensures
        register == register_of(percent as int),
{
    let held: u8 = if percent < MINIMUM_BRIGHTNESS_PERCENT {
        MINIMUM_BRIGHTNESS_PERCENT
    } else if percent > 100 {
        100
    } else {
        percent
    };
    ((held as u16 * 255 + 50) / 100) as u8
}

/// A brighter setting never gives a lower register value, full brightness gives
/// the highest one and no setting turns the panel black.
pub proof fn law_brightness_ascends(lower: u8, higher: u8)
    requires
        lower <= higher,
    ensures
        0 < register_of(lower as int) <= register_of(higher as int) <= 255,
        register_of(100) == 255,
{
}

/// The state of the bus as a driver sees it.
pub struct Bus {
    pub selected: bool,
    /// A write runs in the background.
    pub busy: bool,
}

impl Bus {
    /// No one uses the bus.
    pub open spec fn idle() -> Bus {
        Bus { selected: false, busy: false }
    }

    /// A write runs in the background, with the panel selected.
    pub open spec fn pending() -> Bus {
        Bus { selected: true, busy: true }
    }

    /// The operation may be done now: nothing but waiting is done during a
    /// write, and writes happen only while the panel is selected.
    pub open spec fn allows(self, op: BusOp) -> bool {
        match op {
            BusOp::Select => !self.busy && !self.selected,
            BusOp::Deselect => !self.busy,
            BusOp::Send(_) => self.selected && !self.busy,
            BusOp::Start(_) => self.selected && !self.busy,
            BusOp::Finish => self.busy,
            _ => !self.busy && !self.selected,
        }
    }

    /// The bus after an operation.
    pub open spec fn after(self, op: BusOp) -> Bus {
        match op {
            BusOp::Select => Bus { selected: true, ..self },
            BusOp::Deselect => Bus { selected: false, ..self },
            BusOp::Start(_) => Bus { busy: true, ..self },
            BusOp::Finish => Bus { busy: false, ..self },
            _ => self,
        }
    }

    /// The bus after some operations.
    pub open spec fn after_all(self, ops: Seq<BusOp>) -> Bus
        decreases ops.len(),
    {
        if ops.len() == 0 {
            self
        } else {
            self.after_all(ops.drop_last()).after(ops.last())
        }
    }

    /// Each operation may be done when its turn comes.
    pub open spec fn allows_all(self, ops: Seq<BusOp>) -> bool
        decreases ops.len(),
    {
        ops.len() == 0 || self.allows_all(ops.drop_last()) && self.after_all(
            ops.drop_last(),
        ).allows(ops.last())
    }

    /// Doing one list of operations after another is doing them joined.
    pub proof fn lemma_joined(self, head: Seq<BusOp>, tail: Seq<BusOp>)
        ensures
            self.after_all(head + tail) == self.after_all(head).after_all(tail),
            self.allows_all(head + tail) == (self.allows_all(head) && self.after_all(
                head,
            ).allows_all(tail)),
        decreases tail.len(),
    {
        if tail.len() == 0 {
            assert(head + tail =~= head);
        } else {
            assert((head + tail).drop_last() =~= head + tail.drop_last());
            assert((head + tail).last() == tail.last());
            self.lemma_joined(head, tail.drop_last());
        }
    }
}

/// Where operations are in order, so is each of their beginnings, and the one
/// that follows it.
proof fn lemma_in_order(bus: Bus, ops: Seq<BusOp>, done: int)
    requires
        bus.allows_all(ops),
        0 <= done < ops.len(),
    ensures
        bus.allows_all(ops.take(done)),
        bus.after_all(ops.take(done)).allows(ops[done]),
    decreases ops.len(),
{
    let before = ops.drop_last();
    if done == ops.len() - 1 {
        assert(ops.take(done) =~= before);
    } else {
        lemma_in_order(bus, before, done);
        assert(before.take(done) =~= ops.take(done));
    }
}

/// A write that fails leaves the panel released: whatever was done in order
/// before it, raising chip select in place of the rest is in order too and
/// leaves the bus to no one.
pub proof fn law_failed_writes_release_the_panel(bus: Bus, ops: Seq<BusOp>, failed: int)
    requires
        bus.allows_all(ops),
        0 <= failed < ops.len(),
        can_fail(ops[failed]),
    ensures
        bus.allows_all(ops.take(failed) + release_ops(true)),
        bus.after_all(ops.take(failed) + release_ops(true)) == Bus::idle(),
{
    lemma_in_order(bus, ops, failed);
    let done = ops.take(failed);
    let ended = done + release_ops(true);
    assert(ended.drop_last() =~= done);
    assert(ended.last() == BusOp::Deselect);
}

/// A command needs an idle bus and leaves it idle.
pub proof fn lemma_command_keeps_the_bus_idle(opcode: u8, payload: Payload)
    ensures
        Bus::idle().allows_all(command_ops(opcode, payload)),
        Bus::idle().after_all(command_ops(opcode, payload)) == Bus::idle(),
{
    let ops = command_ops(opcode, payload);
    reveal_with_fuel(Bus::after_all, 4);
    reveal_with_fuel(Bus::allows_all, 4);
    assert(ops.drop_last() =~= seq![ops[0], ops[1]]);
    assert(seq![ops[0], ops[1]].drop_last() =~= seq![ops[0]]);
    assert(seq![ops[0]].drop_last() =~= Seq::<BusOp>::empty());
}

/// The register is as bright as the percentage says, to the nearest step:
/// within half a percent of the highest register. What is darker than the
/// interface offers counts as its darkest, what is brighter as full.
pub proof fn law_registers_are_the_percentage(percent: u8)
    ensures
        5 <= percent <= 100 ==> -50 <= 100 * register_of(percent as int) - 255 * percent <= 50,
        percent < 5 ==> register_of(percent as int) == register_of(5),
        percent > 100 ==> register_of(percent as int) == register_of(100),
{
}

/// How long the reset line is held low, and how long the panel then rests,
/// after some operations: `None` while the line was not low yet.
pub open spec fn reset_rests(ops: Seq<BusOp>) -> (Option<int>, Option<int>)
    decreases ops.len(),
{
    if ops.len() == 0 {
        (None, None)
    } else {
        let before = reset_rests(ops.drop_last());
        match (ops.last(), before) {
            (BusOp::ResetLow, _) => (Some(0), None),
            (BusOp::ResetHigh, (Some(low), None)) => (Some(low), Some(0)),
            (BusOp::DelayMs(ms), (Some(low), None)) => (Some(low + ms), None),
            (BusOp::DelayMs(ms), (Some(low), Some(rest))) => (Some(low), Some(rest + ms)),
            _ => before,
        }
    }
}

/// The level of the reset line after some operations, how long it has had that,
/// and how long it was high before it was last pulled low.
pub open spec fn reset_line(ops: Seq<BusOp>) -> (Option<bool>, int, int)
    decreases ops.len(),
{
    if ops.len() == 0 {
        (None, 0, 0)
    } else {
        let before = reset_line(ops.drop_last());
        match ops.last() {
            BusOp::ResetHigh => (Some(true), 0, before.2),
            BusOp::ResetLow => (
                Some(false),
                0,
                if before.0 == Some(true) {
                    before.1
                } else {
                    0
                },
            ),
            BusOp::DelayMs(ms) => (before.0, before.1 + ms, before.2),
            _ => before,
        }
    }
}

/// A reset has the line high for ten milliseconds, pulls it low and lets it go,
/// with a fifth of a second for each, while the panel is not selected.
pub proof fn law_resets_give_the_panel_time()
    ensures
        reset_rests(reset_ops()) == (Some(200int), Some(200int)),
        reset_line(reset_ops()) == (Some(true), 200int, 10int),
        Bus::idle().allows_all(reset_ops()),
        Bus::idle().after_all(reset_ops()) == Bus::idle(),
{
    let ops = reset_ops();
    reveal_with_fuel(reset_rests, 9);
    reveal_with_fuel(reset_line, 9);
    reveal_with_fuel(Bus::after_all, 9);
    reveal_with_fuel(Bus::allows_all, 9);
    assert(ops.drop_last() =~= ops.take(6));
    assert(ops.take(6).drop_last() =~= ops.take(5));
    assert(ops.take(5).drop_last() =~= ops.take(4));
    assert(ops.take(4).drop_last() =~= ops.take(3));
    assert(ops.take(3).drop_last() =~= ops.take(2));
    assert(ops.take(2).drop_last() =~= ops.take(1));
    assert(ops.take(1).drop_last() =~= ops.take(0));
}

} // verus!
