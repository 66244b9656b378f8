//! What the panel does when it is told to sleep, to wake and to shine.

use crate::bringup::screen;
use crate::co5300;
use crate::controller::Controller;
use crate::panel;
use crate::panel::{BusOp, Payload};
use vstd::prelude::*;

verus! {

/// Waiting for a write in the background changes nothing the panel does: what
/// is asked of it next has the effect that it has on its own.
pub proof fn law_waiting_changes_nothing(controller: Controller, pending: bool, ops: Seq<BusOp>)
    ensures
        controller.after_all(co5300::wait_ops(pending) + ops) == controller.after_all(ops),
{
    let wait = co5300::wait_ops(pending);
    controller.lemma_joined(wait, ops);
    reveal_with_fuel(Controller::after_all, 3);
    if pending {
        assert(wait.drop_last() =~= seq![wait[0]]);
        assert(seq![wait[0]].drop_last() =~= Seq::<BusOp>::empty());
    }
}

/// Going to sleep turns the panel dark and puts its controller to sleep, and
/// what it holds is kept.
pub proof fn law_sleep_is_dark(controller: Controller)
    ensures
        controller.after_all(panel::sleep_ops()) == (Controller {
            lit: false,
            asleep: true,
            ..controller
        }),
{
    let dark = panel::command_ops(panel::DISPLAY_OFF, Payload::Nothing);
    controller.lemma_joined(dark, panel::command_ops(panel::SLEEP_IN, Payload::Nothing));
    controller.lemma_command(panel::DISPLAY_OFF, Payload::Nothing);
    controller.after_all(dark).lemma_command(panel::SLEEP_IN, Payload::Nothing);
}

/// Leaving sleep wakes the controller, whose rest begins then, and shows
/// nothing yet.
pub proof fn law_leaving_sleep_wakes(controller: Controller)
    ensures
        controller.after_all(panel::sleep_out_ops()) == (Controller {
            asleep: false,
            waited_ms: 0,
            ..controller
        }),
{
    controller.lemma_command(panel::SLEEP_OUT, Payload::Nothing);
}

/// Lighting the panel shows what it holds.
pub proof fn law_display_on_is_lit(controller: Controller)
    ensures
        ({
            let after = controller.after_all(panel::display_on_ops());
            &&& after.lit
            &&& after.hurried == (controller.hurried || controller.waited_ms < 120)
            &&& after == (Controller { lit: true, hurried: after.hurried, ..controller })
        }),
{
    controller.lemma_command(panel::DISPLAY_ON, Payload::Nothing);
}

/// Setting the brightness sets the register of the brightness, to the value
/// that was asked for, and no other.
pub proof fn law_brightness_reaches_its_register(controller: Controller, brightness: u8)
    ensures
        controller.after_all(panel::brightness_ops(brightness)) == (Controller {
            registers: controller.registers.insert(0x51, brightness),
            ..controller
        }),
{
    controller.lemma_command(panel::WRITE_BRIGHTNESS_NORMAL, Payload::Byte(brightness));
}

/// A configured panel is awake and lit, not sooner than it can bear, takes
/// pixels of two bytes, is turned as it is mounted, and has the brightness and
/// the display controls that its maker prescribes.
pub proof fn law_configured_panels_shine(controller: Controller)
    ensures
        ({
            let after = controller.after_all(panel::configure_ops());
            &&& !after.asleep
            &&& after.lit
            &&& after.hurried == controller.hurried
            &&& after.registers == controller.registers.insert(0xfe, 0x00).insert(
                0xc4,
                0x80,
            ).insert(0x3a, 0x55).insert(0x53, 0x20).insert(0x63, 0xff).insert(0x51, 0xd0).insert(
                0x58,
                0x00,
            ).insert(0x36, 0xa0)
            &&& after.memory == controller.memory
            &&& after.columns == controller.columns
            &&& after.rows == controller.rows
        }),
{
    let a = panel::command_ops(panel::SLEEP_OUT, Payload::Nothing);
    let b = a + seq![BusOp::DelayMs(120)];
    let c = b + panel::command_ops(panel::COMMAND_PAGE, Payload::Byte(0x00));
    let d = c + panel::command_ops(panel::SPI_MODE_CONTROL, Payload::Byte(0x80));
    let e = d + panel::command_ops(panel::INTERFACE_PIXEL_FORMAT, Payload::Byte(0x55));
    let f = e + panel::command_ops(panel::WRITE_CONTROL_DISPLAY_1, Payload::Byte(0x20));
    let g = f + panel::command_ops(panel::WRITE_BRIGHTNESS_HBM, Payload::Byte(0xff));
    let h = g + panel::command_ops(panel::DISPLAY_INVERSION_OFF, Payload::Nothing);
    let i = h + panel::command_ops(panel::DISPLAY_ON, Payload::Nothing);
    let j = i + panel::command_ops(panel::WRITE_BRIGHTNESS_NORMAL, Payload::Byte(0xd0));
    let k = j + panel::command_ops(panel::WRITE_CONTRAST_ENHANCEMENT, Payload::Byte(0x00));
    let l = k + panel::command_ops(panel::MEMORY_ACCESS_CONTROL, Payload::Byte(0xa0));
    let m = l + seq![BusOp::DelayMs(10)];
    assert(m == panel::configure_ops());
    controller.lemma_command(panel::SLEEP_OUT, Payload::Nothing);
    lemma_then_rest(controller, a, 120);
    lemma_then_command(controller, b, panel::COMMAND_PAGE, Payload::Byte(0x00));
    lemma_then_command(controller, c, panel::SPI_MODE_CONTROL, Payload::Byte(0x80));
    lemma_then_command(controller, d, panel::INTERFACE_PIXEL_FORMAT, Payload::Byte(0x55));
    lemma_then_command(controller, e, panel::WRITE_CONTROL_DISPLAY_1, Payload::Byte(0x20));
    lemma_then_command(controller, f, panel::WRITE_BRIGHTNESS_HBM, Payload::Byte(0xff));
    lemma_then_command(controller, g, panel::DISPLAY_INVERSION_OFF, Payload::Nothing);
    lemma_then_command(controller, h, panel::DISPLAY_ON, Payload::Nothing);
    lemma_then_command(controller, i, panel::WRITE_BRIGHTNESS_NORMAL, Payload::Byte(0xd0));
    lemma_then_command(controller, j, panel::WRITE_CONTRAST_ENHANCEMENT, Payload::Byte(0x00));
    lemma_then_command(controller, k, panel::MEMORY_ACCESS_CONTROL, Payload::Byte(0xa0));
    lemma_then_rest(controller, l, 10);
}

proof fn lemma_then_command(
    controller: Controller,
    before: Seq<BusOp>,
    opcode: u8,
    payload: Payload,
)
    ensures
        controller.after_all(before + panel::command_ops(opcode, payload)) == controller.after_all(
            before,
        ).after_command(opcode as int, payload.parameters()),
{
    controller.lemma_joined(before, panel::command_ops(opcode, payload));
    controller.after_all(before).lemma_command(opcode, payload);
}

proof fn lemma_then_rest(controller: Controller, before: Seq<BusOp>, ms: u32)
    ensures
        controller.after_all(before + seq![BusOp::DelayMs(ms)]) == controller.after_all(
            before,
        ).after(BusOp::DelayMs(ms)),
{
    controller.lemma_joined(before, seq![BusOp::DelayMs(ms)]);
    controller.after_all(before).lemma_single(BusOp::DelayMs(ms));
}

/// Waking ends with a panel that is awake and lit as brightly as was asked, to
/// the nearest step of the register, and that was not lit sooner than it can
/// bear.
pub proof fn law_waking_lights_the_panel(controller: Controller, percent: u8)
    requires
        5 <= percent <= 100,
    ensures
        ({
            let after = controller.after_all(screen::wake_ops(percent));
            &&& !after.asleep
            &&& after.lit
            &&& after.hurried == controller.hurried
            &&& after.registers.dom().contains(0x51)
            &&& -50 <= 100 * after.registers[0x51] - 255 * percent <= 50
            &&& after.memory == controller.memory
        }),
{
    lemma_waking(controller, percent);
    panel::law_registers_are_the_percentage(percent);
}

proof fn lemma_waking(controller: Controller, percent: u8)
    ensures
        ({
            let register = panel::register_of(percent as int) as u8;
            let awake = Controller { asleep: false, waited_ms: 0, ..controller };
            let ops = screen::wake_ops(percent);
            &&& ops.len() == 10
            &&& controller.after_all(ops.take(1)) == controller
            &&& controller.after_all(ops.take(5)) == (Controller { waited_ms: 120, ..awake })
            &&& controller.after_all(ops.take(8)) == (Controller {
                waited_ms: 120,
                lit: true,
                ..awake
            })
            &&& controller.after_all(ops) == (Controller {
                waited_ms: 120,
                lit: true,
                registers: controller.registers.insert(0x51, register),
                ..awake
            })
        }),
{
    let register = panel::register_of(percent as int) as u8;
    let ops = screen::wake_ops(percent);
    let a = panel::command_ops(panel::SLEEP_OUT, Payload::Nothing);
    let b = a + seq![BusOp::DelayMs(screen::SLEEP_OUT_DELAY_MS)];
    let c = b + panel::command_ops(panel::DISPLAY_ON, Payload::Nothing);
    let d = c + panel::command_ops(panel::WRITE_BRIGHTNESS_NORMAL, Payload::Byte(register));
    assert(d == ops);
    controller.lemma_command(panel::SLEEP_OUT, Payload::Nothing);
    lemma_then_rest(controller, a, screen::SLEEP_OUT_DELAY_MS);
    lemma_then_command(controller, b, panel::DISPLAY_ON, Payload::Nothing);
    lemma_then_command(controller, c, panel::WRITE_BRIGHTNESS_NORMAL, Payload::Byte(register));
    assert(ops.take(1) =~= seq![BusOp::Select]);
    controller.lemma_single(BusOp::Select);
    assert(ops.take(5) =~= b + seq![BusOp::Select]);
    controller.lemma_joined(b, seq![BusOp::Select]);
    controller.after_all(b).lemma_single(BusOp::Select);
    assert(ops.take(8) =~= c + seq![BusOp::Select]);
    controller.lemma_joined(c, seq![BusOp::Select]);
    controller.after_all(c).lemma_single(BusOp::Select);
}

/// A panel counts as woken exactly when it shows something: where waking a dark
/// panel breaks off at a write that fails, it counts as woken if what was done
/// before lit it, and not otherwise. A wake that did not break off lit it.
pub proof fn law_woken_panels_are_lit(controller: Controller, percent: u8, failed: usize)
    requires
        !controller.lit,
        failed < screen::wake_ops(percent).len(),
        panel::can_fail(screen::wake_ops(percent)[failed as int]),
    ensures
        screen::woken(Some(failed)) == controller.after_all(
            screen::wake_ops(percent).take(failed as int),
        ).lit,
        screen::woken(None) == controller.after_all(screen::wake_ops(percent)).lit,
{
    lemma_waking(controller, percent);
    let ops = screen::wake_ops(percent);
    assert(ops[0] is Select && ops[1] is Send && ops[2] is Deselect && ops[3] is DelayMs);
    assert(ops[4] is Select && ops[5] is Send && ops[6] is Deselect);
    assert(ops[7] is Select && ops[8] is Send && ops[9] is Deselect);
    assert(failed == 1 || failed == 5 || failed == 8);
}

/// Starting up resets the panel first and leaves it lit, whether or not a write
/// ran in the background.
pub proof fn law_started_panels_shine(controller: Controller, pending: bool)
    ensures
        ({
            let ops = co5300::startup_ops(pending);
            let after = controller.after_all(ops);
            &&& !after.asleep
            &&& after.lit
            &&& after.hurried == controller.hurried
            &&& after.registers.dom().contains(0x3a) && after.registers[0x3a] == 0x55
            &&& after.registers.dom().contains(0x36) && after.registers[0x36] == 0xa0
            &&& after.registers.dom().contains(0x51) && after.registers[0x51] == 0xd0
            &&& panel::reset_rests(ops.take(7)) == (Some(200int), Some(200int))
        }),
{
    let ops = co5300::startup_ops(pending);
    let rest = co5300::wait_ops(pending) + panel::configure_ops();
    controller.lemma_joined(panel::reset_ops(), rest);
    let reset = controller.after_all(panel::reset_ops());
    law_waiting_changes_nothing(reset, pending, panel::configure_ops());
    law_configured_panels_shine(reset);
    panel::law_resets_give_the_panel_time();
    assert(ops.take(7) =~= panel::reset_ops());
    lemma_reset_keeps(controller);
}

proof fn lemma_reset_keeps(controller: Controller)
    ensures
        controller.after_all(panel::reset_ops()).hurried == controller.hurried,
{
    let ops = panel::reset_ops();
    reveal_with_fuel(Controller::after_all, 9);
    assert(ops.drop_last() =~= ops.take(6));
    assert(ops.take(6).drop_last() =~= ops.take(5));
    assert(ops.take(5).drop_last() =~= ops.take(4));
    assert(ops.take(4).drop_last() =~= ops.take(3));
    assert(ops.take(3).drop_last() =~= ops.take(2));
    assert(ops.take(2).drop_last() =~= ops.take(1));
    assert(ops.take(1).drop_last() =~= ops.take(0));
}

} // verus!
