//! What the main loop decides: the panel's sleep, and what the pages say.

use crate::bringup::co5300::{Error, Rectangle};
use crate::icd::UsageStatus;
use crate::panel;
use crate::panel::{BusOp, Payload};
use crate::pmic::{PmicEvent, PmicStats, PowerKey};
use crate::text;
use crate::touch::TouchState;
use vstd::prelude::*;

verus! {

pub const DEFAULT_BRIGHTNESS_PERCENT: u8 = 80;

/// The page that shows the animation.
pub const SPRITE_PAGE: i32 = 4;

/// Rest the panel needs between leaving sleep and showing a picture.
pub const SLEEP_OUT_DELAY_MS: u32 = 120;

/// The operations of waking the panel.
pub open spec fn wake_ops(brightness_percent: u8) -> Seq<BusOp> {
    panel::command_ops(panel::SLEEP_OUT, Payload::Nothing) + seq![
        BusOp::DelayMs(SLEEP_OUT_DELAY_MS),
    ] + panel::command_ops(panel::DISPLAY_ON, Payload::Nothing) + panel::command_ops(
        panel::WRITE_BRIGHTNESS_NORMAL,
        Payload::Byte(panel::register_of(brightness_percent as int) as u8),
    )
}

/// How many of them must not fail: all but restoring the brightness.
pub const VITAL_WAKE_OPS: usize = 7;

/// Plan to wake the panel and restore its brightness.
pub fn wake_display(brightness_percent: u8) -> (ops: Vec<BusOp>)
    ensures
        ops@ == wake_ops(brightness_percent),
{
    let mut ops = panel::wake();
    let ghost woken = ops@;
    ops.push(BusOp::DelayMs(SLEEP_OUT_DELAY_MS));
    assert(ops@ =~= woken + seq![BusOp::DelayMs(SLEEP_OUT_DELAY_MS)]);
    let mut shown = panel::display_on();
    ops.append(&mut shown);
    let mut lit = panel::set_brightness(panel::brightness_register(brightness_percent));
    ops.append(&mut lit);
    ops
}

/// The panel is awake although an operation of the plan failed.
pub open spec fn woken(failed: Option<usize>) -> bool {
    !(failed matches Some(index) && index < VITAL_WAKE_OPS)
}

/// Whether the panel is awake, given the operation of the plan that failed.
/// A panel whose brightness could not be restored is awake all the same.
pub fn display_woken(failed: Option<usize>) -> (awake: bool)
    ensures
        awake == !(failed matches Some(index) && index < VITAL_WAKE_OPS),
        awake == woken(failed),
{
    match failed {
        Some(index) => index >= VITAL_WAKE_OPS,
        None => true,
    }
}

/// Waking survives a failure only of the brightness: the operations up to
/// there switch the panel on.
pub proof fn law_vital_operations_switch_the_panel_on(brightness_percent: u8)
    ensures
        wake_ops(brightness_percent).take(VITAL_WAKE_OPS as int) == panel::command_ops(
            panel::SLEEP_OUT,
            Payload::Nothing,
        ) + seq![BusOp::DelayMs(SLEEP_OUT_DELAY_MS)] + panel::command_ops(
            panel::DISPLAY_ON,
            Payload::Nothing,
        ),
{
    assert(wake_ops(brightness_percent).take(VITAL_WAKE_OPS as int) =~= panel::command_ops(
        panel::SLEEP_OUT,
        Payload::Nothing,
    ) + seq![BusOp::DelayMs(SLEEP_OUT_DELAY_MS)] + panel::command_ops(
        panel::DISPLAY_ON,
        Payload::Nothing,
    ));
}

/// What to do with the panel.
#[derive(Debug, Clone, Copy, PartialEq, Eq, Structural)]
pub enum ScreenAction {
    /// Release the pointer and put the panel to sleep.
    Sleep,
    /// Wake the panel.
    Wake,
    /// Wake the panel and open the power menu if that succeeds.
    WakeForMenu,
    /// Redraw, with the power menu open.
    Redraw,
}

/// The state of the panel.
#[derive(Debug, Clone, Copy, PartialEq, Eq, Structural)]
pub struct Screen {
    pub display_on: bool,
    pub brightness_percent: u8,
    pub show_power_menu: bool,
}

impl Screen {
    /// What a press of the power key asks for.
    pub open spec fn key_action(self, key: PowerKey) -> ScreenAction {
        match (key, self.display_on) {
            (PowerKey::Short, true) => ScreenAction::Sleep,
            (PowerKey::Short, false) => ScreenAction::Wake,
            (PowerKey::Long, true) => ScreenAction::Redraw,
            (PowerKey::Long, false) => ScreenAction::WakeForMenu,
        }
    }

    /// The state after a press of the power key.
    pub open spec fn after_key(self, key: PowerKey) -> Screen {
        Screen {
            show_power_menu: match (key, self.display_on) {
                (PowerKey::Short, true) => false,
                (PowerKey::Long, true) => true,
                _ => self.show_power_menu,
            },
            ..self
        }
    }

    /// The state after the panel was put to sleep, or could not be.
    pub open spec fn after_sleep(self, ok: bool) -> Screen {
        Screen { display_on: self.display_on && !ok, ..self }
    }

    /// The state after the panel was woken, or could not be.
    pub open spec fn after_wake(self, ok: bool, for_menu: bool) -> Screen {
        if ok {
            Screen {
                display_on: true,
                show_power_menu: for_menu || self.show_power_menu,
                ..self
            }
        } else {
            self
        }
    }

    /// The state after the brightness was set, or could not be.
    pub open spec fn after_brightness(self, percent: u8, ok: bool) -> Screen {
        Screen {
            brightness_percent: if ok {
                percent
            } else {
                self.brightness_percent
            },
            ..self
        }
    }

    /// The touches that go to the interface.
    pub open spec fn handed(self, state: TouchState, waiting: Seq<TouchState>) -> Seq<TouchState> {
        if self.display_on {
            seq![state] + waiting
        } else {
            Seq::empty()
        }
    }

    /// The touches that go on waiting.
    pub open spec fn left_waiting(self, waiting: Seq<TouchState>) -> Seq<TouchState> {
        if self.display_on {
            Seq::empty()
        } else {
            waiting
        }
    }

    /// When the animation's next frame is due.
    pub open spec fn frame_due(self, page: i32, deadline_ms: u64) -> Option<u64> {
        if self.display_on && page == SPRITE_PAGE {
            Some(deadline_ms)
        } else {
            None
        }
    }

    /// A panel that was just initialized.
    pub fn new() -> (screen: Self)
        ensures
            screen == (Screen {
                display_on: true,
                brightness_percent: DEFAULT_BRIGHTNESS_PERCENT,
                show_power_menu: false,
            }),
    {
        Screen {
            display_on: true,
            brightness_percent: DEFAULT_BRIGHTNESS_PERCENT,
            show_power_menu: false,
        }
    }

    /// Decide on a press of the power key: a short one switches between sleep
    /// and waking, a long one opens the power menu, waking the panel for it.
    pub fn power_key(&mut self, key: PowerKey) -> (action: ScreenAction)
        ensures
            action == match (key, old(self).display_on) {
                (PowerKey::Short, true) => ScreenAction::Sleep,
                (PowerKey::Short, false) => ScreenAction::Wake,
                (PowerKey::Long, true) => ScreenAction::Redraw,
                (PowerKey::Long, false) => ScreenAction::WakeForMenu,
            },
            *final(self) == (Screen {
                show_power_menu: match (key, old(self).display_on) {
                    (PowerKey::Short, true) => false,
                    (PowerKey::Long, true) => true,
                    _ => old(self).show_power_menu,
                },
                ..*old(self)
            }),
            action == old(self).key_action(key),
            *final(self) == old(self).after_key(key),
    {
        match key {
            PowerKey::Short => if self.display_on {
                self.show_power_menu = false;
                ScreenAction::Sleep
            } else {
                ScreenAction::Wake
            },
            PowerKey::Long => if self.display_on {
                self.show_power_menu = true;
                ScreenAction::Redraw
            } else {
                ScreenAction::WakeForMenu
            },
        }
    }

    /// Take note that putting the panel to sleep succeeded or failed.
    pub fn slept(&mut self, ok: bool)
        ensures
            *final(self) == (Screen { display_on: old(self).display_on && !ok, ..*old(self) }),
            *final(self) == old(self).after_sleep(ok),
    {
        if ok {
            self.display_on = false;
        }
    }

    /// Take note that waking the panel succeeded or failed; it must be redrawn
    /// if it succeeded.
    pub fn woke(&mut self, ok: bool, for_menu: bool) -> (redraw: bool)
        ensures
            redraw == ok,
            *final(self) == if ok {
                Screen {
                    display_on: true,
                    show_power_menu: for_menu || old(self).show_power_menu,
                    ..*old(self)
                }
            } else {
                *old(self)
            },
            *final(self) == old(self).after_wake(ok, for_menu),
    {
        if ok {
            self.display_on = true;
            if for_menu {
                self.show_power_menu = true;
            }
        }
        ok
    }

    /// Take note that setting the brightness succeeded or failed.
    pub fn brightness_set(&mut self, percent: u8, ok: bool)
        ensures
            *final(self) == (Screen {
                brightness_percent: if ok {
                    percent
                } else {
                    old(self).brightness_percent
                },
                ..*old(self)
            }),
            *final(self) == old(self).after_brightness(percent, ok),
    {
        if ok {
            self.brightness_percent = percent;
        }
    }

    /// Whether touches are handed to the interface. While the panel sleeps they
    /// are still taken, so that nothing blocks behind them, and dropped.
    pub fn takes_touch(&self) -> (takes: bool)
        ensures
            takes == self.display_on,
    {
        self.display_on
    }

    /// The touches to hand to the interface before it draws again: a drag
    /// reports faster than a frame is drawn, so everything that waits goes
    /// along with the touch that came. A sleeping panel hands on nothing and
    /// leaves what waits to be taken later.
    pub fn touch_batch(&self, state: TouchState, waiting: &mut Vec<TouchState>) -> (batch: Vec<
        TouchState,
    >)
        ensures
            batch@ == if self.display_on {
                seq![state] + old(waiting)@
            } else {
                Seq::empty()
            },
            final(waiting)@ == if self.display_on {
                Seq::empty()
            } else {
                old(waiting)@
            },
            batch@ == self.handed(state, old(waiting)@),
            final(waiting)@ == self.left_waiting(old(waiting)@),
    {
        let mut batch: Vec<TouchState> = Vec::new();
        if self.takes_touch() {
            batch.push(state);
            batch.append(waiting);
            assert(batch@ =~= seq![state] + old(waiting)@);
        }
        batch
    }

    /// When the animation's next frame is due, while its page is shown on a
    /// panel that is awake.
    pub fn sprite_deadline(&self, page: i32, deadline_ms: u64) -> (due: Option<u64>)
        ensures
            due == if self.display_on && page == SPRITE_PAGE {
                Some(deadline_ms)
            } else {
                None
            },
            due == self.frame_due(page, deadline_ms),
    {
        if self.display_on && page == SPRITE_PAGE {
            Some(deadline_ms)
        } else {
            None
        }
    }
}

/// Whether a frame must be drawn again after its upload: the panel never
/// received what a failed upload held, so it must not be dropped.
pub fn redraw_after<E>(upload: &Result<u32, Error<E>>) -> (redraw: bool)
    ensures
        redraw == upload is Err,
{
    upload.is_err()
}

/// What the page says of the touch controller.
pub open spec fn controller_text(ready: bool) -> Seq<char> {
    if ready {
        "CST9220 ready"@
    } else {
        "touch error"@
    }
}

/// What the page says of the touch controller.
pub fn touch_status(ready: bool) -> (status: &'static str)
    ensures
        status@ == if ready {
            "CST9220 ready"@
        } else {
            "touch error"@
        },
        status@ == controller_text(ready),
{
    if ready {
        "CST9220 ready"
    } else {
        "touch error"
    }
}

/// What the page says of a touch.
pub open spec fn position_text(x: u16, y: u16) -> Seq<char> {
    "touch "@ + text::decimal(x as nat) + ","@ + text::decimal(y as nat)
}

/// What the page says of a touch.
pub fn touch_position(x: u16, y: u16) -> (status: String)
    ensures
        status@ == "touch "@ + text::decimal(x as nat) + ","@ + text::decimal(y as nat),
        status@ == position_text(x, y),
{
    let mut status = String::new();
    text::append_text(&mut status, "touch ");
    text::append_decimal(&mut status, x as u64);
    text::append_text(&mut status, ",");
    text::append_decimal(&mut status, y as u64);
    assert(status@ =~= "touch "@ + text::decimal(x as nat) + ","@ + text::decimal(y as nat));
    status
}

/// What the power page says; the temperature is left to whoever can format it.
pub struct PowerPage {
    pub battery_level: String,
    pub battery_voltage: String,
    pub vbus_voltage: String,
    pub vsys_voltage: String,
    pub power_source: &'static str,
}

/// A voltage in millivolts.
pub open spec fn millivolts(mv: u16) -> Seq<char> {
    text::decimal(mv as nat) + " mV"@
}

fn millivolt_text(mv: u16) -> (voltage: String)
    ensures
        voltage@ == millivolts(mv),
{
    let mut voltage = String::new();
    text::append_decimal(&mut voltage, mv as u64);
    text::append_text(&mut voltage, " mV");
    assert(voltage@ =~= millivolts(mv));
    voltage
}

fn plain(words: &str) -> (owned: String)
    ensures
        owned@ == words@,
{
    let mut owned = String::new();
    text::append_text(&mut owned, words);
    assert(owned@ =~= words@);
    owned
}

/// The texts of the power page.
pub struct PowerTexts {
    pub battery_level: Seq<char>,
    pub battery_voltage: Seq<char>,
    pub vbus_voltage: Seq<char>,
    pub vsys_voltage: Seq<char>,
    pub power_source: Seq<char>,
}

impl PowerPage {
    /// The texts of the page.
    pub open spec fn texts(self) -> PowerTexts {
        PowerTexts {
            battery_level: self.battery_level@,
            battery_voltage: self.battery_voltage@,
            vbus_voltage: self.vbus_voltage@,
            vsys_voltage: self.vsys_voltage@,
            power_source: self.power_source@,
        }
    }
}

/// What the power page says of a reading.
pub open spec fn power_texts<T>(stats: PmicStats<T>) -> PowerTexts {
    PowerTexts {
        battery_level: if stats.battery_present {
            text::decimal(stats.state_of_charge as nat) + "%"@
        } else {
            "--"@
        },
        battery_voltage: if stats.battery_present {
            millivolts(stats.battery_mv)
        } else {
            "not detected"@
        },
        vbus_voltage: if stats.vbus_good {
            millivolts(stats.vbus_mv)
        } else {
            "disconnected"@
        },
        vsys_voltage: millivolts(stats.vsys_mv),
        power_source: if stats.charging {
            "USB · charging"@
        } else if stats.vbus_good {
            "USB power"@
        } else if stats.battery_present {
            "Battery"@
        } else {
            "No battery"@
        },
    }
}

/// The power page of a reading.
pub fn power_page<T>(stats: &PmicStats<T>) -> (page: PowerPage)
    ensures
        page.battery_level@ == if stats.battery_present {
            text::decimal(stats.state_of_charge as nat) + "%"@
        } else {
            "--"@
        },
        page.battery_voltage@ == if stats.battery_present {
            millivolts(stats.battery_mv)
        } else {
            "not detected"@
        },
        page.vbus_voltage@ == if stats.vbus_good {
            millivolts(stats.vbus_mv)
        } else {
            "disconnected"@
        },
        page.vsys_voltage@ == millivolts(stats.vsys_mv),
        page.power_source@ == if stats.charging {
            "USB · charging"@
        } else if stats.vbus_good {
            "USB power"@
        } else if stats.battery_present {
            "Battery"@
        } else {
            "No battery"@
        },
        page.texts() == power_texts(*stats),
{
    let battery_level = if stats.battery_present {
        let mut level = String::new();
        text::append_decimal(&mut level, stats.state_of_charge as u64);
        text::append_text(&mut level, "%");
        assert(level@ =~= text::decimal(stats.state_of_charge as nat) + "%"@);
        level
    } else {
        plain("--")
    };
    let battery_voltage = if stats.battery_present {
        millivolt_text(stats.battery_mv)
    } else {
        plain("not detected")
    };
    let vbus_voltage = if stats.vbus_good {
        millivolt_text(stats.vbus_mv)
    } else {
        plain("disconnected")
    };
    let power_source = if stats.charging {
        "USB · charging"
    } else if stats.vbus_good {
        "USB power"
    } else if stats.battery_present {
        "Battery"
    } else {
        "No battery"
    };
    PowerPage {
        battery_level,
        battery_voltage,
        vbus_voltage,
        vsys_voltage: millivolt_text(stats.vsys_mv),
        power_source,
    }
}

/// What the page says of the power chip.
pub open spec fn chip_text<T>(event: PmicEvent<T>) -> Seq<char> {
    if event is Online {
        "AXP2101 online"@
    } else {
        "telemetry error"@
    }
}

/// What the page says of the power chip.
pub fn pmic_status<T>(event: &PmicEvent<T>) -> (status: &'static str)
    ensures
        status@ == if event is Online {
            "AXP2101 online"@
        } else {
            "telemetry error"@
        },
        status@ == chip_text(*event),
{
    match event {
        PmicEvent::Online(_) => "AXP2101 online",
        PmicEvent::Error => "telemetry error",
    }
}

/// The uptime to show, if it differs from the one shown.
pub open spec fn uptime_text(displayed_second: u64, elapsed_seconds: u64) -> Option<Seq<char>> {
    if displayed_second == elapsed_seconds {
        None
    } else {
        Some(text::decimal(elapsed_seconds as nat) + " s"@)
    }
}

/// The uptime to show, if it differs from the one shown.
pub fn uptime(displayed_second: &mut u64, elapsed_seconds: u64) -> (shown: Option<String>)
    ensures
        *final(displayed_second) == elapsed_seconds,
        match shown {
            Some(shown) => {
                &&& *old(displayed_second) != elapsed_seconds
                &&& shown@ == text::decimal(elapsed_seconds as nat) + " s"@
            },
            None => *old(displayed_second) == elapsed_seconds,
        },
        match shown {
            Some(shown) => uptime_text(*old(displayed_second), elapsed_seconds) == Some(shown@),
            None => uptime_text(*old(displayed_second), elapsed_seconds) is None,
        },
{
    if elapsed_seconds == *displayed_second {
        return None;
    }
    *displayed_second = elapsed_seconds;
    let mut shown = String::new();
    text::append_decimal(&mut shown, elapsed_seconds);
    text::append_text(&mut shown, " s");
    assert(shown@ =~= text::decimal(elapsed_seconds as nat) + " s"@);
    Some(shown)
}

/// A reset countdown in hours and minutes, or dashes when nothing is known.
pub open spec fn reset_text(minutes: u16) -> Seq<char> {
    if minutes == 0 {
        "--"@
    } else {
        text::decimal((minutes / 60) as nat) + "h "@ + text::padded((minutes % 60) as nat) + "m"@
    }
}

/// Render a reset countdown, such as `2h 05m`.
pub fn format_reset(minutes: u16) -> (shown: String)
    ensures
        shown@ == reset_text(minutes),
{
    if minutes == 0 {
        return plain("--");
    }
    let mut shown = String::new();
    text::append_decimal(&mut shown, (minutes / 60) as u64);
    text::append_text(&mut shown, "h ");
    text::append_padded(&mut shown, (minutes % 60) as u64);
    text::append_text(&mut shown, "m");
    assert(shown@ =~= reset_text(minutes));
    shown
}

/// What the usage page says of the limits.
pub open spec fn limits_text(status: UsageStatus) -> Seq<char> {
    match status {
        UsageStatus::Allowed => "allowed"@,
        UsageStatus::Limited => "limited"@,
        UsageStatus::Unknown => "unknown"@,
    }
}

/// What the usage page says of the limits.
pub fn usage_status(status: UsageStatus) -> (shown: &'static str)
    ensures
        shown@ == match status {
            UsageStatus::Allowed => "allowed"@,
            UsageStatus::Limited => "limited"@,
            UsageStatus::Unknown => "unknown"@,
        },
        shown@ == limits_text(status),
{
    match status {
        UsageStatus::Allowed => "allowed",
        UsageStatus::Limited => "limited",
        UsageStatus::Unknown => "unknown",
    }
}

/// What the application waits for before it counts as ready.
#[derive(Debug, Clone, Copy, PartialEq, Eq, Structural)]
pub struct Readiness {
    pub touch: bool,
    pub pmic: bool,
    pub rtc: bool,
    pub rendered_frames: u32,
    pub announced: bool,
}

impl Readiness {
    /// It is time to announce that the application is ready.
    pub open spec fn announces(self) -> bool {
        !self.announced && self.touch && self.pmic && self.rtc && self.rendered_frames >= 2
    }

    /// The state after asking whether to announce.
    pub open spec fn asked(self) -> Readiness {
        Readiness { announced: self.announced || self.announces(), ..self }
    }

    /// Nothing is ready.
    pub fn new() -> (readiness: Self)
        ensures
            readiness == (Readiness {
                touch: false,
                pmic: false,
                rtc: false,
                rendered_frames: 0,
                announced: false,
            }),
    {
        Readiness { touch: false, pmic: false, rtc: false, rendered_frames: 0, announced: false }
    }

    /// Count a frame that was drawn.
    pub fn frame_rendered(&mut self)
        requires
            old(self).rendered_frames < u32::MAX,
        ensures
            *final(self) == (Readiness {
                rendered_frames: (old(self).rendered_frames + 1) as u32,
                ..*old(self)
            }),
    {
        self.rendered_frames = self.rendered_frames + 1;
    }

    /// Whether to announce that the application is ready: once, when every
    /// peripheral reported and a partial frame was drawn after the full one.
    pub fn announce(&mut self) -> (now: bool)
        ensures
            now == (!old(self).announced && old(self).touch && old(self).pmic && old(self).rtc
                && old(self).rendered_frames >= 2),
            *final(self) == (Readiness { announced: old(self).announced || now, ..*old(self) }),
            now == old(self).announces(),
            *final(self) == old(self).asked(),
    {
        if !self.announced && self.touch && self.pmic && self.rtc && self.rendered_frames >= 2 {
            self.announced = true;
            return true;
        }
        false
    }
}

/// The pixels of the first rectangles.
pub open spec fn region_pixels(region: Seq<Rectangle>, count: int) -> int
    decreases count,
{
    if count <= 0 {
        0
    } else {
        region_pixels(region, count - 1) + region[count - 1].width * region[count - 1].height
    }
}

proof fn lemma_region_pixels_ascend(region: Seq<Rectangle>, fewer: int, more: int)
    requires
        0 <= fewer <= more <= region.len(),
    ensures
        0 <= region_pixels(region, fewer) <= region_pixels(region, more),
    decreases more,
{
    if fewer < more {
        lemma_region_pixels_ascend(region, fewer, more - 1);
        assert(0 <= region[more - 1].width * region[more - 1].height) by (nonlinear_arith);
    } else if 0 < fewer {
        lemma_region_pixels_ascend(region, fewer - 1, more - 1);
        assert(0 <= region[fewer - 1].width * region[fewer - 1].height) by (nonlinear_arith);
    }
}

/// How many pixels and rectangles a frame changed.
pub fn region_cost(region: &[Rectangle]) -> (cost: (u64, u32))
    requires
        region_pixels(region@, region@.len() as int) <= u64::MAX,
        region@.len() <= u32::MAX,
    ensures
        cost.0 == region_pixels(region@, region@.len() as int),
        cost.1 == region@.len(),
{
    let mut pixels: u64 = 0;
    let mut i: usize = 0;
    while i < region.len()
        invariant
            i <= region@.len(),
            pixels == region_pixels(region@, i as int),
            region_pixels(region@, region@.len() as int) <= u64::MAX,
        decreases region.len() - i,
    {
        proof {
            lemma_region_pixels_ascend(region@, i + 1, region@.len() as int);
            assert(0 <= region@[i as int].width * region@[i as int].height
                <= 0xffff_ffff * 0xffff_ffff) by (nonlinear_arith)
                requires
                    region@[i as int].width <= 0xffff_ffff,
                    region@[i as int].height <= 0xffff_ffff,
            ;
        }
        pixels = pixels + region[i].width as u64 * region[i].height as u64;
        i = i + 1;
    }
    (pixels, region.len() as u32)
}

/// The animation that follows another.
pub fn next_sprite(index: usize, count: usize) -> (next: usize)
    requires
        index < count,
    ensures
        next == if index + 1 == count {
            0
        } else {
            index + 1
        },
        next as nat == crate::animation::successor(index as nat, count as nat),
{
    proof {
        if index + 1 < count {
            vstd::arithmetic::div_mod::lemma_small_mod((index + 1) as nat, count as nat);
        } else {
            vstd::arithmetic::div_mod::lemma_mod_self_0(count as int);
        }
    }
    if index + 1 == count {
        0
    } else {
        index + 1
    }
}

/// Short presses of the power key switch between sleep and waking: on a panel
/// that is on they put it to sleep, after which they wake it, which turns it on
/// again. The power menu is closed by the way.
pub proof fn law_short_presses_toggle(screen: Screen)
    requires
        screen.display_on,
    ensures
        ({
            let slept = screen.after_key(PowerKey::Short).after_sleep(true);
            let woke = slept.after_key(PowerKey::Short).after_wake(true, false);
            &&& screen.key_action(PowerKey::Short) == ScreenAction::Sleep
            &&& !slept.display_on
            &&& slept.key_action(PowerKey::Short) == ScreenAction::Wake
            &&& woke == (Screen { show_power_menu: false, ..screen })
        }),
{
}

/// Long presses of the power key end with the power menu on a panel that is on,
/// whether they find it on or off, and leave everything else.
pub proof fn law_long_presses_open_the_menu(screen: Screen)
    ensures
        ({
            let pressed = screen.after_key(PowerKey::Long);
            let open = Screen { display_on: true, show_power_menu: true, ..screen };
            &&& screen.display_on ==> screen.key_action(PowerKey::Long) == ScreenAction::Redraw
                && pressed == open
            &&& !screen.display_on ==> screen.key_action(PowerKey::Long)
                == ScreenAction::WakeForMenu && pressed.after_wake(true, true) == open
        }),
{
}

/// What failed did not happen: a panel that could not be put to sleep, woken or
/// set to another brightness is as it was.
pub proof fn law_failures_change_nothing(screen: Screen, for_menu: bool, percent: u8)
    ensures
        screen.after_sleep(false) == screen,
        screen.after_wake(false, for_menu) == screen,
        screen.after_brightness(percent, false) == screen,
        screen.after_brightness(percent, true) == (Screen { brightness_percent: percent, ..screen }),
{
}

/// No touch is lost or overtakes another while the panel is on: the one that
/// came goes first, then all that waited, in their order. While it sleeps the
/// interface gets none, and those that waited go on waiting.
pub proof fn law_touches_keep_their_order(
    screen: Screen,
    state: TouchState,
    waiting: Seq<TouchState>,
    index: int,
)
    requires
        0 <= index < waiting.len(),
    ensures
        screen.display_on ==> {
            &&& screen.handed(state, waiting).len() == waiting.len() + 1
            &&& screen.handed(state, waiting)[0] == state
            &&& screen.handed(state, waiting)[index + 1] == waiting[index]
            &&& screen.left_waiting(waiting).len() == 0
        },
        !screen.display_on ==> {
            &&& screen.handed(state, waiting).len() == 0
            &&& screen.left_waiting(waiting) == waiting
        },
{
}

/// The animation moves only where it is seen: on its own page, the fourth after
/// the first, of a panel that is on.
pub proof fn law_unseen_animations_rest(screen: Screen, page: i32, deadline_ms: u64)
    ensures
        screen.frame_due(page, deadline_ms) == Some(deadline_ms) <==> screen.display_on && page == 4,
        screen.frame_due(page, deadline_ms) is None <==> !screen.display_on || page != 4,
{
}

/// The position that is shown reads back: both coordinates, with a comma between
/// them.
pub proof fn law_shown_positions_read_back(x: u16, y: u16)
    ensures
        ({
            let shown = position_text(x, y);
            let end = shown.len() as int;
            &&& shown.subrange(0, 6) == "touch "@
            &&& exists|comma: int|
                {
                    &&& 6 < comma < end - 1
                    &&& #[trigger] shown[comma] == ','
                    &&& text::number_in(shown.subrange(6, comma)) == x
                    &&& text::number_in(shown.subrange(comma + 1, end)) == y
                }
        }),
{
    reveal_strlit("touch ");
    reveal_strlit(",");
    text::law_decimals_read_back(x as nat);
    text::law_decimals_read_back(y as nat);
    let shown = position_text(x, y);
    let across = text::decimal(x as nat);
    let comma = (6 + across.len()) as int;
    assert(shown.subrange(0, 6) =~= "touch "@);
    assert(shown.subrange(6, comma) =~= across);
    assert(shown.subrange(comma + 1, shown.len() as int) =~= text::decimal(y as nat));
    assert(shown[comma] == ',');
}

/// The numbers on the power page are those of the reading, each in its place and
/// with its unit, and there are words in place of what is not there. A battery
/// that charges has its supply named first, then the supply, then the battery.
pub proof fn law_power_page_shows_the_reading<T>(stats: PmicStats<T>)
    ensures
        ({
            let texts = power_texts(stats);
            &&& stats.battery_present ==> reads_as(
                texts.battery_level,
                stats.state_of_charge as int,
                "%"@,
            ) && reads_as(texts.battery_voltage, stats.battery_mv as int, " mV"@)
            &&& !stats.battery_present ==> texts.battery_level == "--"@ && texts.battery_voltage
                == "not detected"@
            &&& stats.vbus_good ==> reads_as(texts.vbus_voltage, stats.vbus_mv as int, " mV"@)
            &&& !stats.vbus_good ==> texts.vbus_voltage == "disconnected"@
            &&& reads_as(texts.vsys_voltage, stats.vsys_mv as int, " mV"@)
            &&& stats.charging ==> texts.power_source == "USB · charging"@
            &&& !stats.charging && stats.vbus_good ==> texts.power_source == "USB power"@
            &&& !stats.charging && !stats.vbus_good && stats.battery_present
                ==> texts.power_source == "Battery"@
            &&& !stats.charging && !stats.vbus_good && !stats.battery_present
                ==> texts.power_source == "No battery"@
        }),
{
    text::lemma_number_in_front(stats.state_of_charge as nat, "%"@);
    text::lemma_number_in_front(stats.battery_mv as nat, " mV"@);
    text::lemma_number_in_front(stats.vbus_mv as nat, " mV"@);
    text::lemma_number_in_front(stats.vsys_mv as nat, " mV"@);
}

/// A text is a number with its unit behind it.
pub open spec fn reads_as(shown: Seq<char>, number: int, unit: Seq<char>) -> bool {
    let digits = shown.len() - unit.len();
    &&& digits >= 1
    &&& text::number_in(shown.subrange(0, digits)) == number
    &&& shown.subrange(digits, shown.len() as int) == unit
}

/// The uptime is shown in seconds, and again only once it changed.
pub proof fn law_shown_uptime_reads_back(displayed_second: u64, elapsed_seconds: u64)
    ensures
        uptime_text(displayed_second, elapsed_seconds) is None <==> displayed_second
            == elapsed_seconds,
        uptime_text(displayed_second, elapsed_seconds) matches Some(shown) ==> reads_as(
            shown,
            elapsed_seconds as int,
            " s"@,
        ),
{
    text::lemma_number_in_front(elapsed_seconds as nat, " s"@);
}

/// The countdown that is shown reads back: hours and two digits of minutes, the
/// minutes fewer than sixty, make up the minutes. Without a countdown there are
/// dashes.
pub proof fn law_shown_countdowns_read_back(minutes: u16)
    ensures
        minutes == 0 ==> reset_text(minutes) == "--"@,
        minutes > 0 ==> {
            let shown = reset_text(minutes);
            let end = shown.len() as int;
            let hours = text::number_in(shown.subrange(0, end - 5));
            let rest = text::number_in(shown.subrange(end - 3, end - 1));
            &&& end >= 6
            &&& shown[end - 5] == 'h' && shown[end - 4] == ' ' && shown[end - 1] == 'm'
            &&& 0 <= rest < 60
            &&& 60 * hours + rest == minutes
        },
{
    if minutes > 0 {
        reveal_strlit("h ");
        reveal_strlit("m");
        let hours = (minutes / 60) as nat;
        let rest = (minutes % 60) as nat;
        text::law_decimals_read_back(hours);
        text::law_padded_numbers_read_back(rest);
        let shown = reset_text(minutes);
        let end = shown.len() as int;
        assert(shown.subrange(0, end - 5) =~= text::decimal(hours));
        assert(shown.subrange(end - 3, end - 1) =~= text::padded(rest));
    }
}

/// The application is announced as ready once: when the touch controller, the
/// power chip and the clock have reported and two frames were drawn, and never
/// after that.
pub proof fn law_ready_is_announced_once(readiness: Readiness)
    ensures
        readiness.announces() ==> readiness.touch && readiness.pmic && readiness.rtc
            && readiness.rendered_frames >= 2,
        readiness.touch && readiness.pmic && readiness.rtc && readiness.rendered_frames >= 2 ==> {
            &&& readiness.asked().announced
            &&& readiness.announces() == !readiness.announced
        },
        readiness.asked().announced ==> !readiness.asked().announces(),
        readiness.announced ==> readiness.asked() == readiness,
{
}

/// The cost of rectangles adds up: one costs its width times its height, and two
/// lists of them cost what they cost together.
pub proof fn law_costs_add_up(some: Seq<Rectangle>, more: Seq<Rectangle>, rectangle: Rectangle)
    ensures
        region_pixels(some + more, (some + more).len() as int) == region_pixels(
            some,
            some.len() as int,
        ) + region_pixels(more, more.len() as int),
        region_pixels(seq![rectangle], 1) == rectangle.width * rectangle.height,
    decreases more.len(),
{
    reveal_with_fuel(region_pixels, 2);
    let joined = some + more;
    if more.len() == 0 {
        assert(joined =~= some);
    } else {
        let fewer = more.drop_last();
        law_costs_add_up(some, fewer, rectangle);
        lemma_first_rectangles(joined, some + fewer, joined.len() - 1);
        lemma_first_rectangles(more, fewer, more.len() - 1);
        assert(joined[joined.len() - 1] == more[more.len() - 1]);
    }
}

proof fn lemma_first_rectangles(a: Seq<Rectangle>, b: Seq<Rectangle>, count: int)
    requires
        0 <= count <= a.len(),
        count <= b.len(),
        forall|i: int| 0 <= i < count ==> a[i] == b[i],
    ensures
        region_pixels(a, count) == region_pixels(b, count),
    decreases count,
{
    if count > 0 {
        lemma_first_rectangles(a, b, count - 1);
    }
}

/// The pages call things by their names: limits that are allowed, limited and
/// unknown, a power chip that is online, a touch controller that is ready, and
/// errors of either.
pub proof fn law_pages_call_things_by_their_names<T>(event: PmicEvent<T>)
    ensures
        limits_text(UsageStatus::Allowed) == "allowed"@,
        limits_text(UsageStatus::Limited) == "limited"@,
        limits_text(UsageStatus::Unknown) == "unknown"@,
        event is Online ==> chip_text(event) == "AXP2101 online"@,
        event is Error ==> chip_text(event) == "telemetry error"@,
        controller_text(true) == "CST9220 ready"@,
        controller_text(false) == "touch error"@,
{
}

/// Waking and sleeping do what they say and no more: the panel is on or off, and
/// the power menu is opened only for whoever asked for it. A press of the key by
/// itself leaves a sleeping panel as it is.
pub proof fn law_sleep_and_wake_change_the_panel_alone(screen: Screen, key: PowerKey)
    ensures
        screen.after_sleep(true) == (Screen { display_on: false, ..screen }),
        screen.after_wake(true, false) == (Screen { display_on: true, ..screen }),
        screen.after_wake(true, true) == (Screen {
            display_on: true,
            show_power_menu: true,
            ..screen
        }),
        !screen.display_on ==> screen.after_key(key) == screen,
        screen.after_key(key).display_on == screen.display_on,
        screen.after_key(key).brightness_percent == screen.brightness_percent,
{
}

} // verus!
