//! What the instrument's pages show, and what their callbacks ask for.

use crate::calendar;
use crate::events::SettingsAction;
use crate::rtc::{DateTime, Snapshot};
use crate::settings::DisplaySettings;
use crate::text;
use vstd::prelude::*;

verus! {

/// The clock as it is shown.
pub struct ClockFace {
    pub clock: String,
    pub rtc_status: &'static str,
}

/// The local time of a snapshot, where the clock was synchronized.
pub open spec fn local_time(snapshot: Snapshot) -> Option<DateTime> {
    if snapshot.clock_valid && snapshot.utc_offset_minutes is Some
        && snapshot.datetime.civil().valid() && calendar::covered(snapshot.local_moment()) {
        Some(DateTime::of(calendar::civil_at(snapshot.local_moment())))
    } else {
        None
    }
}

/// Hours and minutes with two digits each, or dashes.
pub open spec fn clock_text(local: Option<DateTime>) -> Seq<char> {
    match local {
        Some(datetime) => text::padded(datetime.hour as nat) + ":"@ + text::padded(
            datetime.minute as nat,
        ),
        None => "--:--"@,
    }
}

/// What is said of the clock.
pub open spec fn clock_status(local: Option<DateTime>) -> Seq<char> {
    if local is Some {
        "synced"@
    } else {
        "needs host sync"@
    }
}

/// The minute-resolution clock.
///
/// Hours and minutes only. Seconds would repaint the dial sixty times more
/// often than any of the data on it changes.
pub fn update_clock(snapshot: Snapshot) -> (face: ClockFace)
    ensures
        face.clock@ == clock_text(local_time(snapshot)),
        face.rtc_status@ == if local_time(snapshot) is Some {
            "synced"@
        } else {
            "needs host sync"@
        },
        face.rtc_status@ == clock_status(local_time(snapshot)),
{
    let mut clock = String::new();
    if let Some(datetime) = snapshot.local_datetime() {
        text::append_padded(&mut clock, datetime.hour as u64);
        text::append_text(&mut clock, ":");
        text::append_padded(&mut clock, datetime.minute as u64);
        assert(clock@ =~= clock_text(local_time(snapshot)));
        ClockFace { clock, rtc_status: "synced" }
    } else {
        text::append_text(&mut clock, "--:--");
        assert(clock@ =~= clock_text(local_time(snapshot)));
        ClockFace { clock, rtc_status: "needs host sync" }
    }
}

/// The settings as the page shows them.
#[derive(Debug, Clone, Copy, PartialEq, Eq, Structural)]
pub struct SettingsPage {
    pub brightness_percent: i32,
    pub auto_dim_enabled: bool,
    pub dim_on_usb: bool,
    pub idle_timeout_seconds: i32,
    pub dim_brightness_percent: i32,
}

/// What the page shows of settings.
pub open spec fn page_of(settings: DisplaySettings) -> SettingsPage {
    SettingsPage {
        brightness_percent: settings.brightness_percent as i32,
        auto_dim_enabled: settings.auto_dim,
        dim_on_usb: settings.dim_on_usb,
        idle_timeout_seconds: settings.idle_timeout_seconds as i32,
        dim_brightness_percent: settings.dim_brightness_percent as i32,
    }
}

/// Show settings.
pub fn update_settings(settings: DisplaySettings) -> (page: SettingsPage)
    ensures
        page == (SettingsPage {
            brightness_percent: settings.brightness_percent as i32,
            auto_dim_enabled: settings.auto_dim,
            dim_on_usb: settings.dim_on_usb,
            idle_timeout_seconds: settings.idle_timeout_seconds as i32,
            dim_brightness_percent: settings.dim_brightness_percent as i32,
        }),
        page == page_of(settings),
{
    SettingsPage {
        brightness_percent: settings.brightness_percent as i32,
        auto_dim_enabled: settings.auto_dim,
        dim_on_usb: settings.dim_on_usb,
        idle_timeout_seconds: settings.idle_timeout_seconds as i32,
        dim_brightness_percent: settings.dim_brightness_percent as i32,
    }
}

/// A callback of the interface.
#[derive(Debug, Clone, Copy, PartialEq, Eq, Structural)]
pub enum Callback {
    OpenSettings,
    CloseSettings,
    BrightnessStep(i32),
    AutoDimToggle,
    DimOnUsbToggle,
    IdleTimeoutStep(i32),
    DimBrightnessStep(i32),
    PowerOff,
    Reboot,
}

/// The low eight bits of a number, read as a signed number.
pub open spec fn low_signed_byte(value: int) -> int {
    (value + 128) % 256 - 128
}

fn as_step(direction: i32) -> (step: i8)
    ensures
        step == low_signed_byte(direction as int),
{
    ((direction as i64 + 2147483776) % 256 - 128) as i8
}

/// What a callback asks for.
pub open spec fn asked_for(callback: Callback) -> SettingsAction {
    match callback {
        Callback::OpenSettings => SettingsAction::Open,
        Callback::CloseSettings => SettingsAction::Close,
        Callback::BrightnessStep(direction) => SettingsAction::BrightnessStep(
            low_signed_byte(direction as int) as i8,
        ),
        Callback::AutoDimToggle => SettingsAction::ToggleAutoDim,
        Callback::DimOnUsbToggle => SettingsAction::ToggleDimOnUsb,
        Callback::IdleTimeoutStep(direction) => SettingsAction::IdleTimeoutStep(
            low_signed_byte(direction as int) as i8,
        ),
        Callback::DimBrightnessStep(direction) => SettingsAction::DimBrightnessStep(
            low_signed_byte(direction as int) as i8,
        ),
        Callback::PowerOff => SettingsAction::PowerOff,
        Callback::Reboot => SettingsAction::Reboot,
    }
}

/// What a callback asks for.
pub fn callback_action(callback: Callback) -> (action: SettingsAction)
    ensures
        action == match callback {
            Callback::OpenSettings => SettingsAction::Open,
            Callback::CloseSettings => SettingsAction::Close,
            Callback::BrightnessStep(direction) => SettingsAction::BrightnessStep(
                low_signed_byte(direction as int) as i8,
            ),
            Callback::AutoDimToggle => SettingsAction::ToggleAutoDim,
            Callback::DimOnUsbToggle => SettingsAction::ToggleDimOnUsb,
            Callback::IdleTimeoutStep(direction) => SettingsAction::IdleTimeoutStep(
                low_signed_byte(direction as int) as i8,
            ),
            Callback::DimBrightnessStep(direction) => SettingsAction::DimBrightnessStep(
                low_signed_byte(direction as int) as i8,
            ),
            Callback::PowerOff => SettingsAction::PowerOff,
            Callback::Reboot => SettingsAction::Reboot,
        },
        action == asked_for(callback),
{
    match callback {
        Callback::OpenSettings => SettingsAction::Open,
        Callback::CloseSettings => SettingsAction::Close,
        Callback::BrightnessStep(direction) => SettingsAction::BrightnessStep(as_step(direction)),
        Callback::AutoDimToggle => SettingsAction::ToggleAutoDim,
        Callback::DimOnUsbToggle => SettingsAction::ToggleDimOnUsb,
        Callback::IdleTimeoutStep(direction) => SettingsAction::IdleTimeoutStep(
            as_step(direction),
        ),
        Callback::DimBrightnessStep(direction) => SettingsAction::DimBrightnessStep(
            as_step(direction),
        ),
        Callback::PowerOff => SettingsAction::PowerOff,
        Callback::Reboot => SettingsAction::Reboot,
    }
}

/// A step that fits a byte is kept as it is.
pub proof fn law_small_steps_are_kept(direction: i8)
    ensures
        low_signed_byte(direction as int) == direction,
{
}

/// The clock that is shown is the clock of the synchronized instant: where a
/// time is shown, the snapshot's clock was running and set by the host.
pub proof fn law_shown_time_is_synchronized(snapshot: Snapshot)
    ensures
        local_time(snapshot) is Some ==> snapshot.clock_valid && snapshot.utc_offset_minutes
            is Some,
        local_time(snapshot) matches Some(datetime) ==> datetime.hour < 24 && datetime.minute < 60,
{
    if local_time(snapshot) is Some {
        calendar::law_every_moment_has_a_reading(snapshot.local_moment());
    }
}

/// The text that is shown tells the local time: five characters with a colon in
/// the middle, of which the first two read as the hour and the last two as the
/// minute of the instant in UTC moved by the host's offset. Without a
/// synchronized clock there are dashes instead.
pub proof fn law_shown_clock_is_the_local_time(snapshot: Snapshot, offset_minutes: i16)
    requires
        snapshot.utc_offset_minutes == Some(offset_minutes),
        snapshot.datetime.civil().valid(),
        calendar::covered(snapshot.datetime.civil().moment() + 60 * offset_minutes),
    ensures
        ({
            let text = clock_text(local_time(snapshot));
            let second = (snapshot.datetime.civil().moment() + 60 * offset_minutes) % 86400;
            &&& text.len() == 5
            &&& snapshot.clock_valid ==> {
                &&& text[2] == ':'
                &&& text::number_in(text.subrange(0, 2)) == second / 3600
                &&& text::number_in(text.subrange(3, 5)) == second % 3600 / 60
                &&& forall|i: int| 0 <= i < 5 && i != 2 ==> text::is_digit(#[trigger] text[i])
            }
            &&& !snapshot.clock_valid ==> text == seq!['-', '-', ':', '-', '-']
        }),
{
    reveal_strlit(":");
    reveal_strlit("--:--");
    let text = clock_text(local_time(snapshot));
    if snapshot.clock_valid {
        let moment = snapshot.local_moment();
        calendar::law_every_moment_has_a_reading(moment);
        let civil = calendar::civil_at(moment);
        let hour = text::padded(civil.hour as nat);
        let minute = text::padded(civil.minute as nat);
        text::law_padded_numbers_read_back(civil.hour as nat);
        text::law_padded_numbers_read_back(civil.minute as nat);
        assert(text.subrange(0, 2) =~= hour);
        assert(text.subrange(3, 5) =~= minute);
        assert forall|i: int| 0 <= i < 5 && i != 2 implies text::is_digit(#[trigger] text[i]) by {
            if i < 2 {
                assert(text[i] == hour[i]);
            } else {
                assert(text[i] == minute[i - 3]);
            }
        }
        assert(moment == civil.day_number() * 86400 + civil.second_of_day());
    } else {
        assert(text =~= seq!['-', '-', ':', '-', '-']);
    }
}

/// Two local times that differ in the hour or the minute are never shown alike.
pub proof fn law_different_times_look_different(a: DateTime, b: DateTime)
    requires
        a.hour < 24,
        a.minute < 60,
        b.hour < 24,
        b.minute < 60,
        (a.hour, a.minute) != (b.hour, b.minute),
    ensures
        clock_text(Some(a)) != clock_text(Some(b)),
        clock_text(Some(a)) != clock_text(None),
{
    reveal_strlit(":");
    reveal_strlit("--:--");
    text::law_padded_numbers_read_back(a.hour as nat);
    text::law_padded_numbers_read_back(a.minute as nat);
    text::law_padded_numbers_read_back(b.hour as nat);
    text::law_padded_numbers_read_back(b.minute as nat);
    let left = clock_text(Some(a));
    let right = clock_text(Some(b));
    assert(left.subrange(0, 2) =~= text::padded(a.hour as nat));
    assert(left.subrange(3, 5) =~= text::padded(a.minute as nat));
    assert(right.subrange(0, 2) =~= text::padded(b.hour as nat));
    assert(right.subrange(3, 5) =~= text::padded(b.minute as nat));
    assert(left[0] == text::padded(a.hour as nat)[0]);
    assert(text::is_digit(left[0]));
}

/// The page shows the settings as they are: every one in its own place.
pub proof fn law_pages_show_the_settings(settings: DisplaySettings)
    ensures
        page_of(settings).brightness_percent == settings.brightness_percent,
        page_of(settings).auto_dim_enabled == settings.auto_dim,
        page_of(settings).dim_on_usb == settings.dim_on_usb,
        page_of(settings).idle_timeout_seconds == settings.idle_timeout_seconds,
        page_of(settings).dim_brightness_percent == settings.dim_brightness_percent,
{
}

/// Callbacks ask for what they name: two that differ in kind ask for different
/// things, and a step asks for that step.
pub proof fn law_callbacks_ask_for_what_they_name(direction: i8, any: i32)
    ensures
        asked_for(Callback::BrightnessStep(direction as i32)) == SettingsAction::BrightnessStep(
            direction,
        ),
        asked_for(Callback::IdleTimeoutStep(direction as i32)) == SettingsAction::IdleTimeoutStep(
            direction,
        ),
        asked_for(Callback::DimBrightnessStep(direction as i32))
            == SettingsAction::DimBrightnessStep(direction),
        asked_for(Callback::OpenSettings) == SettingsAction::Open,
        asked_for(Callback::CloseSettings) == SettingsAction::Close,
        asked_for(Callback::AutoDimToggle) == SettingsAction::ToggleAutoDim,
        asked_for(Callback::DimOnUsbToggle) == SettingsAction::ToggleDimOnUsb,
        asked_for(Callback::PowerOff) == SettingsAction::PowerOff,
        asked_for(Callback::Reboot) == SettingsAction::Reboot,
        asked_for(Callback::BrightnessStep(any)) matches SettingsAction::BrightnessStep(step) && (
        step - any) % 256 == 0,
        asked_for(Callback::IdleTimeoutStep(any)) matches SettingsAction::IdleTimeoutStep(step) && (
        step - any) % 256 == 0,
        asked_for(Callback::DimBrightnessStep(any)) matches SettingsAction::DimBrightnessStep(step)
            && (step - any) % 256 == 0,
{
}

/// The clock is called synchronized exactly where a time is shown, which takes a
/// clock that runs and was set by the host.
pub proof fn law_status_tells_of_the_time(snapshot: Snapshot)
    requires
        snapshot.datetime.civil().valid(),
        snapshot.utc_offset_minutes is Some ==> calendar::covered(snapshot.local_moment()),
    ensures
        clock_status(local_time(snapshot)) == if snapshot.clock_valid
            && snapshot.utc_offset_minutes is Some {
            "synced"@
        } else {
            "needs host sync"@
        },
        clock_text(local_time(snapshot)) == "--:--"@ <==> !(snapshot.clock_valid
            && snapshot.utc_offset_minutes is Some),
        local_time(snapshot) == snapshot.local(),
{
    reveal_strlit(":");
    reveal_strlit("--:--");
    if let Some(datetime) = local_time(snapshot) {
        text::law_padded_numbers_read_back(datetime.hour as nat);
        let shown = clock_text(local_time(snapshot));
        assert(shown[0] == text::padded(datetime.hour as nat)[0]);
        assert(text::is_digit(shown[0]));
        assert("--:--"@[0] == '-');
    }
}

} // verus!
