//! Events flowing from the peripheral tasks to the interface.

use crate::bringup::clock;
use crate::bringup::clock::ClockPage;
use crate::bringup::rtc::RtcEvent;
use crate::pmic::{PmicEvent, PowerKey};
use crate::rtc::DateTime;
use crate::touch::TouchState;
use vstd::prelude::*;

verus! {

/// Something the interface needs to wake up for.
#[derive(Debug, Clone, Copy)]
pub enum UiEvent<T> {
    PowerKey(PowerKey),
    TouchReady(bool),
    Touch(TouchState),
    Pmic(PmicEvent<T>),
    Rtc(RtcEvent),
    Brightness(u8),
    Uptime,
    Animation,
}

/// Every endpoint the interface waits on, with what waits there.
pub struct UiChannels<T> {
    pub power_key: Option<PowerKey>,
    pub touch_ready: Option<bool>,
    pub touches: Vec<TouchState>,
    pub pmic: Option<PmicEvent<T>>,
    pub rtc: Option<RtcEvent>,
    pub brightness: Option<u8>,
    /// Another second has passed.
    pub uptime: bool,
    /// The animation is due for its next step.
    pub animation: bool,
}

/// What waits at the endpoints.
pub struct Waiting<T> {
    pub power_key: Option<PowerKey>,
    pub touch_ready: Option<bool>,
    pub touches: Seq<TouchState>,
    pub pmic: Option<PmicEvent<T>>,
    pub rtc: Option<RtcEvent>,
    pub brightness: Option<u8>,
    pub uptime: bool,
    pub animation: bool,
}

impl<T> View for UiChannels<T> {
    type V = Waiting<T>;

    open spec fn view(&self) -> Waiting<T> {
        Waiting {
            power_key: self.power_key,
            touch_ready: self.touch_ready,
            touches: self.touches@,
            pmic: self.pmic,
            rtc: self.rtc,
            brightness: self.brightness,
            uptime: self.uptime,
            animation: self.animation,
        }
    }
}

impl<T> Waiting<T> {
    /// The event that comes first.
    pub open spec fn first(self) -> Option<UiEvent<T>> {
        if self.power_key is Some {
            Some(UiEvent::PowerKey(self.power_key->0))
        } else if self.touch_ready is Some {
            Some(UiEvent::TouchReady(self.touch_ready->0))
        } else if self.touches.len() > 0 {
            Some(UiEvent::Touch(self.touches[0]))
        } else if self.pmic is Some {
            Some(UiEvent::Pmic(self.pmic->0))
        } else if self.rtc is Some {
            Some(UiEvent::Rtc(self.rtc->0))
        } else if self.brightness is Some {
            Some(UiEvent::Brightness(self.brightness->0))
        } else if self.uptime {
            Some(UiEvent::Uptime)
        } else if self.animation {
            Some(UiEvent::Animation)
        } else {
            None
        }
    }

    /// The endpoints once an event was taken from its own.
    pub open spec fn without(self, event: Option<UiEvent<T>>) -> Waiting<T> {
        match event {
            Some(UiEvent::PowerKey(_)) => Waiting { power_key: None, ..self },
            Some(UiEvent::TouchReady(_)) => Waiting { touch_ready: None, ..self },
            Some(UiEvent::Touch(_)) => Waiting { touches: self.touches.drop_first(), ..self },
            Some(UiEvent::Pmic(_)) => Waiting { pmic: None, ..self },
            Some(UiEvent::Rtc(_)) => Waiting { rtc: None, ..self },
            Some(UiEvent::Brightness(_)) => Waiting { brightness: None, ..self },
            Some(UiEvent::Uptime) => Waiting { uptime: false, ..self },
            Some(UiEvent::Animation) => Waiting { animation: false, ..self },
            None => self,
        }
    }

    /// How many things wait.
    pub open spec fn count(self) -> int {
        crate::events::one(self.power_key is Some) + crate::events::one(self.touch_ready is Some)
            + self.touches.len() + crate::events::one(self.pmic is Some) + crate::events::one(
            self.rtc is Some,
        ) + crate::events::one(self.brightness is Some) + crate::events::one(self.uptime)
            + crate::events::one(self.animation)
    }
}

impl<T> UiChannels<T> {
    /// Nothing waits anywhere.
    pub fn new() -> (channels: Self)
        ensures
            channels@.count() == 0,
    {
        UiChannels {
            power_key: None,
            touch_ready: None,
            touches: Vec::new(),
            pmic: None,
            rtc: None,
            brightness: None,
            uptime: false,
            animation: false,
        }
    }

    /// Take the event that comes first, if anything waits. Everything else
    /// stays where it is.
    pub fn next_ui_event(&mut self) -> (event: Option<UiEvent<T>>)
        ensures
            event == old(self)@.first(),
            final(self)@ == old(self)@.without(event),
    {
        if let Some(key) = self.power_key.take() {
            return Some(UiEvent::PowerKey(key));
        }
        if let Some(ready) = self.touch_ready.take() {
            return Some(UiEvent::TouchReady(ready));
        }
        if self.touches.len() > 0 {
            return Some(UiEvent::Touch(self.touches.remove(0)));
        }
        if let Some(event) = self.pmic.take() {
            return Some(UiEvent::Pmic(event));
        }
        if let Some(event) = self.rtc.take() {
            return Some(UiEvent::Rtc(event));
        }
        if let Some(percent) = self.brightness.take() {
            return Some(UiEvent::Brightness(percent));
        }
        if self.uptime {
            self.uptime = false;
            return Some(UiEvent::Uptime);
        }
        if self.animation {
            self.animation = false;
            return Some(UiEvent::Animation);
        }
        None
    }
}

/// Nothing is swallowed by what comes first: as long as anything waits there is
/// an event, and exactly one thing fewer waits afterwards.
pub proof fn law_nothing_is_swallowed<T>(waiting: Waiting<T>)
    ensures
        waiting.first() is None <==> waiting.count() == 0,
        waiting.first() is Some ==> waiting.without(waiting.first()).count() == waiting.count() - 1,
{
}

/// A callback of the interface.
#[derive(Debug, Clone, Copy, PartialEq, Eq, Structural)]
pub enum Callback {
    BrightnessStep(i32),
    PowerOff,
    Reboot,
    RtcStep { field: i32, delta: i32 },
    RtcSave,
}

/// What a callback asks of the tasks.
#[derive(Debug, Clone, Copy, PartialEq, Eq, Structural)]
pub enum Request {
    Nothing,
    Brightness(u8),
    PowerOff,
    Reboot,
    SetClock(DateTime),
}

/// The sums a callback makes stay within machine numbers.
pub open spec fn answerable(page: ClockPage, brightness_percent: i32, callback: Callback) -> bool {
    match callback {
        Callback::BrightnessStep(delta) => i32::MIN <= brightness_percent + delta <= i32::MAX,
        Callback::RtcStep { field, delta } => i32::MIN <= page.editor.field(field) + delta
            <= i32::MAX,
        _ => true,
    }
}

/// The brightness that is shown after a callback.
pub open spec fn brightness_after(brightness_percent: i32, callback: Callback) -> int {
    match callback {
        Callback::BrightnessStep(delta) => clock::brightened(
            brightness_percent as int,
            delta as int,
        ),
        _ => brightness_percent as int,
    }
}

/// What a callback asks of the tasks.
pub open spec fn request_of(
    editor: clock::ClockEditor,
    brightness_percent: i32,
    callback: Callback,
) -> Request {
    match callback {
        Callback::BrightnessStep(_) => Request::Brightness(
            brightness_after(brightness_percent, callback) as u8,
        ),
        Callback::PowerOff => Request::PowerOff,
        Callback::Reboot => Request::Reboot,
        Callback::RtcStep { .. } => Request::Nothing,
        Callback::RtcSave => if editor.request().civil().valid() {
            Request::SetClock(editor.request())
        } else {
            Request::Nothing
        },
    }
}

/// Answer a callback of the interface: brightness and clock steps change what
/// is shown, and what the tasks have to do is handed back.
pub fn answer_callback(page: &mut ClockPage, brightness_percent: &mut i32, callback: Callback)
    -> (request: Request)
    requires
        answerable(*old(page), *old(brightness_percent), callback),
    ensures
        match callback {
            Callback::BrightnessStep(delta) => {
                &&& request == Request::Brightness(*final(brightness_percent) as u8)
                &&& *final(brightness_percent) == (if *old(brightness_percent) + delta < 5 {
                    5int
                } else if *old(brightness_percent) + delta > 100 {
                    100
                } else {
                    *old(brightness_percent) + delta
                })
                &&& *final(page) == *old(page)
            },
            Callback::PowerOff => {
                &&& request == Request::PowerOff
                &&& *final(page) == *old(page)
                &&& *final(brightness_percent) == *old(brightness_percent)
            },
            Callback::Reboot => {
                &&& request == Request::Reboot
                &&& *final(page) == *old(page)
                &&& *final(brightness_percent) == *old(brightness_percent)
            },
            Callback::RtcStep { field, delta } => {
                &&& request == Request::Nothing
                &&& 0 <= field <= 5 ==> final(page).editor == old(page).editor.stepped(
                    field,
                    delta as int,
                ).fitted() && final(page).dirty && final(page).status@ == "Unsaved changes"@
                    && final(page).time == old(page).time && final(page).date == old(page).date
                    && final(page).clock_valid == old(page).clock_valid
                &&& !(0 <= field <= 5) ==> *final(page) == *old(page)
                &&& *final(brightness_percent) == *old(brightness_percent)
            },
            Callback::RtcSave => {
                &&& request == if old(page).editor.request().civil().valid() {
                    Request::SetClock(old(page).editor.request())
                } else {
                    Request::Nothing
                }
                &&& final(page).status@ == if request is SetClock {
                    "Saving..."@
                } else {
                    "Invalid date"@
                }
                &&& *final(page) == (ClockPage { status: final(page).status, ..*old(page) })
                &&& *final(brightness_percent) == *old(brightness_percent)
            },
        },
        *final(brightness_percent) == brightness_after(*old(brightness_percent), callback),
        request == request_of(old(page).editor, *old(brightness_percent), callback),
{
    match callback {
        Callback::BrightnessStep(delta) => {
            let percent = clock::brightness_step(*brightness_percent, delta);
            *brightness_percent = percent as i32;
            Request::Brightness(percent)
        },
        Callback::PowerOff => Request::PowerOff,
        Callback::Reboot => Request::Reboot,
        Callback::RtcStep { field, delta } => {
            page.rtc_step(field, delta);
            Request::Nothing
        },
        Callback::RtcSave => match page.rtc_save() {
            Some(datetime) => Request::SetClock(datetime),
            None => Request::Nothing,
        },
    }
}

/// An event is what waited at its own endpoint, and taking it leaves every other
/// endpoint alone.
pub proof fn law_events_are_what_waited<T>(waiting: Waiting<T>)
    ensures
        ({
            let left = waiting.without(waiting.first());
            match waiting.first() {
                Some(UiEvent::PowerKey(key)) => waiting.power_key == Some(key) && left == (
                Waiting { power_key: None, ..waiting }),
                Some(UiEvent::TouchReady(ready)) => waiting.touch_ready == Some(ready) && left == (
                Waiting { touch_ready: None, ..waiting }),
                Some(UiEvent::Touch(state)) => waiting.touches == seq![state] + left.touches && left
                    == (Waiting { touches: left.touches, ..waiting }),
                Some(UiEvent::Pmic(event)) => waiting.pmic == Some(event) && left == (Waiting {
                    pmic: None,
                    ..waiting
                }),
                Some(UiEvent::Rtc(event)) => waiting.rtc == Some(event) && left == (Waiting {
                    rtc: None,
                    ..waiting
                }),
                Some(UiEvent::Brightness(percent)) => waiting.brightness == Some(percent) && left
                    == (Waiting { brightness: None, ..waiting }),
                Some(UiEvent::Uptime) => waiting.uptime && left == (Waiting {
                    uptime: false,
                    ..waiting
                }),
                Some(UiEvent::Animation) => waiting.animation && left == (Waiting {
                    animation: false,
                    ..waiting
                }),
                None => left == waiting,
            }
        }),
{
    if waiting.touches.len() > 0 {
        assert(waiting.touches =~= seq![waiting.touches[0]] + waiting.touches.drop_first());
    }
}

/// How far behind the first an event comes.
pub open spec fn rank<T>(event: UiEvent<T>) -> int {
    match event {
        UiEvent::PowerKey(_) => 0,
        UiEvent::TouchReady(_) => 1,
        UiEvent::Touch(_) => 2,
        UiEvent::Pmic(_) => 3,
        UiEvent::Rtc(_) => 4,
        UiEvent::Brightness(_) => 5,
        UiEvent::Uptime => 6,
        UiEvent::Animation => 7,
    }
}

/// Events come in their order: whatever else waits does not come before the event
/// that is taken.
pub proof fn law_events_come_in_their_order<T>(waiting: Waiting<T>)
    ensures
        waiting.first() matches Some(event) ==> {
            &&& waiting.power_key is Some ==> rank(event) == 0
            &&& waiting.touch_ready is Some ==> rank(event) <= 1
            &&& waiting.touches.len() > 0 ==> rank(event) <= 2
            &&& waiting.pmic is Some ==> rank(event) <= 3
            &&& waiting.rtc is Some ==> rank(event) <= 4
            &&& waiting.brightness is Some ==> rank(event) <= 5
            &&& waiting.uptime ==> rank(event) <= 6
        },
{
}

/// The brightness that is shown is the one the panel is asked for, and both stay
/// within what the interface offers. No other callback changes it.
pub proof fn law_shown_brightness_is_asked_for(
    editor: clock::ClockEditor,
    brightness_percent: i32,
    callback: Callback,
)
    ensures
        callback matches Callback::BrightnessStep(delta) ==> {
            let shown = brightness_after(brightness_percent, callback);
            &&& request_of(editor, brightness_percent, callback) == Request::Brightness(shown as u8)
            &&& 5 <= shown <= 100
            &&& 5 <= brightness_percent + delta <= 100 ==> shown == brightness_percent + delta
        },
        !(callback is BrightnessStep) ==> {
            &&& brightness_after(brightness_percent, callback) == brightness_percent
            &&& !(request_of(editor, brightness_percent, callback) is Brightness)
        },
        request_of(editor, brightness_percent, callback) is PowerOff <==> callback is PowerOff,
        request_of(editor, brightness_percent, callback) is Reboot <==> callback is Reboot,
{
}

/// Saving asks for the date and time that the editor shows, where they are real,
/// and nothing else sets the clock.
pub proof fn law_saving_asks_for_what_is_shown(
    editor: clock::ClockEditor,
    brightness_percent: i32,
    callback: Callback,
)
    ensures
        editor.valid() ==> request_of(editor, brightness_percent, Callback::RtcSave)
            == Request::SetClock(editor.request()) && clock::ClockEditor::showing(editor.request())
            == editor,
        request_of(editor, brightness_percent, callback) matches Request::SetClock(datetime)
            ==> callback is RtcSave && datetime.civil().valid(),
{
    if editor.valid() {
        clock::law_real_dates_can_be_saved(editor);
    }
}

} // verus!
