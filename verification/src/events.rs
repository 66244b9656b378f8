//! Events flowing from the peripheral tasks to the interface.

use crate::icd::UsageSnapshot;
use crate::pmic::{PmicEvent, PowerKey};
use crate::rtc::Snapshot;
use crate::touch::TouchState;
use vstd::prelude::*;

verus! {

#[derive(Debug, Clone, Copy, PartialEq, Eq, Structural)]
pub enum BleState {
    Advertising,
    Connected,
    Error,
}

#[derive(Debug, Clone, Copy, PartialEq, Eq, Structural)]
pub enum SettingsAction {
    Open,
    Close,
    BrightnessStep(i8),
    ToggleAutoDim,
    ToggleDimOnUsb,
    IdleTimeoutStep(i8),
    DimBrightnessStep(i8),
    PowerOff,
    Reboot,
}

#[derive(Debug, Clone, Copy, PartialEq, Eq, Structural)]
pub enum RtcEvent {
    Online(Snapshot),
    Synced(Snapshot),
    SyncFailed,
    Error,
}

/// Something the interface needs to wake up for.
#[derive(Debug, Clone, Copy)]
pub enum UiEvent<T> {
    PowerKey(PowerKey),
    TouchReady(bool),
    Touch(TouchState),
    Pmic(PmicEvent<T>),
    Rtc(RtcEvent),
    Settings(SettingsAction),
    Ble(BleState),
    Maintenance,
    Animation,
    /// Nobody has touched the panel for a while; dim it.
    Idle,
    /// The host pushed a fresh usage snapshot.
    Usage(UsageSnapshot),
}

/// Every endpoint the interface waits on, with what waits there.
///
/// Signals keep their latest value, channels queue, and deadlines are past or
/// not.
pub struct UiChannels<T> {
    pub power_key: Option<PowerKey>,
    pub touch_ready: Option<bool>,
    pub touches: Vec<TouchState>,
    pub pmic: Option<PmicEvent<T>>,
    pub rtc: Option<RtcEvent>,
    pub settings: Vec<SettingsAction>,
    /// The maintenance interval is over.
    pub maintenance: bool,
    /// The animation is due for its next step.
    pub animation: bool,
    /// The idle deadline has passed.
    pub idle: bool,
    pub ble: Option<BleState>,
    pub usage: Option<UsageSnapshot>,
}

/// What waits at the endpoints.
pub struct Waiting<T> {
    pub power_key: Option<PowerKey>,
    pub touch_ready: Option<bool>,
    pub touches: Seq<TouchState>,
    pub pmic: Option<PmicEvent<T>>,
    pub rtc: Option<RtcEvent>,
    pub settings: Seq<SettingsAction>,
    pub maintenance: bool,
    pub animation: bool,
    pub idle: bool,
    pub ble: Option<BleState>,
    pub usage: Option<UsageSnapshot>,
}

impl<T> View for UiChannels<T> {
    type V = Waiting<T>;

    open spec fn view(&self) -> Waiting<T> {
        Waiting {
            power_key: self.power_key,
            touch_ready: self.touch_ready,
            touches: self.touches@,
            pmic: self.pmic,
            rtc: self.rtc,
            settings: self.settings@,
            maintenance: self.maintenance,
            animation: self.animation,
            idle: self.idle,
            ble: self.ble,
            usage: self.usage,
        }
    }
}

/// One for an endpoint where something waits.
pub open spec fn one(waits: bool) -> int {
    if waits {
        1
    } else {
        0
    }
}

impl<T> Waiting<T> {
    /// The event that comes first: peripherals before the rest, the rest before
    /// the idle deadline, and data from the host last.
    pub open spec fn first(self) -> Option<UiEvent<T>> {
        if self.power_key is Some {
            Some(UiEvent::PowerKey(self.power_key->0))
        } else if self.touch_ready is Some {
            Some(UiEvent::TouchReady(self.touch_ready->0))
        } else if self.touches.len() > 0 {
            Some(UiEvent::Touch(self.touches[0]))
        } else if self.pmic is Some {
            Some(UiEvent::Pmic(self.pmic->0))
        } else if self.rtc is Some {
            Some(UiEvent::Rtc(self.rtc->0))
        } else if self.settings.len() > 0 {
            Some(UiEvent::Settings(self.settings[0]))
        } else if self.maintenance {
            Some(UiEvent::Maintenance)
        } else if self.animation {
            Some(UiEvent::Animation)
        } else if self.idle {
            Some(UiEvent::Idle)
        } else if self.ble is Some {
            Some(UiEvent::Ble(self.ble->0))
        } else if self.usage is Some {
            Some(UiEvent::Usage(self.usage->0))
        } else {
            None
        }
    }

    /// The endpoints once an event was taken from its own.
    pub open spec fn without(self, event: Option<UiEvent<T>>) -> Waiting<T> {
        match event {
            Some(UiEvent::PowerKey(_)) => Waiting { power_key: None, ..self },
            Some(UiEvent::TouchReady(_)) => Waiting { touch_ready: None, ..self },
            Some(UiEvent::Touch(_)) => Waiting { touches: self.touches.drop_first(), ..self },
            Some(UiEvent::Pmic(_)) => Waiting { pmic: None, ..self },
            Some(UiEvent::Rtc(_)) => Waiting { rtc: None, ..self },
            Some(UiEvent::Settings(_)) => Waiting { settings: self.settings.drop_first(), ..self },
            Some(UiEvent::Maintenance) => Waiting { maintenance: false, ..self },
            Some(UiEvent::Animation) => Waiting { animation: false, ..self },
            Some(UiEvent::Idle) => Waiting { idle: false, ..self },
            Some(UiEvent::Ble(_)) => Waiting { ble: None, ..self },
            Some(UiEvent::Usage(_)) => Waiting { usage: None, ..self },
            None => self,
        }
    }

    /// How many things wait.
    pub open spec fn count(self) -> int {
        one(self.power_key is Some) + one(self.touch_ready is Some) + self.touches.len() + one(
            self.pmic is Some,
        ) + one(self.rtc is Some) + self.settings.len() + one(self.maintenance) + one(
            self.animation,
        ) + one(self.idle) + one(self.ble is Some) + one(self.usage is Some)
    }
}

impl<T> UiChannels<T> {
    /// Nothing waits anywhere.
    pub fn new() -> (channels: Self)
        ensures
            channels@.count() == 0,
    {
        UiChannels {
            power_key: None,
            touch_ready: None,
            touches: Vec::new(),
            pmic: None,
            rtc: None,
            settings: Vec::new(),
            maintenance: false,
            animation: false,
            idle: false,
            ble: None,
            usage: None,
        }
    }

    /// Take the event that comes first, if anything waits. Everything else
    /// stays where it is.
    pub fn next_ui_event(&mut self) -> (event: Option<UiEvent<T>>)
        ensures
            event == old(self)@.first(),
            final(self)@ == old(self)@.without(event),
    {
        if let Some(key) = self.power_key.take() {
            return Some(UiEvent::PowerKey(key));
        }
        if let Some(ready) = self.touch_ready.take() {
            return Some(UiEvent::TouchReady(ready));
        }
        if self.touches.len() > 0 {
            return Some(UiEvent::Touch(self.touches.remove(0)));
        }
        if let Some(event) = self.pmic.take() {
            return Some(UiEvent::Pmic(event));
        }
        if let Some(event) = self.rtc.take() {
            return Some(UiEvent::Rtc(event));
        }
        if self.settings.len() > 0 {
            return Some(UiEvent::Settings(self.settings.remove(0)));
        }
        if self.maintenance {
            self.maintenance = false;
            return Some(UiEvent::Maintenance);
        }
        if self.animation {
            self.animation = false;
            return Some(UiEvent::Animation);
        }
        if self.idle {
            self.idle = false;
            return Some(UiEvent::Idle);
        }
        if let Some(state) = self.ble.take() {
            return Some(UiEvent::Ble(state));
        }
        match self.usage.take() {
            Some(snapshot) => Some(UiEvent::Usage(snapshot)),
            None => None,
        }
    }
}

/// The idle deadline has passed.
pub open spec fn passed(idle_deadline: Option<u64>, now: u64) -> bool {
    idle_deadline matches Some(deadline) && deadline <= now
}

/// The idle deadline has passed, both times in ticks of one clock. It is
/// absolute: other events coming first do not push it out.
pub fn idle_due(idle_deadline: Option<u64>, now: u64) -> (due: bool)
    ensures
        due == (idle_deadline matches Some(deadline) && deadline <= now),
        due == passed(idle_deadline, now),
{
    match idle_deadline {
        Some(deadline) => deadline <= now,
        None => false,
    }
}

/// Nothing is swallowed by what comes first: as long as anything waits there is
/// an event, and exactly one thing fewer waits afterwards.
pub proof fn law_nothing_is_swallowed<T>(waiting: Waiting<T>)
    ensures
        waiting.first() is None <==> waiting.count() == 0,
        waiting.first() is Some ==> waiting.without(waiting.first()).count() == waiting.count() - 1,
{
}

/// The power key comes before everything else, and touches and settings arrive
/// in the order in which they were made.
pub proof fn law_queues_keep_their_order<T>(waiting: Waiting<T>)
    ensures
        waiting.power_key matches Some(key) ==> waiting.first() == Some(
            UiEvent::<T>::PowerKey(key),
        ),
        waiting.first() matches Some(UiEvent::Touch(state)) ==> waiting.touches == seq![state]
            + waiting.without(waiting.first()).touches,
        waiting.first() matches Some(UiEvent::Settings(action)) ==> waiting.settings == seq![
            action,
        ] + waiting.without(waiting.first()).settings,
{
    if waiting.touches.len() > 0 {
        assert(waiting.touches =~= seq![waiting.touches[0]] + waiting.touches.drop_first());
    }
    if waiting.settings.len() > 0 {
        assert(waiting.settings =~= seq![waiting.settings[0]] + waiting.settings.drop_first());
    }
}

/// A deadline passes once and for all: not before its time, at its time and from
/// then on, and none never.
pub proof fn law_deadlines_pass(deadline: u64, now: u64, later: u64)
    requires
        now <= later,
    ensures
        now < deadline ==> !passed(Some(deadline), now),
        passed(Some(deadline), deadline),
        passed(Some(deadline), now) ==> passed(Some(deadline), later),
        !passed(None, now),
{
}

/// An event is what waited at its own endpoint, and taking it leaves every other
/// endpoint alone.
pub proof fn law_events_are_what_waited<T>(waiting: Waiting<T>)
    ensures
        ({
            let left = waiting.without(waiting.first());
            match waiting.first() {
                Some(UiEvent::PowerKey(key)) => waiting.power_key == Some(key) && left == (
                Waiting { power_key: None, ..waiting }),
                Some(UiEvent::TouchReady(ready)) => waiting.touch_ready == Some(ready) && left == (
                Waiting { touch_ready: None, ..waiting }),
                Some(UiEvent::Touch(state)) => waiting.touches.len() > 0 && state
                    == waiting.touches[0] && left == (Waiting { touches: left.touches, ..waiting }),
                Some(UiEvent::Pmic(event)) => waiting.pmic == Some(event) && left == (Waiting {
                    pmic: None,
                    ..waiting
                }),
                Some(UiEvent::Rtc(event)) => waiting.rtc == Some(event) && left == (Waiting {
                    rtc: None,
                    ..waiting
                }),
                Some(UiEvent::Settings(action)) => waiting.settings.len() > 0 && action
                    == waiting.settings[0] && left == (Waiting {
                    settings: left.settings,
                    ..waiting
                }),
                Some(UiEvent::Maintenance) => waiting.maintenance && left == (Waiting {
                    maintenance: false,
                    ..waiting
                }),
                Some(UiEvent::Animation) => waiting.animation && left == (Waiting {
                    animation: false,
                    ..waiting
                }),
                Some(UiEvent::Idle) => waiting.idle && left == (Waiting { idle: false, ..waiting }),
                Some(UiEvent::Ble(state)) => waiting.ble == Some(state) && left == (Waiting {
                    ble: None,
                    ..waiting
                }),
                Some(UiEvent::Usage(snapshot)) => waiting.usage == Some(snapshot) && left == (
                Waiting { usage: None, ..waiting }),
                None => left == waiting,
            }
        }),
{
}

/// How far behind the first an event comes.
pub open spec fn rank<T>(event: UiEvent<T>) -> int {
    match event {
        UiEvent::PowerKey(_) => 0,
        UiEvent::TouchReady(_) => 1,
        UiEvent::Touch(_) => 2,
        UiEvent::Pmic(_) => 3,
        UiEvent::Rtc(_) => 4,
        UiEvent::Settings(_) => 5,
        UiEvent::Maintenance => 6,
        UiEvent::Animation => 7,
        UiEvent::Idle => 8,
        UiEvent::Ble(_) => 9,
        UiEvent::Usage(_) => 10,
    }
}

/// Events come in their order: whatever else waits does not come before the event
/// that is taken.
pub proof fn law_events_come_in_their_order<T>(waiting: Waiting<T>)
    ensures
        waiting.first() matches Some(event) ==> {
            &&& waiting.power_key is Some ==> rank(event) == 0
            &&& waiting.touch_ready is Some ==> rank(event) <= 1
            &&& waiting.touches.len() > 0 ==> rank(event) <= 2
            &&& waiting.pmic is Some ==> rank(event) <= 3
            &&& waiting.rtc is Some ==> rank(event) <= 4
            &&& waiting.settings.len() > 0 ==> rank(event) <= 5
            &&& waiting.maintenance ==> rank(event) <= 6
            &&& waiting.animation ==> rank(event) <= 7
            &&& waiting.idle ==> rank(event) <= 8
            &&& waiting.ble is Some ==> rank(event) <= 9
        },
{
}

} // verus!
