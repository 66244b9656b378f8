//! The power management chip: telemetry and the power key.

use vstd::prelude::*;

verus! {

/// Chip identifiers this board is known to carry.
pub const CHIP_ID: u8 = 0x4a;

pub const CHIP_ID_VARIANT: u8 = 0x47;

/// Telemetry is read this often.
pub const SAMPLE_INTERVAL_SECONDS: u64 = 1;

/// The power key is polled this often. The chip latches the key, so a press is
/// delayed by this much at most, and never lost.
pub const POLL_INTERVAL_MS: u64 = 200;

#[derive(Debug, Clone, Copy, PartialEq, Eq, Structural)]
pub enum PowerKey {
    Short,
    Long,
}

/// A reading of the chip. `T` is the temperature as the chip reports it.
#[derive(Debug, Clone, Copy)]
pub struct PmicStats<T> {
    pub battery_mv: u16,
    pub vbus_mv: u16,
    pub vsys_mv: u16,
    pub temperature_c: T,
    pub state_of_charge: u8,
    pub battery_present: bool,
    pub charging: bool,
    pub vbus_good: bool,
}

#[derive(Debug, Clone, Copy, PartialEq, Eq, Structural)]
pub enum AdcChannel {
    BatteryVoltage,
    VbusVoltage,
    VsysVoltage,
    DieTemperature,
}

/// A step of bringing the chip up.
#[derive(Debug, Clone, Copy, PartialEq, Eq, Structural)]
pub enum PmicSetup {
    ReadChipId,
    EnableBatteryDetection,
    EnableChannel(AdcChannel),
}

/// The steps of bringing the chip up, in order.
pub open spec fn setup_steps() -> Seq<PmicSetup> {
    seq![
        PmicSetup::ReadChipId,
        PmicSetup::EnableBatteryDetection,
        PmicSetup::EnableChannel(AdcChannel::BatteryVoltage),
        PmicSetup::EnableChannel(AdcChannel::VbusVoltage),
        PmicSetup::EnableChannel(AdcChannel::VsysVoltage),
        PmicSetup::EnableChannel(AdcChannel::DieTemperature),
    ]
}

/// The steps of bringing the chip up. The chip must respond before any register
/// is changed; power rails are left alone.
pub fn init() -> (steps: [PmicSetup; 6])
    ensures
        steps@ == seq![
            PmicSetup::ReadChipId,
            PmicSetup::EnableBatteryDetection,
            PmicSetup::EnableChannel(AdcChannel::BatteryVoltage),
            PmicSetup::EnableChannel(AdcChannel::VbusVoltage),
            PmicSetup::EnableChannel(AdcChannel::VsysVoltage),
            PmicSetup::EnableChannel(AdcChannel::DieTemperature),
        ],
        steps@ == setup_steps(),
{
    let steps = [
        PmicSetup::ReadChipId,
        PmicSetup::EnableBatteryDetection,
        PmicSetup::EnableChannel(AdcChannel::BatteryVoltage),
        PmicSetup::EnableChannel(AdcChannel::VbusVoltage),
        PmicSetup::EnableChannel(AdcChannel::VsysVoltage),
        PmicSetup::EnableChannel(AdcChannel::DieTemperature),
    ];
    assert(steps@ =~= seq![
        PmicSetup::ReadChipId,
        PmicSetup::EnableBatteryDetection,
        PmicSetup::EnableChannel(AdcChannel::BatteryVoltage),
        PmicSetup::EnableChannel(AdcChannel::VbusVoltage),
        PmicSetup::EnableChannel(AdcChannel::VsysVoltage),
        PmicSetup::EnableChannel(AdcChannel::DieTemperature),
    ]);
    steps
}

/// Whether the identifier is one the board is known to carry. Others are worth
/// a warning, no more.
pub fn is_known_chip(chip_id: u8) -> (known: bool)
    ensures
        known == (chip_id == 0x4a || chip_id == 0x47),
{
    chip_id == CHIP_ID || chip_id == CHIP_ID_VARIANT
}

/// One reading that telemetry is made of.
#[derive(Debug, Clone, Copy, PartialEq, Eq, Structural)]
pub enum PmicReading {
    BatteryVoltage,
    VbusVoltage,
    VsysVoltage,
    DieTemperature,
    BatteryLevel,
    Charging,
}

/// The readings that make sense, in the order in which they are taken, once it
/// is known whether there is a battery and a supply.
pub open spec fn readings_of(battery_present: bool, vbus_good: bool) -> Seq<PmicReading> {
    (if battery_present {
        seq![PmicReading::BatteryVoltage]
    } else {
        Seq::empty()
    }) + (if vbus_good {
        seq![PmicReading::VbusVoltage]
    } else {
        Seq::empty()
    }) + seq![PmicReading::VsysVoltage, PmicReading::DieTemperature] + (if battery_present {
        seq![PmicReading::BatteryLevel]
    } else {
        Seq::empty()
    }) + seq![PmicReading::Charging]
}

/// The readings to take.
pub fn readings(battery_present: bool, vbus_good: bool) -> (readings: Vec<PmicReading>)
    ensures
        readings@ == readings_of(battery_present, vbus_good),
{
    let mut readings: Vec<PmicReading> = Vec::new();
    if battery_present {
        readings.push(PmicReading::BatteryVoltage);
    }
    if vbus_good {
        readings.push(PmicReading::VbusVoltage);
    }
    readings.push(PmicReading::VsysVoltage);
    readings.push(PmicReading::DieTemperature);
    if battery_present {
        readings.push(PmicReading::BatteryLevel);
    }
    readings.push(PmicReading::Charging);
    assert(readings@ =~= readings_of(battery_present, vbus_good));
    readings
}

/// What a reading comes to: zero where there is nothing to read or it was not
/// taken.
pub open spec fn counted(there: bool, reading: Option<u16>) -> u16 {
    if there && reading is Some {
        reading->0
    } else {
        0
    }
}

/// Telemetry from the readings.
pub open spec fn telemetry<T>(
    battery_present: bool,
    vbus_good: bool,
    battery_mv: Option<u16>,
    vbus_mv: Option<u16>,
    vsys_mv: u16,
    temperature_c: T,
    state_of_charge: Option<u8>,
    charging: bool,
) -> PmicStats<T> {
    PmicStats {
        battery_mv: counted(battery_present, battery_mv),
        vbus_mv: counted(vbus_good, vbus_mv),
        vsys_mv,
        temperature_c,
        state_of_charge: if battery_present && state_of_charge is Some {
            state_of_charge->0
        } else {
            0
        },
        battery_present,
        charging,
        vbus_good,
    }
}

/// Telemetry from the readings; those not taken are absent and count as zero.
pub fn read_stats<T>(
    battery_present: bool,
    vbus_good: bool,
    battery_mv: Option<u16>,
    vbus_mv: Option<u16>,
    vsys_mv: u16,
    temperature_c: T,
    state_of_charge: Option<u8>,
    charging: bool,
) -> (stats: PmicStats<T>)
    ensures
        stats == (PmicStats {
            battery_mv: if battery_present && battery_mv is Some {
                battery_mv->0
            } else {
                0
            },
            vbus_mv: if vbus_good && vbus_mv is Some {
                vbus_mv->0
            } else {
                0
            },
            vsys_mv,
            temperature_c,
            state_of_charge: if battery_present && state_of_charge is Some {
                state_of_charge->0
            } else {
                0
            },
            battery_present,
            charging,
            vbus_good,
        }),
        stats.battery_mv == counted(battery_present, battery_mv),
        stats.vbus_mv == counted(vbus_good, vbus_mv),
        stats == telemetry(
            battery_present,
            vbus_good,
            battery_mv,
            vbus_mv,
            vsys_mv,
            temperature_c,
            state_of_charge,
            charging,
        ),
{
    PmicStats {
        battery_mv: match battery_mv {
            Some(mv) => if battery_present {
                mv
            } else {
                0
            },
            None => 0,
        },
        vbus_mv: match vbus_mv {
            Some(mv) => if vbus_good {
                mv
            } else {
                0
            },
            None => 0,
        },
        vsys_mv,
        temperature_c,
        state_of_charge: match state_of_charge {
            Some(level) => if battery_present {
                level
            } else {
                0
            },
            None => 0,
        },
        battery_present,
        charging,
        vbus_good,
    }
}

/// What the interface is told of telemetry.
#[derive(Debug, Clone, Copy)]
pub enum PmicEvent<T> {
    Online(PmicStats<T>),
    Error,
}

/// What happened to the task. Times are ticks of a clock that never runs
/// backwards.
pub enum PmicInput<T> {
    /// The chip was brought up at a time, or could not be.
    Initialized { ok: bool, now: u64 },
    /// A pause ended; someone may have asked to power off.
    Woke { power_off_requested: bool },
    /// The chip took the request to power off, or refused it.
    PowerOffTried,
    /// The key was polled at a time; a failed poll counts as no press.
    KeyPolled { key: Option<PowerKey>, now: u64 },
    /// Telemetry was read, or could not be.
    StatsRead(Option<PmicStats<T>>),
}

/// What the task does next.
#[derive(Debug, Clone, Copy, PartialEq, Eq, Structural)]
pub enum PmicAction {
    Initialize,
    /// See whether someone asked to power off, without waiting.
    CheckPowerOff,
    PowerOff,
    PollKey,
    ReadStats,
    Pause,
    Stop,
}

/// One step of the task: what to publish, and what to do next.
pub struct PmicStep<T> {
    pub key: Option<PowerKey>,
    pub stats: Option<PmicEvent<T>>,
    pub action: PmicAction,
}

/// Polls the power key and reads telemetry.
#[derive(Debug, Clone, Copy, PartialEq, Eq, Structural)]
pub struct PmicTask {
    pub doing: PmicAction,
    /// No telemetry was read yet.
    pub first_sample: bool,
    /// When telemetry was last asked for.
    pub last_sample: u64,
    /// The clock's ticks in a second.
    pub ticks_per_second: u64,
}

impl PmicTask {
    /// Telemetry is due: none was read yet, or a second has passed.
    pub open spec fn due(self, now: u64) -> bool {
        self.first_sample || now - self.last_sample >= SAMPLE_INTERVAL_SECONDS * self.ticks_per_second
    }

    /// The state after an input. An input that the task does not wait for
    /// changes nothing.
    pub open spec fn after<T>(self, input: PmicInput<T>) -> PmicTask {
        match (self.doing, input) {
            (PmicAction::Initialize, PmicInput::Initialized { ok, now }) => if ok {
                PmicTask {
                    doing: PmicAction::CheckPowerOff,
                    first_sample: true,
                    last_sample: now,
                    ..self
                }
            } else {
                PmicTask { doing: PmicAction::Stop, ..self }
            },
            (PmicAction::CheckPowerOff, PmicInput::Woke { power_off_requested })
            | (PmicAction::Pause, PmicInput::Woke { power_off_requested }) => PmicTask {
                doing: if power_off_requested {
                    PmicAction::PowerOff
                } else {
                    PmicAction::PollKey
                },
                ..self
            },
            (PmicAction::PowerOff, PmicInput::PowerOffTried) => PmicTask {
                doing: PmicAction::PollKey,
                ..self
            },
            (PmicAction::PollKey, PmicInput::KeyPolled { now, .. }) => if self.due(now) {
                PmicTask { doing: PmicAction::ReadStats, last_sample: now, ..self }
            } else {
                PmicTask { doing: PmicAction::Pause, ..self }
            },
            (PmicAction::ReadStats, PmicInput::StatsRead(stats)) => PmicTask {
                doing: PmicAction::Pause,
                first_sample: self.first_sample && stats is None,
                ..self
            },
            _ => self,
        }
    }

    /// A press that the interface is told of.
    pub open spec fn pressed<T>(self, input: PmicInput<T>) -> Option<PowerKey> {
        match (self.doing, input) {
            (PmicAction::PollKey, PmicInput::KeyPolled { key, .. }) => key,
            _ => None,
        }
    }

    /// Telemetry that the interface is told of.
    pub open spec fn published<T>(self, input: PmicInput<T>) -> Option<PmicEvent<T>> {
        match (self.doing, input) {
            (PmicAction::Initialize, PmicInput::Initialized { ok, .. }) => if ok {
                None
            } else {
                Some(PmicEvent::Error)
            },
            (PmicAction::ReadStats, PmicInput::StatsRead(Some(stats))) => Some(
                PmicEvent::Online(stats),
            ),
            (PmicAction::ReadStats, PmicInput::StatsRead(None)) => Some(PmicEvent::Error),
            _ => None,
        }
    }

    /// A task that is about to start, with a clock of this rate.
    pub fn new(ticks_per_second: u64) -> (task: Self)
        ensures
            task == (PmicTask {
                doing: PmicAction::Initialize,
                first_sample: true,
                last_sample: 0,
                ticks_per_second,
            }),
    {
        PmicTask {
            doing: PmicAction::Initialize,
            first_sample: true,
            last_sample: 0,
            ticks_per_second,
        }
    }

    /// Take one step.
    pub fn step<T>(&mut self, input: PmicInput<T>) -> (step: PmicStep<T>)
        ensures
            *final(self) == old(self).after(input),
            step.key == old(self).pressed(input),
            step.stats == old(self).published(input),
            step.action == final(self).doing,
    {
        let mut key: Option<PowerKey> = None;
        let mut stats: Option<PmicEvent<T>> = None;
        match (self.doing, input) {
            (PmicAction::Initialize, PmicInput::Initialized { ok, now }) => {
                if ok {
                    self.doing = PmicAction::CheckPowerOff;
                    self.first_sample = true;
                    self.last_sample = now;
                } else {
                    self.doing = PmicAction::Stop;
                    stats = Some(PmicEvent::Error);
                }
            },
            (PmicAction::CheckPowerOff, PmicInput::Woke { power_off_requested })
            | (PmicAction::Pause, PmicInput::Woke { power_off_requested }) => {
                self.doing = if power_off_requested {
                    PmicAction::PowerOff
                } else {
                    PmicAction::PollKey
                };
            },
            (PmicAction::PowerOff, PmicInput::PowerOffTried) => {
                self.doing = PmicAction::PollKey;
            },
            (PmicAction::PollKey, PmicInput::KeyPolled { key: polled, now }) => {
                key = polled;
                if self.first_sample || (now >= self.last_sample && now - self.last_sample
                    >= SAMPLE_INTERVAL_SECONDS * self.ticks_per_second) {
                    self.last_sample = now;
                    self.doing = PmicAction::ReadStats;
                } else {
                    self.doing = PmicAction::Pause;
                }
            },
            (PmicAction::ReadStats, PmicInput::StatsRead(read)) => {
                self.doing = PmicAction::Pause;
                stats = match read {
                    Some(read) => {
                        self.first_sample = false;
                        Some(PmicEvent::Online(read))
                    },
                    None => Some(PmicEvent::Error),
                };
            },
            _ => {},
        }
        PmicStep { key, stats, action: self.doing }
    }
}

/// No press is lost: whatever else is going on, a key that a poll returned goes
/// to the interface, and no other step makes one up.
pub proof fn law_presses_reach_the_interface<T>(task: PmicTask, input: PmicInput<T>)
    ensures
        task.doing is PollKey ==> (input matches PmicInput::KeyPolled { key, .. }
            ==> task.pressed(input) == key),
        !(task.doing is PollKey) ==> task.pressed(input) is None,
{
}

/// Once telemetry was read, the chip is asked again no sooner than a second
/// after it was last asked; until then it is asked after every poll.
pub proof fn law_telemetry_keeps_its_interval<T>(
    task: PmicTask,
    key: Option<PowerKey>,
    now: u64,
)
    requires
        task.doing is PollKey,
    ensures
        ({
            let next = task.after(PmicInput::<T>::KeyPolled { key, now });
            &&& next.doing is ReadStats || next.doing is Pause
            &&& next.doing is ReadStats ==> next.last_sample == now
            &&& !task.first_sample && next.doing is ReadStats ==> now >= task.last_sample
                + SAMPLE_INTERVAL_SECONDS * task.ticks_per_second
            &&& next.ticks_per_second == task.ticks_per_second
            &&& task.first_sample ==> next.doing is ReadStats
        }),
{
}

/// The chip is identified before anything is changed, and every channel that
/// telemetry reads is enabled, once.
pub proof fn law_setup_covers_the_telemetry(channel: AdcChannel)
    ensures
        setup_steps()[0] == PmicSetup::ReadChipId,
        setup_steps().contains(PmicSetup::EnableBatteryDetection),
        setup_steps().contains(PmicSetup::EnableChannel(channel)),
        setup_steps().no_duplicates(),
{
    let steps = setup_steps();
    assert(steps[1] == PmicSetup::EnableBatteryDetection);
    let index: int = match channel {
        AdcChannel::BatteryVoltage => 2,
        AdcChannel::VbusVoltage => 3,
        AdcChannel::VsysVoltage => 4,
        AdcChannel::DieTemperature => 5,
    };
    assert(steps[index] == PmicSetup::EnableChannel(channel));
}

/// Only what is there is read: the battery's voltage and level where there is a
/// battery, the supply's voltage where there is one, and the rest always. Nothing
/// is read twice.
pub proof fn law_readings_are_of_what_is_there(battery_present: bool, vbus_good: bool)
    ensures
        ({
            let readings = readings_of(battery_present, vbus_good);
            &&& readings.contains(PmicReading::BatteryVoltage) <==> battery_present
            &&& readings.contains(PmicReading::BatteryLevel) <==> battery_present
            &&& readings.contains(PmicReading::VbusVoltage) <==> vbus_good
            &&& readings.contains(PmicReading::VsysVoltage)
            &&& readings.contains(PmicReading::DieTemperature)
            &&& readings.contains(PmicReading::Charging)
            &&& readings.no_duplicates()
        }),
{
    let readings = readings_of(battery_present, vbus_good);
    let first: int = if battery_present {
        1
    } else {
        0
    };
    let second: int = if vbus_good {
        first + 1
    } else {
        first
    };
    assert(battery_present ==> readings[0] == PmicReading::BatteryVoltage);
    assert(vbus_good ==> readings[first] == PmicReading::VbusVoltage);
    assert(readings[second] == PmicReading::VsysVoltage);
    assert(readings[second + 1] == PmicReading::DieTemperature);
    assert(battery_present ==> readings[second + 2] == PmicReading::BatteryLevel);
    assert(readings[second + 2 + first] == PmicReading::Charging);
    assert(readings.len() == second + 3 + first);
}

/// A reading that was taken of something that is there is kept as it is, and
/// anything else comes to nothing.
pub proof fn law_taken_readings_are_kept(there: bool, mv: u16)
    ensures
        counted(true, Some(mv)) == mv,
        counted(false, Some(mv)) == 0,
        counted(there, None) == 0,
{
}

/// A request to power off is served before anything else: whenever it is found,
/// the chip is asked to power off, and the key is polled again after that.
/// Without one the key is polled at once.
pub proof fn law_power_off_is_served<T>(task: PmicTask)
    requires
        task.doing is CheckPowerOff || task.doing is Pause,
    ensures
        ({
            let asked = task.after(PmicInput::<T>::Woke { power_off_requested: true });
            &&& asked.doing is PowerOff
            &&& asked.after(PmicInput::<T>::PowerOffTried).doing is PollKey
            &&& task.after(PmicInput::<T>::Woke { power_off_requested: false }).doing is PollKey
        }),
{
}

/// What was read goes to the interface as it was read, and a read that failed as
/// an error; the task pauses then. Reading is hurried until it succeeded once.
pub proof fn law_telemetry_reaches_the_interface<T>(task: PmicTask, stats: PmicStats<T>)
    requires
        task.doing is ReadStats,
    ensures
        ({
            let read = PmicInput::StatsRead(Some(stats));
            let failed = PmicInput::<T>::StatsRead(None);
            &&& task.published(read) == Some(PmicEvent::Online(stats))
            &&& task.published(failed) == Some(PmicEvent::<T>::Error)
            &&& task.after(read).doing is Pause
            &&& task.after(failed).doing is Pause
            &&& !task.after(read).first_sample
            &&& task.after(failed).first_sample == task.first_sample
            &&& task.after(read).last_sample == task.last_sample
            &&& task.after(failed).last_sample == task.last_sample
        }),
{
}

/// Telemetry is read as soon as a second has passed since it was last asked for,
/// and not before: ticks are counted in the clock's own rate.
pub proof fn law_telemetry_is_read_every_second<T>(
    task: PmicTask,
    key: Option<PowerKey>,
    now: u64,
)
    requires
        task.doing is PollKey,
        !task.first_sample,
    ensures
        task.after(PmicInput::<T>::KeyPolled { key, now }).doing is ReadStats <==> now
            >= task.last_sample + task.ticks_per_second,
{
}

/// A chip that cannot be brought up is given up, and the interface is told of an
/// error. One that is brought up is looked after.
pub proof fn law_start_decides<T>(task: PmicTask, now: u64, later: PmicInput<T>)
    requires
        task.doing is Initialize,
    ensures
        ({
            let up = PmicInput::<T>::Initialized { ok: true, now };
            let down = PmicInput::<T>::Initialized { ok: false, now };
            &&& task.after(up).doing is CheckPowerOff
            &&& task.after(up).first_sample
            &&& task.published(up) is None
            &&& task.after(down).doing is Stop
            &&& task.published(down) == Some(PmicEvent::<T>::Error)
            &&& task.after(down).after(later) == task.after(down)
            &&& task.after(down).published(later) is None
        }),
{
}

/// Telemetry has every reading in its own place: those of the battery and of the
/// supply where they are there and zero where they are not, the others as they
/// are.
pub proof fn law_telemetry_is_the_readings<T>(
    battery_mv: u16,
    vbus_mv: u16,
    vsys_mv: u16,
    temperature_c: T,
    level: u8,
    charging: bool,
)
    ensures
        telemetry(
            true,
            true,
            Some(battery_mv),
            Some(vbus_mv),
            vsys_mv,
            temperature_c,
            Some(level),
            charging,
        ) == (PmicStats {
            battery_mv,
            vbus_mv,
            vsys_mv,
            temperature_c,
            state_of_charge: level,
            battery_present: true,
            charging,
            vbus_good: true,
        }),
        telemetry(false, true, None, Some(vbus_mv), vsys_mv, temperature_c, None, charging) == (
        PmicStats {
            battery_mv: 0,
            vbus_mv,
            vsys_mv,
            temperature_c,
            state_of_charge: 0,
            battery_present: false,
            charging,
            vbus_good: true,
        }),
        telemetry(
            true,
            false,
            Some(battery_mv),
            None,
            vsys_mv,
            temperature_c,
            Some(level),
            charging,
        ) == (PmicStats {
            battery_mv,
            vbus_mv: 0,
            vsys_mv,
            temperature_c,
            state_of_charge: level,
            battery_present: true,
            charging,
            vbus_good: false,
        }),
{
}

} // verus!
