//! A clock that is set by hand.

use crate::calendar;
use crate::rtc::{clock_running, DateTime};
use vstd::prelude::*;

verus! {

/// What the chip shows.
#[derive(Debug, Clone, Copy, PartialEq, Eq, Structural)]
pub struct Snapshot {
    pub datetime: DateTime,
    pub clock_valid: bool,
}

/// What the seconds register and the calendar say.
pub open spec fn taken(seconds: u8, calendar: i64) -> Snapshot {
    Snapshot {
        datetime: DateTime::of(calendar::civil_at(calendar as int)),
        clock_valid: seconds < 0x80,
    }
}

/// A snapshot from the seconds register and the calendar.
pub fn read(seconds: u8, calendar: i64) -> (snapshot: Snapshot)
    requires
        calendar::covered(calendar as int),
    ensures
        snapshot == (Snapshot {
            datetime: DateTime::of(calendar::civil_at(calendar as int)),
            clock_valid: seconds < 0x80,
        }),
        snapshot == taken(seconds, calendar),
{
    Snapshot {
        datetime: DateTime::from_primitive(calendar),
        clock_valid: clock_running(seconds),
    }
}

/// What the interface is told of the clock.
#[derive(Debug, Clone, Copy, PartialEq, Eq, Structural)]
pub enum RtcEvent {
    Online(Snapshot),
    NeedsSetting,
    Saved(Snapshot),
    SaveFailed,
    Error,
}

/// What happened to the task.
#[derive(Debug, Clone, Copy, PartialEq, Eq, Structural)]
pub enum RtcInput {
    /// The chip was found and started, or could not be.
    Initialized(bool),
    /// The clock was read, or could not be.
    Read(Option<Snapshot>),
    /// The calendar is due to be read again.
    Tick,
    /// Someone asked to set the clock.
    Request(DateTime),
    /// The calendar was written, or could not be.
    Written(bool),
}

/// What the task does next.
#[derive(Debug, Clone, Copy, PartialEq, Eq, Structural)]
pub enum RtcAction {
    Initialize,
    Read,
    /// Wait for a request or for the next tick.
    Wait,
    /// Set the calendar to a moment.
    SetCalendar(i64),
    Stop,
}

/// What the task is in the middle of.
#[derive(Debug, Clone, Copy, PartialEq, Eq, Structural)]
pub enum RtcPhase {
    Starting,
    FirstRead,
    Waiting,
    Refreshing,
    /// Writing a moment to the calendar.
    Writing(i64),
    Verifying,
    Stopped,
}

/// One step of the task.
#[derive(Debug, Clone, Copy, PartialEq, Eq, Structural)]
pub struct RtcStep {
    pub event: Option<RtcEvent>,
    /// The clock was just read, so the interval starts over.
    pub restart_interval: bool,
    pub action: RtcAction,
}

/// Shows the clock once a second and sets it on request.
#[derive(Debug, Clone, Copy, PartialEq, Eq, Structural)]
pub struct RtcTask {
    pub phase: RtcPhase,
}

impl RtcTask {
    /// What a task in this phase is doing.
    pub open spec fn doing(self) -> RtcAction {
        match self.phase {
            RtcPhase::Starting => RtcAction::Initialize,
            RtcPhase::FirstRead => RtcAction::Read,
            RtcPhase::Waiting => RtcAction::Wait,
            RtcPhase::Refreshing => RtcAction::Read,
            RtcPhase::Writing(moment) => RtcAction::SetCalendar(moment),
            RtcPhase::Verifying => RtcAction::Read,
            RtcPhase::Stopped => RtcAction::Stop,
        }
    }

    /// The phase after an input. An input that the task does not wait for
    /// changes nothing.
    pub open spec fn after(self, input: RtcInput) -> RtcTask {
        let phase = match (self.phase, input) {
            (RtcPhase::Starting, RtcInput::Initialized(ok)) => if ok {
                RtcPhase::FirstRead
            } else {
                RtcPhase::Stopped
            },
            (RtcPhase::FirstRead, RtcInput::Read(_)) => RtcPhase::Waiting,
            (RtcPhase::Waiting, RtcInput::Tick) => RtcPhase::Refreshing,
            (RtcPhase::Refreshing, RtcInput::Read(_)) => RtcPhase::Waiting,
            (RtcPhase::Waiting, RtcInput::Request(datetime)) => if datetime.civil().valid() {
                RtcPhase::Writing(datetime.civil().moment() as i64)
            } else {
                RtcPhase::Waiting
            },
            (RtcPhase::Writing(_), RtcInput::Written(ok)) => if ok {
                RtcPhase::Verifying
            } else {
                RtcPhase::Waiting
            },
            (RtcPhase::Verifying, RtcInput::Read(_)) => RtcPhase::Waiting,
            (phase, _) => phase,
        };
        RtcTask { phase }
    }

    /// What the interface is told of an input.
    pub open spec fn published(self, input: RtcInput) -> Option<RtcEvent> {
        match (self.phase, input) {
            (RtcPhase::Starting, RtcInput::Initialized(false)) => Some(RtcEvent::Error),
            (RtcPhase::FirstRead, RtcInput::Read(Some(snapshot))) => Some(
                RtcEvent::Online(snapshot),
            ),
            (RtcPhase::FirstRead, RtcInput::Read(None)) => Some(RtcEvent::NeedsSetting),
            (RtcPhase::Refreshing, RtcInput::Read(Some(snapshot))) => Some(
                RtcEvent::Online(snapshot),
            ),
            (RtcPhase::Refreshing, RtcInput::Read(None)) => Some(RtcEvent::Error),
            (RtcPhase::Waiting, RtcInput::Request(datetime)) => if datetime.civil().valid() {
                None
            } else {
                Some(RtcEvent::SaveFailed)
            },
            (RtcPhase::Writing(_), RtcInput::Written(false)) => Some(RtcEvent::SaveFailed),
            (RtcPhase::Verifying, RtcInput::Read(Some(snapshot))) => if snapshot.clock_valid {
                Some(RtcEvent::Saved(snapshot))
            } else {
                Some(RtcEvent::SaveFailed)
            },
            (RtcPhase::Verifying, RtcInput::Read(None)) => Some(RtcEvent::SaveFailed),
            _ => None,
        }
    }

    /// The clock was just read, so the interval starts over.
    pub open spec fn restarts(self, input: RtcInput) -> bool {
        self.published(input) matches Some(RtcEvent::Saved(_))
    }

    /// A task that is about to start.
    pub fn new() -> (task: Self)
        ensures
            task == (RtcTask { phase: RtcPhase::Starting }),
    {
        RtcTask { phase: RtcPhase::Starting }
    }

    /// What the task does now.
    pub fn action(&self) -> (action: RtcAction)
        ensures
            action == self.doing(),
    {
        match self.phase {
            RtcPhase::Starting => RtcAction::Initialize,
            RtcPhase::FirstRead => RtcAction::Read,
            RtcPhase::Waiting => RtcAction::Wait,
            RtcPhase::Refreshing => RtcAction::Read,
            RtcPhase::Writing(moment) => RtcAction::SetCalendar(moment),
            RtcPhase::Verifying => RtcAction::Read,
            RtcPhase::Stopped => RtcAction::Stop,
        }
    }

    /// Take one step.
    pub fn step(&mut self, input: RtcInput) -> (step: RtcStep)
        ensures
            *final(self) == old(self).after(input),
            step.event == old(self).published(input),
            step.restart_interval == (old(self).published(input) matches Some(
                RtcEvent::Saved(_),
            )),
            step.restart_interval == old(self).restarts(input),
            step.action == final(self).doing(),
    {
        let mut event: Option<RtcEvent> = None;
        let mut restart_interval = false;
        match (self.phase, input) {
            (RtcPhase::Starting, RtcInput::Initialized(ok)) => {
                if ok {
                    self.phase = RtcPhase::FirstRead;
                } else {
                    self.phase = RtcPhase::Stopped;
                    event = Some(RtcEvent::Error);
                }
            },
            (RtcPhase::FirstRead, RtcInput::Read(read)) => {
                self.phase = RtcPhase::Waiting;
                event = match read {
                    Some(snapshot) => Some(RtcEvent::Online(snapshot)),
                    None => Some(RtcEvent::NeedsSetting),
                };
            },
            (RtcPhase::Waiting, RtcInput::Tick) => {
                self.phase = RtcPhase::Refreshing;
            },
            (RtcPhase::Refreshing, RtcInput::Read(read)) => {
                self.phase = RtcPhase::Waiting;
                event = match read {
                    Some(snapshot) => Some(RtcEvent::Online(snapshot)),
                    None => Some(RtcEvent::Error),
                };
            },
            (RtcPhase::Waiting, RtcInput::Request(datetime)) => {
                match datetime.to_primitive() {
                    Ok(moment) => {
                        self.phase = RtcPhase::Writing(moment);
                    },
                    Err(_) => {
                        event = Some(RtcEvent::SaveFailed);
                    },
                }
            },
            (RtcPhase::Writing(_), RtcInput::Written(ok)) => {
                if ok {
                    self.phase = RtcPhase::Verifying;
                } else {
                    self.phase = RtcPhase::Waiting;
                    event = Some(RtcEvent::SaveFailed);
                }
            },
            (RtcPhase::Verifying, RtcInput::Read(read)) => {
                self.phase = RtcPhase::Waiting;
                event = Some(RtcEvent::SaveFailed);
                if let Some(snapshot) = read {
                    if snapshot.clock_valid {
                        event = Some(RtcEvent::Saved(snapshot));
                        restart_interval = true;
                    }
                }
            },
            _ => {},
        }
        RtcStep { event, restart_interval, action: self.action() }
    }
}

/// The task after some inputs.
pub open spec fn run(inputs: Seq<RtcInput>) -> RtcTask
    decreases inputs.len(),
{
    if inputs.len() == 0 {
        RtcTask { phase: RtcPhase::Starting }
    } else {
        run(inputs.drop_last()).after(inputs.last())
    }
}

/// Only dates that exist are written to the chip.
pub proof fn law_only_real_dates_are_written(inputs: Seq<RtcInput>)
    ensures
        run(inputs).phase matches RtcPhase::Writing(moment) ==> calendar::covered(moment as int)
            && exists|datetime: DateTime|
            (#[trigger] datetime.civil()).valid() && datetime.civil().moment() == moment,
    decreases inputs.len(),
{
    if inputs.len() > 0 {
        law_only_real_dates_are_written(inputs.drop_last());
        if let RtcInput::Request(datetime) = inputs.last() {
            if datetime.civil().valid() {
                calendar::law_readings_round_trip(datetime.civil());
            }
        }
    }
}

/// A clock counts as set only when it was written and then read back running:
/// the input before was a successful write, and the snapshot is valid.
pub proof fn law_saved_means_verified(inputs: Seq<RtcInput>, snapshot: Snapshot)
    requires
        inputs.len() > 0,
        run(inputs.drop_last()).published(inputs.last()) == Some(RtcEvent::Saved(snapshot)),
    ensures
        snapshot.clock_valid,
        inputs.last() == RtcInput::Read(Some(snapshot)),
        run(inputs.drop_last()).phase is Verifying,
        run(inputs).phase is Waiting,
{
}

/// A request is always answered: it either fails at once, or the write, the
/// read that follows and the answer come next.
pub proof fn law_requests_are_answered(datetime: DateTime, read: Option<Snapshot>)
    ensures
        ({
            let waiting = RtcTask { phase: RtcPhase::Waiting };
            let asked = waiting.after(RtcInput::Request(datetime));
            let written = asked.after(RtcInput::Written(true));
            if datetime.civil().valid() {
                &&& asked.doing() is SetCalendar
                &&& asked.published(RtcInput::Written(false)) == Some(RtcEvent::SaveFailed)
                &&& asked.after(RtcInput::Written(false)) == waiting
                &&& written.doing() is Read
                &&& written.published(RtcInput::Read(read)) is Some
                &&& written.after(RtcInput::Read(read)) == waiting
            } else {
                &&& waiting.published(RtcInput::Request(datetime)) == Some(RtcEvent::SaveFailed)
                &&& asked == waiting
            }
        }),
{
}

/// A snapshot is what the chip holds: its date and time name the moment of the
/// calendar, and its clock is valid unless the seconds register is flagged.
pub proof fn law_snapshots_show_the_chip(seconds: u8, moment: i64)
    requires
        calendar::covered(moment as int),
        calendar::civil_at(moment as int).year >= 0,
    ensures
        taken(seconds, moment).datetime.civil().valid(),
        taken(seconds, moment).datetime.civil().moment() == moment,
        taken(seconds, moment).clock_valid == (seconds < 128),
{
    calendar::law_every_moment_has_a_reading(moment as int);
    let civil = calendar::civil_at(moment as int);
    assert(DateTime::of(civil).civil() == civil);
}

/// What is asked for is what is written: the calendar is set to the moment that
/// the date and time of the request name.
pub proof fn law_requests_are_written(datetime: DateTime)
    requires
        datetime.civil().valid(),
    ensures
        ({
            let asked = RtcTask { phase: RtcPhase::Waiting }.after(RtcInput::Request(datetime));
            &&& asked.doing() matches RtcAction::SetCalendar(moment)
            &&& moment == datetime.civil().moment()
            &&& calendar::civil_at(moment as int) == datetime.civil()
        }),
{
    calendar::law_readings_round_trip(datetime.civil());
}

/// The clock is shown as it is read: whatever a read brings goes to the
/// interface, and a read that fails is told, as a clock to be set before
/// anything was read and as an error after that.
pub proof fn law_readings_reach_the_interface(task: RtcTask, snapshot: Snapshot)
    requires
        task.doing() is Read,
    ensures
        ({
            let read = RtcInput::Read(Some(snapshot));
            let failed = RtcInput::Read(None);
            &&& task.published(read) matches Some(event)
            &&& event == RtcEvent::Online(snapshot) || event == RtcEvent::Saved(snapshot) || (event
                == RtcEvent::SaveFailed && task.phase is Verifying && !snapshot.clock_valid)
            &&& task.published(failed) is Some
            &&& !(task.published(failed)->0 is Online || task.published(failed)->0 is Saved)
            &&& task.after(read).doing() is Wait
            &&& task.after(failed).doing() is Wait
            &&& task.after(read).after(RtcInput::Tick).doing() is Read
        }),
{
}

/// A chip that is not there is given up, which the interface is told. One that is
/// there is read first, and then waited for.
pub proof fn law_start_decides(snapshot: Option<Snapshot>, later: RtcInput)
    ensures
        ({
            let start = RtcTask { phase: RtcPhase::Starting };
            let up = start.after(RtcInput::Initialized(true));
            let down = start.after(RtcInput::Initialized(false));
            &&& start.doing() is Initialize
            &&& start.published(RtcInput::Initialized(false)) == Some(RtcEvent::Error)
            &&& down.doing() is Stop
            &&& down.after(later) == down
            &&& down.published(later) is None
            &&& start.published(RtcInput::Initialized(true)) is None
            &&& up.doing() is Read
            &&& up.published(RtcInput::Read(None)) == Some(RtcEvent::NeedsSetting)
            &&& up.after(RtcInput::Read(snapshot)).doing() is Wait
        }),
{
}

/// The interval starts over exactly when a new time was saved: that is when the
/// clock was read out of turn.
pub proof fn law_saving_restarts_the_interval(task: RtcTask, input: RtcInput)
    ensures
        task.restarts(input) <==> task.phase is Verifying && (input matches RtcInput::Read(
            Some(snapshot),
        ) && snapshot.clock_valid),
{
}

} // verus!
