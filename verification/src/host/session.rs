//! One connection of the daemon: find the instrument, connect, and publish
//! until the link goes down.

use crate::icd::{ClockSync, UsageSnapshot};
use vstd::prelude::*;

verus! {

/// How often usage is polled and published.
pub const POLL_INTERVAL_SECONDS: u64 = 60;

/// How often the clock is sent, in seconds.
pub const CLOCK_SYNC_INTERVAL: i64 = 3600;

/// How long to scan for the instrument.
pub const SCAN_TIMEOUT_SECONDS: u64 = 30;

/// How long to rest between sessions.
pub const RETRY_DELAY_SECONDS: u64 = 5;

/// Whole minutes in an offset, towards zero.
pub open spec fn whole_minutes(offset_seconds: int) -> int {
    if offset_seconds >= 0 {
        offset_seconds / 60
    } else {
        -((-offset_seconds) / 60)
    }
}

/// The clock to send.
pub open spec fn clock_of(unix_seconds: i64, offset_seconds: i32) -> ClockSync {
    ClockSync {
        unix_seconds,
        utc_offset_minutes: if i16::MIN <= whole_minutes(offset_seconds as int) <= i16::MAX {
            whole_minutes(offset_seconds as int) as i16
        } else {
            0
        },
    }
}

/// The clock to send, from UTC seconds and the local offset in seconds. An
/// offset beyond any time zone counts as none.
pub fn current_clock_sync(unix_seconds: i64, offset_seconds: i32) -> (sync: ClockSync)
    ensures
        sync.unix_seconds == unix_seconds,
        sync.utc_offset_minutes == if i16::MIN <= whole_minutes(offset_seconds as int)
            <= i16::MAX {
            whole_minutes(offset_seconds as int)
        } else {
            0
        },
        sync == clock_of(unix_seconds, offset_seconds),
{
    let offset = offset_seconds as i64;
    let minutes: i64 = if offset >= 0 {
        offset / 60
    } else {
        -((-offset) / 60)
    };
    ClockSync {
        unix_seconds,
        utc_offset_minutes: if minutes < i16::MIN as i64 || minutes > i16::MAX as i64 {
            0
        } else {
            minutes as i16
        },
    }
}

/// The clock is due: it was never sent, the offset changed, or an hour passed.
pub open spec fn is_clock_due(previous: Option<ClockSync>, now: ClockSync) -> bool {
    match previous {
        None => true,
        Some(previous) => previous.utc_offset_minutes != now.utc_offset_minutes || now.unix_seconds
            - previous.unix_seconds >= CLOCK_SYNC_INTERVAL,
    }
}

/// Whether the clock is due to be sent.
pub fn clock_due(previous: Option<ClockSync>, now: ClockSync) -> (due: bool)
    ensures
        due == is_clock_due(previous, now),
{
    match previous {
        None => true,
        Some(previous) => {
            let passed: i128 = now.unix_seconds as i128 - previous.unix_seconds as i128;
            previous.utc_offset_minutes != now.utc_offset_minutes || passed
                >= CLOCK_SYNC_INTERVAL as i128
        },
    }
}

/// What came of the last action.
#[derive(Debug, Clone, Copy, PartialEq, Eq, Structural)]
pub enum SessionInput {
    /// The instrument was found, or was not.
    Found(bool),
    /// The link was attached, or could not be.
    Connected(bool),
    /// The dead link was torn down.
    Disconnected,
    /// Whether the link is up, and what the clock says.
    Link { up: bool, clock: ClockSync },
    /// The clock was sent, or could not be.
    ClockPublished(bool),
    /// Usage was polled, or could not be.
    Polled(Option<UsageSnapshot>),
    /// Usage was sent, or could not be.
    UsagePublished(bool),
    Slept,
}

/// What to do next.
#[derive(Debug, Clone, Copy, PartialEq, Eq, Structural)]
pub enum SessionAction {
    FindDevice,
    Connect,
    /// Tear the link down, so that the next session scans instead of adopting
    /// the same dead connection forever.
    Disconnect,
    CheckLink,
    PublishClock(ClockSync),
    PollUsage,
    PublishUsage(UsageSnapshot),
    Sleep,
    /// The session is over; `failed` if it never got a link.
    End { failed: bool },
}

/// A session.
#[derive(Debug, Clone, Copy, PartialEq, Eq, Structural)]
pub struct Session {
    pub doing: SessionAction,
    /// The clock that was last sent.
    pub previous_clock_sync: Option<ClockSync>,
}

impl Session {
    /// The session after an input. An input that was not waited for changes
    /// nothing.
    pub open spec fn after(self, input: SessionInput) -> Session {
        match (self.doing, input) {
            (SessionAction::FindDevice, SessionInput::Found(found)) => Session {
                doing: if found {
                    SessionAction::Connect
                } else {
                    SessionAction::End { failed: true }
                },
                ..self
            },
            (SessionAction::Connect, SessionInput::Connected(connected)) => Session {
                doing: if connected {
                    SessionAction::CheckLink
                } else {
                    SessionAction::Disconnect
                },
                ..self
            },
            (SessionAction::Disconnect, SessionInput::Disconnected) => Session {
                doing: SessionAction::End { failed: true },
                ..self
            },
            (SessionAction::CheckLink, SessionInput::Link { up, clock }) => Session {
                doing: if !up {
                    SessionAction::End { failed: false }
                } else if is_clock_due(self.previous_clock_sync, clock) {
                    SessionAction::PublishClock(clock)
                } else {
                    SessionAction::PollUsage
                },
                ..self
            },
            (SessionAction::PublishClock(clock), SessionInput::ClockPublished(sent)) => Session {
                doing: SessionAction::PollUsage,
                previous_clock_sync: if sent {
                    Some(clock)
                } else {
                    self.previous_clock_sync
                },
            },
            (SessionAction::PollUsage, SessionInput::Polled(polled)) => Session {
                doing: match polled {
                    Some(snapshot) => SessionAction::PublishUsage(snapshot),
                    None => SessionAction::Sleep,
                },
                ..self
            },
            (SessionAction::PublishUsage(_), SessionInput::UsagePublished(_)) => Session {
                doing: SessionAction::Sleep,
                ..self
            },
            (SessionAction::Sleep, SessionInput::Slept) => Session {
                doing: SessionAction::CheckLink,
                ..self
            },
            _ => self,
        }
    }

    /// A session that is about to start.
    pub fn new() -> (session: Self)
        ensures
            session == (Session {
                doing: SessionAction::FindDevice,
                previous_clock_sync: None,
            }),
    {
        Session { doing: SessionAction::FindDevice, previous_clock_sync: None }
    }

    /// Take one step.
    pub fn step(&mut self, input: SessionInput) -> (action: SessionAction)
        ensures
            *final(self) == old(self).after(input),
            action == final(self).doing,
    {
        match (self.doing, input) {
            (SessionAction::FindDevice, SessionInput::Found(found)) => {
                self.doing = if found {
                    SessionAction::Connect
                } else {
                    SessionAction::End { failed: true }
                };
            },
            (SessionAction::Connect, SessionInput::Connected(connected)) => {
                self.doing = if connected {
                    SessionAction::CheckLink
                } else {
                    SessionAction::Disconnect
                };
            },
            (SessionAction::Disconnect, SessionInput::Disconnected) => {
                self.doing = SessionAction::End { failed: true };
            },
            (SessionAction::CheckLink, SessionInput::Link { up, clock }) => {
                self.doing = if !up {
                    SessionAction::End { failed: false }
                } else if clock_due(self.previous_clock_sync, clock) {
                    SessionAction::PublishClock(clock)
                } else {
                    SessionAction::PollUsage
                };
            },
            (SessionAction::PublishClock(clock), SessionInput::ClockPublished(sent)) => {
                if sent {
                    self.previous_clock_sync = Some(clock);
                }
                self.doing = SessionAction::PollUsage;
            },
            (SessionAction::PollUsage, SessionInput::Polled(polled)) => {
                self.doing = match polled {
                    Some(snapshot) => SessionAction::PublishUsage(snapshot),
                    None => SessionAction::Sleep,
                };
            },
            (SessionAction::PublishUsage(_), SessionInput::UsagePublished(_)) => {
                self.doing = SessionAction::Sleep;
            },
            (SessionAction::Sleep, SessionInput::Slept) => {
                self.doing = SessionAction::CheckLink;
            },
            _ => {},
        }
        self.doing
    }
}

/// A session after some inputs.
pub open spec fn session_after(inputs: Seq<SessionInput>) -> Session
    decreases inputs.len(),
{
    if inputs.len() == 0 {
        Session { doing: SessionAction::FindDevice, previous_clock_sync: None }
    } else {
        session_after(inputs.drop_last()).after(inputs.last())
    }
}

/// A clock that could not be sent is sent again: as long as no clock went out,
/// every check of a link that is up leads to sending it.
pub proof fn law_clock_is_sent_until_it_arrives(session: Session, clock: ClockSync, later: ClockSync)
    requires
        session.doing == SessionAction::PublishClock(clock),
        session.previous_clock_sync is None,
    ensures
        session.after(SessionInput::ClockPublished(false)).previous_clock_sync is None,
        is_clock_due(
            session.after(SessionInput::ClockPublished(false)).previous_clock_sync,
            later,
        ),
        session.after(SessionInput::ClockPublished(true)).previous_clock_sync == Some(clock),
{
}

/// A clock that went out is sent again after an hour or a change of the offset,
/// and not before.
pub proof fn law_clock_is_sent_hourly(sent: ClockSync, now: ClockSync)
    ensures
        is_clock_due(Some(sent), now) <==> now.utc_offset_minutes != sent.utc_offset_minutes
            || now.unix_seconds >= sent.unix_seconds + 3600,
{
}

/// Only usage that was polled is published, and a session publishes nothing
/// once its link is down or before it has one.
pub proof fn law_polled_usage_is_published(inputs: Seq<SessionInput>)
    ensures
        session_after(inputs).doing matches SessionAction::PublishUsage(snapshot) ==> exists|i: int|
            0 <= i < inputs.len() && #[trigger] inputs[i] == SessionInput::Polled(Some(snapshot)),
        session_after(inputs).doing is PublishUsage || session_after(inputs).doing is PublishClock
            || session_after(inputs).doing is PollUsage ==> exists|i: int|
            0 <= i < inputs.len() && (#[trigger] inputs[i] matches SessionInput::Link {
                up: true,
                ..
            }),
    decreases inputs.len(),
{
    if inputs.len() > 0 {
        let before = inputs.drop_last();
        law_polled_usage_is_published(before);
        assert(inputs[inputs.len() - 1] == inputs.last());
        let earlier = session_after(before).doing;
        if let SessionAction::PublishUsage(snapshot) = earlier {
            let i = choose|i: int|
                0 <= i < before.len() && #[trigger] before[i] == SessionInput::Polled(
                    Some(snapshot),
                );
            assert(inputs[i] == before[i]);
        }
        if earlier is PublishUsage || earlier is PublishClock || earlier is PollUsage {
            let i = choose|i: int|
                0 <= i < before.len() && (#[trigger] before[i] matches SessionInput::Link {
                    up: true,
                    ..
                });
            assert(inputs[i] == before[i]);
        }
    }
}

/// A link that could not be attached is torn down before the session ends.
pub proof fn law_dead_links_are_torn_down(session: Session)
    requires
        session.doing is Connect,
    ensures
        session.after(SessionInput::Connected(false)).doing is Disconnect,
        session.after(SessionInput::Connected(false)).after(SessionInput::Disconnected).doing == (
        SessionAction::End { failed: true }),
{
}

/// The clock that is sent has the instant as it is, and the offset in minutes, cut
/// towards UTC: less than a minute is lost. An offset of more than three weeks
/// counts as none.
pub proof fn law_clock_keeps_instant_and_offset(unix_seconds: i64, offset_seconds: i32)
    ensures
        ({
            let sync = clock_of(unix_seconds, offset_seconds);
            let kept = 60 * sync.utc_offset_minutes;
            &&& sync.unix_seconds == unix_seconds
            &&& 0 <= offset_seconds < 60 * 32768 ==> kept <= offset_seconds < kept + 60
            &&& -60 * 32768 <= offset_seconds <= 0 ==> kept - 60 < offset_seconds <= kept
            &&& offset_seconds >= 60 * 32768 ==> kept == 0
        }),
{
}

/// A session looks for the instrument, attaches to it and then goes round: it
/// looks at the link, sends the clock where that is due, polls usage, sends what
/// came back, and sleeps. A poll that failed leaves out the sending, and whether
/// something arrived changes nothing but which clock counts as sent.
pub proof fn law_sessions_go_round(
    session: Session,
    clock: ClockSync,
    snapshot: UsageSnapshot,
    sent: bool,
)
    ensures
        session.doing is FindDevice ==> session.after(SessionInput::Found(true)).doing is Connect,
        session.doing is Connect ==> session.after(SessionInput::Connected(true)).doing
            is CheckLink,
        session.doing is CheckLink ==> {
            let looked = session.after(SessionInput::Link { up: true, clock });
            &&& is_clock_due(session.previous_clock_sync, clock) ==> looked.doing
                == SessionAction::PublishClock(clock)
            &&& !is_clock_due(session.previous_clock_sync, clock) ==> looked.doing is PollUsage
            &&& looked.previous_clock_sync == session.previous_clock_sync
        },
        session.doing == SessionAction::PublishClock(clock) ==> {
            let after = session.after(SessionInput::ClockPublished(sent));
            &&& after.doing is PollUsage
            &&& sent ==> after.previous_clock_sync == Some(clock)
            &&& !sent ==> after.previous_clock_sync == session.previous_clock_sync
        },
        session.doing is PollUsage ==> {
            &&& session.after(SessionInput::Polled(Some(snapshot))).doing
                == SessionAction::PublishUsage(snapshot)
            &&& session.after(SessionInput::Polled(None)).doing is Sleep
        },
        session.doing is PublishUsage ==> session.after(SessionInput::UsagePublished(sent)).doing
            is Sleep,
        session.doing is Sleep ==> session.after(SessionInput::Slept).doing is CheckLink,
{
}

/// A session ends when the instrument is not found, when the link is torn down
/// and when it goes down. It failed unless it had a link, and an ended session
/// stays ended.
pub proof fn law_sessions_end(session: Session, clock: ClockSync, input: SessionInput)
    ensures
        session.doing is FindDevice ==> session.after(SessionInput::Found(false)).doing == (
        SessionAction::End { failed: true }),
        session.doing is CheckLink ==> session.after(SessionInput::Link { up: false, clock }).doing
            == (SessionAction::End { failed: false }),
        session.after(input).doing is End && !(session.doing is End) ==> session.doing is FindDevice
            || session.doing is Disconnect || session.doing is CheckLink,
        session.doing is End ==> session.after(input) == session,
{
}

} // verus!
