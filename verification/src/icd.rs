//! What crosses the wire between the host daemon and the instrument.

use vstd::prelude::*;

verus! {

/// How the account's limits are currently behaving.
///
/// An enum rather than free-form text, so an unrecognised value cannot reach
/// the display.
#[derive(Debug, Clone, Copy, PartialEq, Eq, Structural)]
pub enum UsageStatus {
    /// Requests are going through.
    Allowed,
    /// A limit has been hit.
    Limited,
    /// The host could not determine the state.
    Unknown,
}

/// UTC wall-clock state supplied by the host.
#[derive(Debug, Clone, Copy, PartialEq, Eq, Structural)]
pub struct ClockSync {
    /// Seconds since the Unix epoch, in UTC.
    pub unix_seconds: i64,
    /// The host's current local offset from UTC, including daylight saving.
    pub utc_offset_minutes: i16,
}

/// One reading of usage, as the host sees it.
#[derive(Debug, Clone, Copy, PartialEq, Eq, Structural)]
pub struct UsageSnapshot {
    /// Five-hour session utilisation, 0..=100.
    pub session_pct: u8,
    /// Session reset time as UTC Unix seconds, or zero when unknown.
    pub session_reset_at: i64,
    /// Seven-day utilisation, 0..=100.
    pub weekly_pct: u8,
    /// Weekly reset time as UTC Unix seconds, or zero when unknown.
    pub weekly_reset_at: i64,
    /// What the limits are doing.
    pub status: UsageStatus,
}

impl UsageSnapshot {
    /// "Nothing known yet", shown before the first push arrives.
    pub open spec fn spec_unknown() -> UsageSnapshot {
        UsageSnapshot {
            session_pct: 0,
            session_reset_at: 0,
            weekly_pct: 0,
            weekly_reset_at: 0,
            status: UsageStatus::Unknown,
        }
    }

    /// A snapshot representing "nothing known yet".
    pub fn unknown() -> (snapshot: UsageSnapshot)
        ensures
            snapshot == UsageSnapshot::spec_unknown(),
    {
        UsageSnapshot {
            session_pct: 0,
            session_reset_at: 0,
            weekly_pct: 0,
            weekly_reset_at: 0,
            status: UsageStatus::Unknown,
        }
    }
}

/// Whole minutes from `now` to `reset_at`, partial minutes counted as whole
/// ones and capped at what the display can show; zero for a deadline that is
/// unknown (not positive) or not ahead.
pub open spec fn countdown(reset_at: int, now: int) -> int {
    if reset_at <= 0 || reset_at <= now {
        0
    } else {
        let minutes = (reset_at - now + 59) / 60;
        if minutes > u16::MAX { u16::MAX as int } else { minutes }
    }
}

/// Convert an absolute deadline into a display countdown.
///
/// Partial minutes round up: a deadline 20 seconds away still reads one
/// minute instead of disappearing as though it were unknown. Values outside
/// the display's range saturate rather than wrapping.
pub fn minutes_until(reset_at: i64, now: i64) -> (minutes: u16)
    ensures
        minutes == countdown(reset_at as int, now as int),
{
    if reset_at <= 0 || reset_at <= now {
        return 0;
    }
    let seconds = reset_at as i128 - now as i128;
    let minutes = (seconds + 59) / 60;
    if minutes > u16::MAX as i128 {
        u16::MAX
    } else {
        minutes as u16
    }
}

/// A countdown tells how long it is to a deadline: as many minutes as it takes
/// at least to reach it, so the last of them has begun, and no more than the
/// display can show. There is none to a deadline that is unknown or has passed.
pub proof fn law_countdowns_reach_their_deadline(reset_at: i64, now: i64)
    ensures
        ({
            let minutes = countdown(reset_at as int, now as int);
            &&& 0 <= minutes <= 65535
            &&& minutes == 0 <==> reset_at <= 0 || reset_at <= now
            &&& minutes > 0 ==> now + 60 * (minutes - 1) < reset_at
            &&& 0 < minutes < 65535 ==> reset_at <= now + 60 * minutes
        }),
{
}

/// A snapshot of nothing known shows nothing: no percentage, no countdown at any
/// time, and an unknown status.
pub proof fn law_unknown_shows_nothing(now: int)
    ensures
        UsageSnapshot::spec_unknown().session_pct == 0,
        UsageSnapshot::spec_unknown().weekly_pct == 0,
        countdown(UsageSnapshot::spec_unknown().session_reset_at as int, now) == 0,
        countdown(UsageSnapshot::spec_unknown().weekly_reset_at as int, now) == 0,
        UsageSnapshot::spec_unknown().session_reset_at == 0,
        UsageSnapshot::spec_unknown().weekly_reset_at == 0,
        UsageSnapshot::spec_unknown().status is Unknown,
{
}

} // verus!
