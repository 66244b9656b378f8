//! An earlier wire format, which counts minutes until a reset rather than
//! naming its time, and a synthetic source for it.

use vstd::prelude::*;

verus! {

/// How the account's limits are currently behaving.
#[derive(Debug, Clone, Copy, PartialEq, Eq, Structural)]
pub enum UsageStatus {
    /// Requests are going through.
    Allowed,
    /// A limit has been hit.
    Limited,
    /// The host could not determine the state.
    Unknown,
}

/// Name the earlier instrument advertises.
pub const DEVICE_NAME: &'static str = "Clawdmeter";

/// How often a synthetic reading goes out.
pub const PUBLISH_INTERVAL_SECONDS: u64 = 5;

/// One reading of usage, as the host sees it.
#[derive(Debug, Clone, Copy, PartialEq, Eq, Structural)]
pub struct UsageSnapshot {
    /// Five-hour session utilisation, 0..=100.
    pub session_pct: u8,
    /// Minutes until the session window resets.
    pub session_reset_mins: u16,
    /// Seven-day utilisation, 0..=100.
    pub weekly_pct: u8,
    /// Minutes until the weekly window resets.
    pub weekly_reset_mins: u16,
    /// What the limits are doing.
    pub status: UsageStatus,
}

impl UsageSnapshot {
    /// "Nothing known yet", shown before the first push arrives.
    pub open spec fn spec_unknown() -> UsageSnapshot {
        UsageSnapshot {
            session_pct: 0,
            session_reset_mins: 0,
            weekly_pct: 0,
            weekly_reset_mins: 0,
            status: UsageStatus::Unknown,
        }
    }

    /// A snapshot representing "nothing known yet".
    pub fn unknown() -> (snapshot: UsageSnapshot)
        ensures
            snapshot == UsageSnapshot::spec_unknown(),
    {
        UsageSnapshot {
            session_pct: 0,
            session_reset_mins: 0,
            weekly_pct: 0,
            weekly_reset_mins: 0,
            status: UsageStatus::Unknown,
        }
    }
}

/// The synthetic reading of a tick.
pub open spec fn synthetic(tick: int) -> UsageSnapshot {
    let session = tick * 7 % 101;
    UsageSnapshot {
        session_pct: session as u8,
        session_reset_mins: (300 - session) as u16,
        weekly_pct: (tick * 3 % 101) as u8,
        weekly_reset_mins: (7200 - tick % 60) as u16,
        status: if session > 90 {
            UsageStatus::Limited
        } else {
            UsageStatus::Allowed
        },
    }
}

/// A moving synthetic reading, so the display visibly changes between pushes
/// and a stuck value is obvious.
pub fn synthetic_snapshot(tick: u32) -> (snapshot: UsageSnapshot)
    requires
        tick * 7 <= u32::MAX,
    ensures
        snapshot == synthetic(tick as int),
{
    let session: u8 = (tick * 7 % 101) as u8;
    UsageSnapshot {
        session_pct: session,
        session_reset_mins: 300 - session as u16,
        weekly_pct: (tick * 3 % 101) as u8,
        weekly_reset_mins: 7200 - (tick % 60) as u16,
        status: if session > 90 {
            UsageStatus::Limited
        } else {
            UsageStatus::Allowed
        },
    }
}

/// The synthetic source: one reading after another.
#[derive(Debug, Clone, Copy, PartialEq, Eq, Structural)]
pub struct SyntheticSource {
    pub tick: u32,
}

impl SyntheticSource {
    /// A source that starts at the first reading.
    pub fn new() -> (source: Self)
        ensures
            source == (SyntheticSource { tick: 0 }),
    {
        SyntheticSource { tick: 0 }
    }

    /// The next reading.
    pub fn next(&mut self) -> (snapshot: UsageSnapshot)
        requires
            old(self).tick * 7 <= u32::MAX,
        ensures
            snapshot == synthetic(old(self).tick as int),
            final(self).tick == old(self).tick + 1,
    {
        let snapshot = synthetic_snapshot(self.tick);
        self.tick = self.tick + 1;
        snapshot
    }
}

/// The reading moves: two ticks in a row never show the same session, and the
/// percentages stay percentages.
pub proof fn law_synthetic_readings_move(tick: int)
    requires
        0 <= tick,
    ensures
        synthetic(tick).session_pct <= 100,
        synthetic(tick).weekly_pct <= 100,
        synthetic(tick + 1).session_pct != synthetic(tick).session_pct,
{
}

/// Each tick moves the session by seven and the week by three percent, going
/// round after a hundred, and both start at nothing.
pub proof fn law_synthetic_percentages_are_regular(tick: int)
    requires
        0 <= tick,
    ensures
        synthetic(0).session_pct == 0 && synthetic(0).weekly_pct == 0,
        goes_round(synthetic(tick).session_pct as int, synthetic(tick + 1).session_pct as int, 7),
        goes_round(synthetic(tick).weekly_pct as int, synthetic(tick + 1).weekly_pct as int, 3),
{
    lemma_moves(tick, 7);
    lemma_moves(tick, 3);
}

/// A percentage moved on by a step, going round after a hundred.
pub open spec fn goes_round(before: int, after: int, step: int) -> bool {
    after == before + step || after == before + step - 101
}

proof fn lemma_moves(tick: int, step: int)
    requires
        0 <= tick,
        0 < step < 101,
    ensures
        0 <= tick * step % 101 < 101,
        goes_round(tick * step % 101, (tick + 1) * step % 101, step),
{
    assert((tick + 1) * step == tick * step + step) by (nonlinear_arith);
}

/// The session's reset comes nearer as the session fills, the week's from tick to
/// tick and starts over after an hour of them, and a session over ninety percent
/// is limited.
pub proof fn law_synthetic_resets_are_regular(tick: int)
    requires
        0 <= tick,
    ensures
        synthetic(0).weekly_reset_mins == 7200,
        synthetic(tick).session_reset_mins + synthetic(tick).session_pct == 300,
        synthetic(tick + 1).weekly_reset_mins == if synthetic(tick).weekly_reset_mins == 7141 {
            7200
        } else {
            synthetic(tick).weekly_reset_mins - 1
        },
        synthetic(tick).status is Limited <==> synthetic(tick).session_pct > 90,
        synthetic(tick).status is Allowed <==> synthetic(tick).session_pct <= 90,
{
    lemma_moves(tick, 7);
    assert((tick + 1) % 60 == if tick % 60 == 59 {
        0
    } else {
        tick % 60 + 1
    });
}

/// A snapshot of nothing known has no percentage, no countdown and an unknown
/// status, which no reading of the source has.
pub proof fn law_unknown_shows_nothing(tick: int)
    ensures
        UsageSnapshot::spec_unknown().session_pct == 0,
        UsageSnapshot::spec_unknown().session_reset_mins == 0,
        UsageSnapshot::spec_unknown().weekly_pct == 0,
        UsageSnapshot::spec_unknown().weekly_reset_mins == 0,
        UsageSnapshot::spec_unknown().status is Unknown,
        !(synthetic(tick).status is Unknown),
{
}

} // verus!
