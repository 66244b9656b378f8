//! The battery-backed real-time clock.
//!
//! The chip keeps a calendar in UTC, a flag that tells whether its oscillator
//! ever stopped, and one byte of RAM. The byte holds the host's UTC offset
//! together with a marker, so a calendar that the host never set cannot be
//! mistaken for a synchronized one.

use crate::calendar;
use crate::icd::ClockSync;
use vstd::prelude::*;

verus! {

/// Set in the seconds register when the oscillator has stopped.
pub const OSCILLATOR_STOP_FLAG: u8 = 0x80;

/// Distinguishes a stored offset from RAM left by anything else. The low seven
/// bits hold quarter-hours above UTC-12, covering UTC-12 to UTC+14.
pub const OFFSET_FORMAT_MARKER: u8 = 0x80;

pub const OFFSET_MINUTES_PER_UNIT: i16 = 15;

pub const MIN_UTC_OFFSET_MINUTES: i16 = -720;

pub const MAX_UTC_OFFSET_MINUTES: i16 = 840;

/// Why the clock cannot be used or set.
#[derive(Debug, Clone, Copy, PartialEq, Eq, Structural)]
pub enum RtcError {
    /// The chip does not behave as this one should, or what was asked of it
    /// makes no sense.
    InvalidInputData,
    /// A time component was out of range.
    ComponentRange,
}

/// A calendar reading.
#[derive(Debug, Clone, Copy, PartialEq, Eq, Structural)]
pub struct DateTime {
    pub year: u16,
    pub month: u8,
    pub day: u8,
    pub hour: u8,
    pub minute: u8,
    pub second: u8,
}

impl DateTime {
    /// The reading as a civil date and time.
    pub open spec fn civil(self) -> calendar::Civil {
        calendar::Civil::of(
            self.year as i32,
            self.month,
            self.day,
            self.hour,
            self.minute,
            self.second,
        )
    }

    /// A civil date and time as a reading; the year keeps its low sixteen bits.
    pub open spec fn of(civil: calendar::Civil) -> DateTime {
        DateTime {
            year: (civil.year % 65536) as u16,
            month: civil.month as u8,
            day: civil.day as u8,
            hour: civil.hour as u8,
            minute: civil.minute as u8,
            second: civil.second as u8,
        }
    }

    /// The moment the reading names, in seconds since the start of 1970 UTC.
    pub fn to_primitive(self) -> (result: Result<i64, RtcError>)
        ensures
            result == if self.civil().valid() {
                Ok(self.civil().moment() as i64)
            } else {
                Err(RtcError::ComponentRange)
            },
            self.civil().valid() ==> calendar::covered(self.civil().moment()),
    {
        proof {
            if self.civil().valid() {
                calendar::law_readings_round_trip(self.civil());
            }
        }
        match calendar::moment_of(
            self.year as i32,
            self.month,
            self.day,
            self.hour,
            self.minute,
            self.second,
        ) {
            Some(moment) => Ok(moment),
            None => Err(RtcError::ComponentRange),
        }
    }

    /// The reading of a moment.
    pub fn from_primitive(moment: i64) -> (datetime: DateTime)
        requires
            calendar::covered(moment as int),
        ensures
            datetime == DateTime::of(calendar::civil_at(moment as int)),
    {
        let reading = calendar::reading_of(moment).unwrap();
        proof {
            calendar::law_readings_round_trip(
                calendar::Civil::of(
                    reading.0,
                    reading.1,
                    reading.2,
                    reading.3,
                    reading.4,
                    reading.5,
                ),
            );
        }
        let year = if reading.0 < 0 { reading.0 + 65536 } else { reading.0 };
        DateTime {
            year: year as u16,
            month: reading.1,
            day: reading.2,
            hour: reading.3,
            minute: reading.4,
            second: reading.5,
        }
    }
}

/// Everything the chip holds, read at one time.
#[derive(Debug, Clone, Copy, PartialEq, Eq, Structural)]
pub struct Snapshot {
    /// The calendar stored in the chip is always UTC.
    pub datetime: DateTime,
    pub clock_valid: bool,
    pub utc_offset_minutes: Option<i16>,
}

impl Snapshot {
    /// The local moment, counted as if it were UTC.
    pub open spec fn local_moment(self) -> int {
        self.datetime.civil().moment() + 60 * self.utc_offset_minutes->0
    }

    /// What the seconds register, the calendar and the RAM byte say.
    pub open spec fn taken(seconds: u8, calendar: i64, ram: u8) -> Snapshot {
        Snapshot {
            datetime: DateTime::of(calendar::civil_at(calendar as int)),
            clock_valid: seconds < 0x80,
            utc_offset_minutes: stored_offset(ram),
        }
    }

    /// The clock runs and was set by the host.
    pub open spec fn trusted(self) -> bool {
        self.clock_valid && self.utc_offset_minutes is Some
    }

    /// The moment of a trusted clock.
    pub open spec fn timestamp(self) -> Option<i64> {
        if self.clock_valid && self.utc_offset_minutes is Some && self.datetime.civil().valid() {
            Some(self.datetime.civil().moment() as i64)
        } else {
            None
        }
    }

    /// The local date and time of a trusted clock.
    pub open spec fn local(self) -> Option<DateTime> {
        if self.clock_valid && self.utc_offset_minutes is Some && self.datetime.civil().valid()
            && calendar::covered(self.local_moment()) {
            Some(DateTime::of(calendar::civil_at(self.local_moment())))
        } else {
            None
        }
    }

    /// True only for a running clock written by the host-sync protocol.
    pub fn synchronized(self) -> (result: bool)
        ensures
            result == (self.clock_valid && self.utc_offset_minutes is Some),
            result == self.trusted(),
    {
        self.clock_valid && self.utc_offset_minutes.is_some()
    }

    /// UTC Unix timestamp suitable for comparing absolute reset deadlines.
    pub fn unix_timestamp(self) -> (result: Option<i64>)
        ensures
            result == if self.clock_valid && self.utc_offset_minutes is Some
                && self.datetime.civil().valid() {
                Some(self.datetime.civil().moment() as i64)
            } else {
                None
            },
            result matches Some(moment) ==> moment == self.datetime.civil().moment(),
            result == self.timestamp(),
    {
        if !self.synchronized() {
            return None;
        }
        match self.datetime.to_primitive() {
            Ok(moment) => Some(moment),
            Err(_) => None,
        }
    }

    /// Current local civil time using the offset captured by the host.
    pub fn local_datetime(self) -> (result: Option<DateTime>)
        ensures
            result == if self.clock_valid && self.utc_offset_minutes is Some
                && self.datetime.civil().valid() && calendar::covered(self.local_moment()) {
                Some(DateTime::of(calendar::civil_at(self.local_moment())))
            } else {
                None
            },
            result == self.local(),
    {
        let offset = match self.utc_offset_minutes {
            Some(offset) => offset,
            None => {
                return None;
            },
        };
        if !self.clock_valid {
            return None;
        }
        match self.datetime.to_primitive() {
            Ok(moment) => match calendar::minutes_later(moment, offset) {
                Some(local) => Some(DateTime::from_primitive(local)),
                None => None,
            },
            Err(_) => None,
        }
    }
}

/// Something done to the chip.
#[derive(Debug, Clone, Copy, PartialEq, Eq, Structural)]
pub enum ChipOp {
    ReadRam,
    WriteRam(u8),
    /// Set the calendar to a moment in UTC.
    SetCalendar(i64),
}

/// What the chip remembers.
pub struct Chip {
    pub ram: u8,
    pub calendar: i64,
}

impl Chip {
    /// What the chip remembers after an operation.
    pub open spec fn after(self, op: ChipOp) -> Chip {
        match op {
            ChipOp::ReadRam => self,
            ChipOp::WriteRam(byte) => Chip { ram: byte, ..self },
            ChipOp::SetCalendar(moment) => Chip { calendar: moment, ..self },
        }
    }

    /// What it remembers after the first `count` of some operations.
    pub open spec fn after_first(self, ops: Seq<ChipOp>, count: int) -> Chip
        decreases count,
    {
        if count <= 0 {
            self
        } else {
            self.after_first(ops, count - 1).after(ops[count - 1])
        }
    }
}

/// The operations of the identity probe.
pub open spec fn probe_ops(saved_ram: u8) -> Seq<ChipOp> {
    seq![ChipOp::WriteRam(saved_ram ^ 0x80), ChipOp::ReadRam, ChipOp::WriteRam(saved_ram)]
}

/// What the probe and the seconds register say of the chip.
pub open spec fn probed(saved_ram: u8, observed_ram: u8, seconds: u8) -> Result<bool, RtcError> {
    if observed_ram == saved_ram ^ 0x80 {
        Ok(seconds < 0x80)
    } else {
        Err(RtcError::InvalidInputData)
    }
}

/// The chip has a battery-backed RAM byte that a similar one does not. Toggling
/// one bit, reading it and restoring it tells them apart without destroying
/// anything: these are the operations, given the byte that was there.
pub fn identity_probe(saved_ram: u8) -> (ops: [ChipOp; 3])
    ensures
        ops@ == seq![
            ChipOp::WriteRam(saved_ram ^ 0x80),
            ChipOp::ReadRam,
            ChipOp::WriteRam(saved_ram),
        ],
        ops@ == probe_ops(saved_ram),
{
    let ops = [ChipOp::WriteRam(saved_ram ^ 0x80), ChipOp::ReadRam, ChipOp::WriteRam(saved_ram)];
    assert(ops@ =~= seq![
        ChipOp::WriteRam(saved_ram ^ 0x80),
        ChipOp::ReadRam,
        ChipOp::WriteRam(saved_ram),
    ]);
    ops
}

/// Whether the clock's oscillator has run since the calendar was set, or an
/// error where the byte read during the probe was not the one written.
pub fn init(saved_ram: u8, observed_ram: u8, seconds: u8) -> (result: Result<bool, RtcError>)
    ensures
        result == if observed_ram == saved_ram ^ 0x80 {
            Ok(seconds < 0x80)
        } else {
            Err(RtcError::InvalidInputData)
        },
        result == probed(saved_ram, observed_ram, seconds),
{
    let probe_ram = saved_ram ^ 0x80;
    if observed_ram != probe_ram {
        return Err(RtcError::InvalidInputData);
    }
    Ok(clock_running(seconds))
}

/// Whether the seconds register reports an uninterrupted clock.
pub fn clock_running(seconds: u8) -> (running: bool)
    ensures
        running == (seconds < 0x80),
{
    assert((seconds & 0x80 == 0) == (seconds < 0x80)) by (bit_vector);
    seconds & OSCILLATOR_STOP_FLAG == 0
}

/// A snapshot from the seconds register, the calendar and the RAM byte.
pub fn read(seconds: u8, calendar: i64, ram: u8) -> (snapshot: Snapshot)
    requires
        calendar::covered(calendar as int),
    ensures
        snapshot == (Snapshot {
            datetime: DateTime::of(calendar::civil_at(calendar as int)),
            clock_valid: seconds < 0x80,
            utc_offset_minutes: stored_offset(ram),
        }),
        snapshot == Snapshot::taken(seconds, calendar, ram),
{
    Snapshot {
        datetime: DateTime::from_primitive(calendar),
        clock_valid: clock_running(seconds),
        utc_offset_minutes: decode_utc_offset(ram),
    }
}

/// An offset the RAM byte can hold: whole quarter-hours from UTC-12 to UTC+14.
pub open spec fn storable(minutes: int) -> bool {
    MIN_UTC_OFFSET_MINUTES <= minutes <= MAX_UTC_OFFSET_MINUTES && minutes % 15 == 0
}

/// The byte that stands for an offset.
pub open spec fn offset_byte(minutes: int) -> u8 {
    (0x80 + (minutes + 720) / 15) as u8
}

/// The offset in a byte, if it holds one.
pub open spec fn stored_offset(byte: u8) -> Option<i16> {
    if byte < 0x80 || -720 + (byte - 0x80) * 15 > MAX_UTC_OFFSET_MINUTES {
        None
    } else {
        Some((-720 + (byte - 0x80) * 15) as i16)
    }
}

/// The byte to store for an offset.
pub fn encode_utc_offset(minutes: i16) -> (result: Option<u8>)
    ensures
        result == if storable(minutes as int) {
            Some(offset_byte(minutes as int))
        } else {
            None
        },
{
    if minutes < MIN_UTC_OFFSET_MINUTES || minutes > MAX_UTC_OFFSET_MINUTES {
        return None;
    }
    let above_minimum: i16 = minutes - MIN_UTC_OFFSET_MINUTES;
    if above_minimum % OFFSET_MINUTES_PER_UNIT != 0 {
        return None;
    }
    let units = (above_minimum / OFFSET_MINUTES_PER_UNIT) as u8;
    assert(0x80u8 | units == 0x80 + units) by (bit_vector)
        requires
            units < 0x80,
    ;
    Some(OFFSET_FORMAT_MARKER | units)
}

/// The offset a stored byte holds, if it holds one.
pub fn decode_utc_offset(encoded: u8) -> (result: Option<i16>)
    ensures
        result == stored_offset(encoded),
{
    assert((encoded & 0x80 == 0) == (encoded < 0x80)) by (bit_vector);
    if encoded & OFFSET_FORMAT_MARKER == 0 {
        return None;
    }
    assert(encoded & !0x80u8 == encoded - 0x80) by (bit_vector)
        requires
            encoded >= 0x80,
    ;
    let units = (encoded & !OFFSET_FORMAT_MARKER) as i16;
    let minutes = MIN_UTC_OFFSET_MINUTES + units * OFFSET_MINUTES_PER_UNIT;
    if minutes <= MAX_UTC_OFFSET_MINUTES {
        Some(minutes)
    } else {
        None
    }
}

/// The chip can hold the instant: its calendar only counts years 2000 to 2099.
pub open spec fn settable(moment: int) -> bool {
    calendar::covered(moment) && 2000 <= calendar::civil_at(moment).year <= 2099
}

/// Why a synchronization is refused, where it is.
pub open spec fn sync_refusal(sync: ClockSync) -> Option<RtcError> {
    if !storable(sync.utc_offset_minutes as int) {
        Some(RtcError::InvalidInputData)
    } else if !calendar::covered(sync.unix_seconds as int) {
        Some(RtcError::ComponentRange)
    } else if !settable(sync.unix_seconds as int) {
        Some(RtcError::InvalidInputData)
    } else {
        None
    }
}

/// The writes that store a host-supplied UTC instant and local offset.
///
/// Invalidating the RAM marker before touching the calendar makes an
/// interrupted write fail closed: old local time can never be mistaken for
/// newly synchronized UTC.
pub fn synchronize(sync: ClockSync) -> (result: Result<[ChipOp; 3], RtcError>)
    ensures
        match result {
            Ok(ops) => {
                &&& storable(sync.utc_offset_minutes as int)
                &&& settable(sync.unix_seconds as int)
                &&& ops@ == sync_writes(sync)
            },
            Err(RtcError::ComponentRange) => {
                &&& storable(sync.utc_offset_minutes as int)
                &&& !calendar::covered(sync.unix_seconds as int)
            },
            Err(RtcError::InvalidInputData) => {
                ||| !storable(sync.utc_offset_minutes as int)
                ||| calendar::covered(sync.unix_seconds as int) && !settable(
                    sync.unix_seconds as int,
                )
            },
        },
        match result {
            Ok(_) => sync_refusal(sync) is None,
            Err(error) => sync_refusal(sync) == Some(error),
        },
{
    let encoded_offset = match encode_utc_offset(sync.utc_offset_minutes) {
        Some(encoded_offset) => encoded_offset,
        None => {
            return Err(RtcError::InvalidInputData);
        },
    };
    let reading = match calendar::reading_of(sync.unix_seconds) {
        Some(reading) => reading,
        None => {
            return Err(RtcError::ComponentRange);
        },
    };
    proof {
        calendar::law_readings_round_trip(
            calendar::Civil::of(
                reading.0,
                reading.1,
                reading.2,
                reading.3,
                reading.4,
                reading.5,
            ),
        );
    }
    if reading.0 < 2000 || reading.0 > 2099 {
        return Err(RtcError::InvalidInputData);
    }
    let ops = [
        ChipOp::WriteRam(0),
        ChipOp::SetCalendar(sync.unix_seconds),
        ChipOp::WriteRam(encoded_offset),
    ];
    assert(ops@ =~= sync_writes(sync));
    Ok(ops)
}

/// The three writes of a synchronization, in order.
pub open spec fn sync_writes(sync: ClockSync) -> Seq<ChipOp> {
    seq![
        ChipOp::WriteRam(0),
        ChipOp::SetCalendar(sync.unix_seconds),
        ChipOp::WriteRam(offset_byte(sync.utc_offset_minutes as int)),
    ]
}

/// The snapshot agrees with what was to be stored, give or take the second
/// that passed meanwhile.
pub open spec fn confirms(snapshot: Snapshot, sync: ClockSync) -> bool {
    &&& snapshot.clock_valid
    &&& snapshot.utc_offset_minutes == Some(sync.utc_offset_minutes)
    &&& snapshot.datetime.civil().valid()
    &&& -1 <= snapshot.datetime.civil().moment() - sync.unix_seconds <= 1
}

/// Check what was read back after a synchronization.
pub fn verify_synchronized(sync: ClockSync, snapshot: Snapshot) -> (result: Result<
    Snapshot,
    RtcError,
>)
    ensures
        result == if confirms(snapshot, sync) {
            Ok(snapshot)
        } else {
            Err(RtcError::InvalidInputData)
        },
{
    let observed = match snapshot.unix_timestamp() {
        Some(observed) => observed,
        None => {
            return Err(RtcError::InvalidInputData);
        },
    };
    let offset = match snapshot.utc_offset_minutes {
        Some(offset) => offset,
        None => {
            return Err(RtcError::InvalidInputData);
        },
    };
    let difference = observed as i128 - sync.unix_seconds as i128;
    if offset != sync.utc_offset_minutes || difference > 1 || difference < -1 {
        return Err(RtcError::InvalidInputData);
    }
    Ok(snapshot)
}

/// A stored offset is read back, and a byte that holds one is the byte that
/// would be stored for it.
pub proof fn law_offset_round_trips(minutes: i16, byte: u8)
    ensures
        storable(minutes as int) ==> stored_offset(offset_byte(minutes as int)) == Some(minutes),
        stored_offset(byte) matches Some(held) ==> storable(held as int) && offset_byte(
            held as int,
        ) == byte,
{
}

/// The identity probe leaves the chip as it found it.
pub proof fn law_probe_preserves_the_chip(chip: Chip)
    ensures
        ({
            let ops = seq![
                ChipOp::WriteRam(chip.ram ^ 0x80),
                ChipOp::ReadRam,
                ChipOp::WriteRam(chip.ram),
            ];
            chip.after_first(ops, 3) == chip
        }),
{
    reveal_with_fuel(Chip::after_first, 4);
}

/// An interrupted synchronization fails closed: from the first write until the
/// last, the chip holds no offset, so nothing read from it counts as
/// synchronized. Once all writes are done it holds the instant and the offset.
pub proof fn law_interrupted_sync_fails_closed(chip: Chip, sync: ClockSync, done: int)
    requires
        storable(sync.utc_offset_minutes as int),
        1 <= done <= 3,
    ensures
        ({
            let after = chip.after_first(sync_writes(sync), done);
            &&& done < 3 ==> stored_offset(after.ram) is None && after.ram == 0
            &&& done == 1 ==> after.calendar == chip.calendar
            &&& done == 3 ==> stored_offset(after.ram) == Some(sync.utc_offset_minutes)
                && after.calendar == sync.unix_seconds
        }),
{
    reveal_with_fuel(Chip::after_first, 4);
    law_offset_round_trips(sync.utc_offset_minutes, 0);
}

/// Reading a chip right after a complete synchronization confirms it.
pub proof fn law_completed_sync_is_confirmed(sync: ClockSync, seconds: u8)
    requires
        storable(sync.utc_offset_minutes as int),
        settable(sync.unix_seconds as int),
        seconds < 0x80,
    ensures
        confirms(
            Snapshot {
                datetime: DateTime::of(calendar::civil_at(sync.unix_seconds as int)),
                clock_valid: seconds < 0x80,
                utc_offset_minutes: stored_offset(offset_byte(sync.utc_offset_minutes as int)),
            },
            sync,
        ),
{
    law_offset_round_trips(sync.utc_offset_minutes, 0);
    let civil = calendar::civil_at(sync.unix_seconds as int);
    calendar::law_every_moment_has_a_reading(sync.unix_seconds as int);
    assert(DateTime::of(civil).civil() == civil);
}

/// The probe tells a chip with the RAM byte from one without: it leaves the chip
/// as it was, and in between the byte differs from what was there. A chip that
/// shows the written byte is accepted, with its clock valid unless the
/// oscillator stopped; one that shows any other, such as the old one, is not.
pub proof fn law_probe_tells_the_chip(chip: Chip, observed: u8, seconds: u8)
    ensures
        ({
            let ops = probe_ops(chip.ram);
            let written = chip.after_first(ops, 1).ram;
            &&& ops.len() == 3
            &&& ops[1] == ChipOp::ReadRam
            &&& chip.after_first(ops, 3) == chip
            &&& written != chip.ram
            &&& probed(chip.ram, written, seconds) == Ok::<bool, RtcError>(seconds < 128)
            &&& observed != written ==> probed(chip.ram, observed, seconds) is Err
        }),
{
    reveal_with_fuel(Chip::after_first, 4);
    let ram = chip.ram;
    assert(ram ^ 0x80 != ram) by (bit_vector);
    law_probe_preserves_the_chip(chip);
}

/// A snapshot is what the chip holds: its date and time name the moment of the
/// calendar, its clock is valid unless the seconds register is flagged, and its
/// offset is the one of the RAM byte.
pub proof fn law_snapshots_show_the_chip(seconds: u8, moment: i64, minutes: i16)
    requires
        settable(moment as int),
        storable(minutes as int),
    ensures
        ({
            let snapshot = Snapshot::taken(seconds, moment, offset_byte(minutes as int));
            &&& snapshot.datetime.civil().valid()
            &&& snapshot.datetime.civil().moment() == moment
            &&& snapshot.clock_valid == (seconds < 128)
            &&& snapshot.utc_offset_minutes == Some(minutes)
            &&& snapshot.trusted() == (seconds < 128)
            &&& seconds < 128 ==> snapshot.timestamp() == Some(moment)
            &&& seconds >= 128 ==> snapshot.timestamp() is None && snapshot.local() is None
            &&& Snapshot::taken(seconds, moment, 0).timestamp() is None
        }),
{
    law_offset_round_trips(minutes, 0);
    calendar::law_every_moment_has_a_reading(moment as int);
    let civil = calendar::civil_at(moment as int);
    assert(DateTime::of(civil).civil() == civil);
}

/// Local time is the moment moved by the offset: whoever reads the local date
/// and time as if it were UTC is as many minutes from the moment as the offset
/// says.
pub proof fn law_local_time_is_moved_by_the_offset(snapshot: Snapshot, minutes: i16)
    requires
        snapshot.clock_valid,
        snapshot.utc_offset_minutes == Some(minutes),
        snapshot.datetime.civil().valid(),
        1 <= snapshot.datetime.year <= 9998,
    ensures
        snapshot.timestamp() matches Some(moment) && snapshot.local() matches Some(local)
            && local.civil().valid() && local.civil().moment() == moment + 60 * minutes,
{
    let civil = snapshot.datetime.civil();
    let moment = civil.moment();
    calendar::lemma_moment_within_years(civil, 1, 9998);
    calendar::law_readings_round_trip(civil);
    let local = moment + 60 * minutes;
    calendar::law_every_moment_has_a_reading(local);
    let shown = calendar::civil_at(local);
    calendar::lemma_moment_needs_year(shown, 0, 9999);
    assert(DateTime::of(shown).civil() == shown);
}

/// Offsets count quarter hours from twelve hours behind UTC to fourteen ahead:
/// the byte after another stands for fifteen minutes more, the first one for the
/// least offset, and a byte without the marker for none.
pub proof fn law_offsets_count_quarter_hours(byte: u8)
    ensures
        byte < 128 ==> stored_offset(byte) is None,
        stored_offset(128) == Some(-720i16),
        128 <= byte < 232 ==> {
            &&& stored_offset(byte) is Some
            &&& stored_offset((byte + 1) as u8) matches Some(more) && more == stored_offset(byte)->0
                + 15
        },
        byte > 232 ==> stored_offset(byte) is None,
        stored_offset(232) == Some(840i16),
{
}

/// Exactly the whole quarter hours in that range can be stored.
pub proof fn law_offsets_that_can_be_stored(minutes: i16)
    ensures
        storable(minutes as int) <==> exists|byte: u8| stored_offset(byte) == Some(minutes),
        storable(minutes as int) <==> -720 <= minutes <= 840 && minutes as int % 15 == 0,
{
    if storable(minutes as int) {
        law_offset_round_trips(minutes, 0);
        assert(stored_offset(offset_byte(minutes as int)) == Some(minutes));
    }
    if exists|byte: u8| stored_offset(byte) == Some(minutes) {
        let byte = choose|byte: u8| stored_offset(byte) == Some(minutes);
        law_offset_round_trips(minutes, byte);
    }
}

/// The chip can hold the moments of this century: from the start of 2000 to the
/// end of 2099, in UTC.
pub proof fn law_moments_that_can_be_set(moment: int)
    requires
        calendar::covered(moment),
    ensures
        settable(moment) <==> 946_684_800 <= moment <= 4_102_444_799,
{
    calendar::law_every_moment_has_a_reading(moment);
    let civil = calendar::civil_at(moment);
    calendar::lemma_moment_within_years(civil, 2000, 2099);
    calendar::lemma_moment_needs_year(civil, 2000, 2099);
}

/// Nothing but the instant and the offset that were to be stored confirms a
/// synchronization: the clock is trusted, has the offset, and is at most a
/// second away.
pub proof fn law_confirmation_needs_the_instant(snapshot: Snapshot, sync: ClockSync)
    ensures
        confirms(snapshot, sync) <==> {
            &&& snapshot.timestamp() matches Some(moment)
            &&& -1 <= moment - sync.unix_seconds <= 1
            &&& snapshot.utc_offset_minutes == Some(sync.utc_offset_minutes)
        },
        !snapshot.trusted() ==> !confirms(snapshot, sync),
{
    if snapshot.datetime.civil().valid() {
        calendar::law_readings_round_trip(snapshot.datetime.civil());
    }
}

/// A synchronization is accepted exactly where the chip can hold it: an instant of
/// this century, and an offset of whole quarter hours between twelve hours behind
/// UTC and fourteen ahead. Otherwise it is refused before anything is written.
pub proof fn law_synchronizations_the_chip_can_hold(sync: ClockSync)
    ensures
        sync_refusal(sync) is None <==> {
            &&& 946_684_800 <= sync.unix_seconds <= 4_102_444_799
            &&& -720 <= sync.utc_offset_minutes <= 840
            &&& sync.utc_offset_minutes as int % 15 == 0
        },
{
    law_offsets_that_can_be_stored(sync.utc_offset_minutes);
    if calendar::covered(sync.unix_seconds as int) {
        law_moments_that_can_be_set(sync.unix_seconds as int);
    }
}

} // verus!
