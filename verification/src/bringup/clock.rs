//! The clock page: what it shows, and the editor that sets the clock.

use crate::bringup::rtc::{RtcEvent, Snapshot};
use crate::calendar::days_in_month;
use crate::panel::MINIMUM_BRIGHTNESS_PERCENT;
use crate::rtc::DateTime;
use crate::text;
use vstd::prelude::*;

verus! {

/// Step a value, going round at either end of its range.
pub fn wrap_step(value: i32, delta: i32, minimum: i32, maximum: i32) -> (next: i32)
    requires
        i32::MIN <= value + delta <= i32::MAX,
    ensures
        next == if value + delta < minimum {
            maximum as int
        } else if value + delta > maximum {
            minimum as int
        } else {
            value + delta
        },
        next == wrapped(value as int, delta as int, minimum as int, maximum as int),
{
    let next: i32 = value + delta;
    if next < minimum {
        maximum
    } else if next > maximum {
        minimum
    } else {
        next
    }
}

/// A brightness percentage stepped within what the interface offers.
pub open spec fn brightened(percent: int, delta: int) -> int {
    if percent + delta < MINIMUM_BRIGHTNESS_PERCENT {
        MINIMUM_BRIGHTNESS_PERCENT as int
    } else if percent + delta > 100 {
        100
    } else {
        percent + delta
    }
}

/// Step a brightness percentage within what the interface offers.
pub fn brightness_step(percent: i32, delta: i32) -> (next: u8)
    requires
        i32::MIN <= percent + delta <= i32::MAX,
    ensures
        next == if percent + delta < MINIMUM_BRIGHTNESS_PERCENT {
            MINIMUM_BRIGHTNESS_PERCENT as int
        } else if percent + delta > 100 {
            100
        } else {
            percent + delta
        },
        next == brightened(percent as int, delta as int),
{
    let next: i32 = percent + delta;
    if next < MINIMUM_BRIGHTNESS_PERCENT as i32 {
        MINIMUM_BRIGHTNESS_PERCENT
    } else if next > 100 {
        100
    } else {
        next as u8
    }
}

/// The low sixteen bits of a number.
fn low_word(value: i32) -> (word: u16)
    ensures
        word == value as int % 65536,
{
    ((value as i64 + 2147483648) % 65536) as u16
}

/// The low eight bits of a number.
fn low_byte(value: i32) -> (byte: u8)
    ensures
        byte == value as int % 256,
{
    ((value as i64 + 2147483648) % 256) as u8
}

/// The fields of the clock editor.
#[derive(Debug, Clone, Copy, PartialEq, Eq, Structural)]
pub struct ClockEditor {
    pub year: i32,
    pub month: i32,
    pub day: i32,
    pub hour: i32,
    pub minute: i32,
    pub second: i32,
}

/// Length of an editor month.
pub open spec fn longest_day(year: i32, month: i32) -> int {
    if 1 <= month <= 12 {
        crate::calendar::month_length(year as int, month as int)
    } else {
        31
    }
}

/// A value stepped round its range.
pub open spec fn wrapped(value: int, delta: int, minimum: int, maximum: int) -> int {
    if value + delta < minimum {
        maximum
    } else if value + delta > maximum {
        minimum
    } else {
        value + delta
    }
}

impl ClockEditor {
    /// The value of a field, counted from the year.
    pub open spec fn field(self, field: i32) -> int {
        match field {
            0 => self.year as int,
            1 => self.month as int,
            2 => self.day as int,
            3 => self.hour as int,
            4 => self.minute as int,
            5 => self.second as int,
            _ => 0,
        }
    }

    /// The editor with one field stepped. The year stays within those the chip
    /// counts, the others go round.
    pub open spec fn stepped(self, field: i32, delta: int) -> ClockEditor {
        match field {
            0 => ClockEditor {
                year: if self.year + delta < 2000 {
                    2000
                } else if self.year + delta > 2099 {
                    2099
                } else {
                    (self.year + delta) as i32
                },
                ..self
            },
            1 => ClockEditor { month: wrapped(self.month as int, delta, 1, 12) as i32, ..self },
            2 => ClockEditor {
                day: wrapped(self.day as int, delta, 1, longest_day(self.year, self.month)) as i32,
                ..self
            },
            3 => ClockEditor { hour: wrapped(self.hour as int, delta, 0, 23) as i32, ..self },
            4 => ClockEditor { minute: wrapped(self.minute as int, delta, 0, 59) as i32, ..self },
            5 => ClockEditor { second: wrapped(self.second as int, delta, 0, 59) as i32, ..self },
            _ => self,
        }
    }

    /// The editor with its day moved into its month.
    pub open spec fn fitted(self) -> ClockEditor {
        ClockEditor {
            day: if self.day > longest_day(self.year, self.month) {
                longest_day(self.year, self.month) as i32
            } else {
                self.day
            },
            ..self
        }
    }

    /// The date and time the editor asks for.
    pub open spec fn request(self) -> DateTime {
        DateTime {
            year: (self.year as int % 65536) as u16,
            month: (self.month as int % 256) as u8,
            day: (self.day as int % 256) as u8,
            hour: (self.hour as int % 256) as u8,
            minute: (self.minute as int % 256) as u8,
            second: (self.second as int % 256) as u8,
        }
    }

    /// A date and time that exists, in a year the chip counts.
    pub open spec fn valid(self) -> bool {
        &&& 2000 <= self.year <= 2099
        &&& 1 <= self.month <= 12
        &&& 1 <= self.day <= longest_day(self.year, self.month)
        &&& 0 <= self.hour <= 23
        &&& 0 <= self.minute <= 59
        &&& 0 <= self.second <= 59
    }

    /// The editor showing a date and time.
    pub open spec fn showing(datetime: DateTime) -> ClockEditor {
        ClockEditor {
            year: datetime.year as i32,
            month: datetime.month as i32,
            day: datetime.day as i32,
            hour: datetime.hour as i32,
            minute: datetime.minute as i32,
            second: datetime.second as i32,
        }
    }
}

/// Everything on the clock page.
pub struct ClockPage {
    pub time: String,
    pub date: String,
    pub clock_valid: bool,
    pub status: &'static str,
    pub editor: ClockEditor,
    /// The editor holds changes that were not saved.
    pub dirty: bool,
}

/// Hours, minutes and seconds with two digits each.
pub open spec fn time_text(datetime: DateTime) -> Seq<char> {
    text::padded(datetime.hour as nat) + ":"@ + text::padded(datetime.minute as nat) + ":"@
        + text::padded(datetime.second as nat)
}

/// Year, month and day.
pub open spec fn date_text(datetime: DateTime) -> Seq<char> {
    text::decimal(datetime.year as nat) + "-"@ + text::padded(datetime.month as nat) + "-"@
        + text::padded(datetime.day as nat)
}

/// Show a date and time in the editor.
pub fn sync_rtc_editor(page: &mut ClockPage, datetime: DateTime)
    ensures
        *final(page) == (ClockPage {
            editor: ClockEditor::showing(datetime),
            ..*old(page)
        }),
{
    page.editor = ClockEditor {
        year: datetime.year as i32,
        month: datetime.month as i32,
        day: datetime.day as i32,
        hour: datetime.hour as i32,
        minute: datetime.minute as i32,
        second: datetime.second as i32,
    };
}

/// Show a snapshot. An editor with unsaved changes is left alone.
pub fn update_rtc_display(page: &mut ClockPage, snapshot: Snapshot)
    ensures
        final(page).time@ == time_text(snapshot.datetime),
        final(page).date@ == date_text(snapshot.datetime),
        final(page).clock_valid == snapshot.clock_valid,
        final(page).status@ == if snapshot.clock_valid {
            "Clock ready"@
        } else {
            "Set date and time"@
        },
        final(page).editor == if old(page).dirty {
            old(page).editor
        } else {
            ClockEditor::showing(snapshot.datetime)
        },
        final(page).dirty == old(page).dirty,
{
    let datetime = snapshot.datetime;
    let mut time = String::new();
    text::append_padded(&mut time, datetime.hour as u64);
    text::append_text(&mut time, ":");
    text::append_padded(&mut time, datetime.minute as u64);
    text::append_text(&mut time, ":");
    text::append_padded(&mut time, datetime.second as u64);
    assert(time@ =~= time_text(datetime));
    let mut date = String::new();
    text::append_decimal(&mut date, datetime.year as u64);
    text::append_text(&mut date, "-");
    text::append_padded(&mut date, datetime.month as u64);
    text::append_text(&mut date, "-");
    text::append_padded(&mut date, datetime.day as u64);
    assert(date@ =~= date_text(datetime));
    page.time = time;
    page.date = date;
    page.clock_valid = snapshot.clock_valid;
    page.status = if snapshot.clock_valid {
        "Clock ready"
    } else {
        "Set date and time"
    };
    if !page.dirty {
        sync_rtc_editor(page, datetime);
    }
}

/// The editor after an event of the clock.
pub open spec fn editor_after(editor: ClockEditor, dirty: bool, event: RtcEvent) -> ClockEditor {
    match event {
        RtcEvent::Online(snapshot) => if dirty {
            editor
        } else {
            ClockEditor::showing(snapshot.datetime)
        },
        RtcEvent::Saved(snapshot) => ClockEditor::showing(snapshot.datetime),
        _ => editor,
    }
}

/// Changes are unsaved after an event of the clock.
pub open spec fn dirty_after(dirty: bool, event: RtcEvent) -> bool {
    dirty && !(event is Saved)
}

/// What the page says after an event of the clock.
pub open spec fn status_after(event: RtcEvent) -> Seq<char> {
    match event {
        RtcEvent::Online(snapshot) => if snapshot.clock_valid {
            "Clock ready"@
        } else {
            "Set date and time"@
        },
        RtcEvent::NeedsSetting => "Set date and time"@,
        RtcEvent::Saved(_) => "Time saved"@,
        RtcEvent::SaveFailed => "Save failed"@,
        RtcEvent::Error => "RTC unavailable"@,
    }
}

/// The event shows that the clock is there.
pub open spec fn answers(event: RtcEvent) -> bool {
    event is Online || event is NeedsSetting || event is Saved
}

impl ClockPage {
    /// A page before anything is known.
    pub fn new(editor: ClockEditor) -> (page: Self)
        ensures
            page.time@ == Seq::<char>::empty(),
            page.date@ == Seq::<char>::empty(),
            !page.clock_valid,
            page.status@ == ""@,
            page.editor == editor,
            !page.dirty,
    {
        ClockPage {
            time: String::new(),
            date: String::new(),
            clock_valid: false,
            status: "",
            editor,
            dirty: false,
        }
    }

    /// Step a field of the editor; other fields than the six are ignored.
    pub fn rtc_step(&mut self, field: i32, delta: i32)
        requires
            i32::MIN <= old(self).editor.field(field) + delta <= i32::MAX,
        ensures
            0 <= field <= 5 ==> {
                &&& final(self).editor == old(self).editor.stepped(field, delta as int).fitted()
                &&& final(self).dirty
                &&& final(self).status@ == "Unsaved changes"@
                &&& final(self).time == old(self).time
                &&& final(self).date == old(self).date
                &&& final(self).clock_valid == old(self).clock_valid
            },
            !(0 <= field <= 5) ==> *final(self) == *old(self),
    {
        match field {
            0 => {
                let year: i32 = self.editor.year + delta;
                self.editor.year = if year < 2000 {
                    2000
                } else if year > 2099 {
                    2099
                } else {
                    year
                };
            },
            1 => {
                self.editor.month = wrap_step(self.editor.month, delta, 1, 12);
            },
            2 => {
                let max_day = days_in_month(self.editor.year, self.editor.month);
                self.editor.day = wrap_step(self.editor.day, delta, 1, max_day);
            },
            3 => {
                self.editor.hour = wrap_step(self.editor.hour, delta, 0, 23);
            },
            4 => {
                self.editor.minute = wrap_step(self.editor.minute, delta, 0, 59);
            },
            5 => {
                self.editor.second = wrap_step(self.editor.second, delta, 0, 59);
            },
            _ => {
                return;
            },
        }
        let max_day = days_in_month(self.editor.year, self.editor.month);
        if self.editor.day > max_day {
            self.editor.day = max_day;
        }
        self.dirty = true;
        self.status = "Unsaved changes";
    }

    /// Ask to set the clock, if the editor shows a date that exists.
    pub fn rtc_save(&mut self) -> (request: Option<DateTime>)
        ensures
            request == if old(self).editor.request().civil().valid() {
                Some(old(self).editor.request())
            } else {
                None
            },
            final(self).status@ == if request is Some {
                "Saving..."@
            } else {
                "Invalid date"@
            },
            *final(self) == (ClockPage { status: final(self).status, ..*old(self) }),
    {
        let request = DateTime {
            year: low_word(self.editor.year),
            month: low_byte(self.editor.month),
            day: low_byte(self.editor.day),
            hour: low_byte(self.editor.hour),
            minute: low_byte(self.editor.minute),
            second: low_byte(self.editor.second),
        };
        if request.to_primitive().is_err() {
            self.status = "Invalid date";
            return None;
        }
        self.status = "Saving...";
        Some(request)
    }

    /// Show what the clock task reports; `true` once the clock is known to be
    /// there.
    pub fn show(&mut self, event: RtcEvent) -> (known: bool)
        ensures
            known == (event is Online || event is NeedsSetting || event is Saved),
            match event {
                RtcEvent::Online(snapshot) => {
                    &&& final(self).time@ == time_text(snapshot.datetime)
                    &&& final(self).date@ == date_text(snapshot.datetime)
                    &&& final(self).clock_valid == snapshot.clock_valid
                    &&& final(self).status@ == if snapshot.clock_valid {
                        "Clock ready"@
                    } else {
                        "Set date and time"@
                    }
                    &&& final(self).editor == if old(self).dirty {
                        old(self).editor
                    } else {
                        ClockEditor::showing(snapshot.datetime)
                    }
                    &&& final(self).dirty == old(self).dirty
                },
                RtcEvent::Saved(snapshot) => {
                    &&& final(self).time@ == time_text(snapshot.datetime)
                    &&& final(self).date@ == date_text(snapshot.datetime)
                    &&& final(self).clock_valid == snapshot.clock_valid
                    &&& final(self).status@ == "Time saved"@
                    &&& final(self).editor == ClockEditor::showing(snapshot.datetime)
                    &&& !final(self).dirty
                },
                RtcEvent::NeedsSetting => {
                    &&& final(self).status@ == "Set date and time"@
                    &&& *final(self) == (ClockPage {
                        clock_valid: false,
                        status: final(self).status,
                        ..*old(self)
                    })
                },
                RtcEvent::SaveFailed => {
                    &&& final(self).status@ == "Save failed"@
                    &&& *final(self) == (ClockPage { status: final(self).status, ..*old(self) })
                },
                RtcEvent::Error => {
                    &&& final(self).status@ == "RTC unavailable"@
                    &&& *final(self) == (ClockPage { status: final(self).status, ..*old(self) })
                },
            },
            known == answers(event),
            final(self).editor == editor_after(old(self).editor, old(self).dirty, event),
            final(self).dirty == dirty_after(old(self).dirty, event),
            final(self).status@ == status_after(event),
    {
        match event {
            RtcEvent::Online(snapshot) => {
                update_rtc_display(self, snapshot);
                true
            },
            RtcEvent::NeedsSetting => {
                self.clock_valid = false;
                self.status = "Set date and time";
                true
            },
            RtcEvent::Saved(snapshot) => {
                self.dirty = false;
                update_rtc_display(self, snapshot);
                self.status = "Time saved";
                true
            },
            RtcEvent::SaveFailed => {
                self.status = "Save failed";
                false
            },
            RtcEvent::Error => {
                self.status = "RTC unavailable";
                false
            },
        }
    }
}

/// Stepping never leaves the calendar: an editor that shows a real date and
/// time keeps doing so, whatever is stepped.
pub proof fn law_stepping_keeps_dates_real(editor: ClockEditor, field: i32, delta: int)
    requires
        editor.valid(),
    ensures
        editor.stepped(field, delta).fitted().valid(),
{
}

/// An editor that shows a real date asks for that date.
pub proof fn law_real_dates_can_be_saved(editor: ClockEditor)
    requires
        editor.valid(),
    ensures
        editor.request().civil().valid(),
        ClockEditor::showing(editor.request()) == editor,
{
}

/// What the clock shows and what the editor asks for agree: saving an editor
/// that was filled from a date asks for that date.
pub proof fn law_editor_round_trips(datetime: DateTime)
    ensures
        ClockEditor::showing(datetime).request() == datetime,
{
}

/// A step goes to the next value or, from the last one, round to the first, and
/// the step the other way leads back.
pub proof fn law_steps_go_round(value: int, minimum: int, maximum: int)
    requires
        minimum <= value <= maximum,
    ensures
        value < maximum ==> wrapped(value, 1, minimum, maximum) == value + 1,
        wrapped(maximum, 1, minimum, maximum) == minimum,
        value > minimum ==> wrapped(value, -1, minimum, maximum) == value - 1,
        wrapped(minimum, -1, minimum, maximum) == maximum,
        wrapped(wrapped(value, 1, minimum, maximum), -1, minimum, maximum) == value,
        wrapped(wrapped(value, -1, minimum, maximum), 1, minimum, maximum) == value,
{
}

/// Stepping the brightness moves it by the step, as far as the interface goes:
/// it ends at five and at a hundred percent, and no nearer to where it was than
/// it has to.
pub proof fn law_brightness_stays_offered(percent: int, delta: int)
    ensures
        5 <= brightened(percent, delta) <= 100,
        5 <= percent + delta <= 100 ==> brightened(percent, delta) == percent + delta,
        percent + delta < 5 ==> brightened(percent, delta) == 5,
        percent + delta > 100 ==> brightened(percent, delta) == 100,
{
}

/// One step of a field moves that field by one, going round at its end, and
/// leaves the others: the hour goes round in twenty-four, minute and second in
/// sixty, the month in twelve and the day in the length of its month. The year
/// stops at its ends. Only the day gives way, where its month becomes too short
/// for it.
pub proof fn law_steps_move_their_field(editor: ClockEditor, delta: int)
    requires
        editor.valid(),
        delta == 1 || delta == -1,
    ensures
        ({
            let after = editor.stepped(0, delta).fitted();
            &&& 2000 <= editor.year + delta <= 2099 ==> after.year == editor.year + delta
            &&& !(2000 <= editor.year + delta <= 2099) ==> after.year == editor.year
            &&& after == (ClockEditor { year: after.year, day: after.day, ..editor })
            &&& after.day == editor.day || after.day == longest_day(after.year, after.month)
                < editor.day
        }),
        ({
            let after = editor.stepped(1, delta).fitted();
            &&& (after.month - editor.month - delta) % 12 == 0
            &&& 1 <= after.month <= 12
            &&& after == (ClockEditor { month: after.month, day: after.day, ..editor })
            &&& after.day == editor.day || after.day == longest_day(after.year, after.month)
                < editor.day
        }),
        ({
            let after = editor.stepped(2, delta).fitted();
            let length = longest_day(editor.year, editor.month);
            &&& after.day == editor.day + delta || after.day == editor.day + delta - length
                || after.day == editor.day + delta + length
            &&& 1 <= after.day <= length
            &&& after == (ClockEditor { day: after.day, ..editor })
        }),
        ({
            let after = editor.stepped(3, delta).fitted();
            &&& (after.hour - editor.hour - delta) % 24 == 0
            &&& 0 <= after.hour < 24
            &&& after == (ClockEditor { hour: after.hour, ..editor })
        }),
        ({
            let after = editor.stepped(4, delta).fitted();
            &&& (after.minute - editor.minute - delta) % 60 == 0
            &&& 0 <= after.minute < 60
            &&& after == (ClockEditor { minute: after.minute, ..editor })
        }),
        ({
            let after = editor.stepped(5, delta).fitted();
            &&& (after.second - editor.second - delta) % 60 == 0
            &&& 0 <= after.second < 60
            &&& after == (ClockEditor { second: after.second, ..editor })
        }),
{
}

/// The time that is shown reads back: two digits for each of the hour, the
/// minute and the second, with colons between them.
pub proof fn law_shown_time_reads_back(datetime: DateTime)
    requires
        datetime.hour < 24,
        datetime.minute < 60,
        datetime.second < 60,
    ensures
        ({
            let shown = time_text(datetime);
            &&& shown.len() == 8
            &&& shown[2] == ':' && shown[5] == ':'
            &&& text::number_in(shown.subrange(0, 2)) == datetime.hour
            &&& text::number_in(shown.subrange(3, 5)) == datetime.minute
            &&& text::number_in(shown.subrange(6, 8)) == datetime.second
        }),
{
    reveal_strlit(":");
    text::law_padded_numbers_read_back(datetime.hour as nat);
    text::law_padded_numbers_read_back(datetime.minute as nat);
    text::law_padded_numbers_read_back(datetime.second as nat);
    let shown = time_text(datetime);
    assert(shown.subrange(0, 2) =~= text::padded(datetime.hour as nat));
    assert(shown.subrange(3, 5) =~= text::padded(datetime.minute as nat));
    assert(shown.subrange(6, 8) =~= text::padded(datetime.second as nat));
}

/// The date that is shown reads back: the year, and two digits for each of the
/// month and the day, with dashes between them.
pub proof fn law_shown_date_reads_back(datetime: DateTime)
    requires
        datetime.month < 100,
        datetime.day < 100,
    ensures
        ({
            let shown = date_text(datetime);
            let end = shown.len() as int;
            &&& end >= 7
            &&& shown[end - 6] == '-' && shown[end - 3] == '-'
            &&& text::number_in(shown.subrange(0, end - 6)) == datetime.year
            &&& text::number_in(shown.subrange(end - 5, end - 3)) == datetime.month
            &&& text::number_in(shown.subrange(end - 2, end)) == datetime.day
        }),
{
    reveal_strlit("-");
    text::law_decimals_read_back(datetime.year as nat);
    text::law_padded_numbers_read_back(datetime.month as nat);
    text::law_padded_numbers_read_back(datetime.day as nat);
    let shown = date_text(datetime);
    let end = shown.len() as int;
    assert(shown.subrange(0, end - 6) =~= text::decimal(datetime.year as nat));
    assert(shown.subrange(end - 5, end - 3) =~= text::padded(datetime.month as nat));
    assert(shown.subrange(end - 2, end) =~= text::padded(datetime.day as nat));
}

/// Every date and time that exists can be edited, in the years that the chip
/// counts: the editor takes it for a real one.
pub proof fn law_every_date_can_be_edited(datetime: DateTime)
    requires
        datetime.civil().valid(),
        2000 <= datetime.year <= 2099,
    ensures
        ClockEditor::showing(datetime).valid(),
{
}

/// What is edited after an event: a refresh leaves unsaved changes alone, and the
/// editor follows the clock otherwise and once its changes are saved.
pub proof fn law_unsaved_changes_are_kept(
    editor: ClockEditor,
    dirty: bool,
    snapshot: Snapshot,
)
    ensures
        editor_after(editor, true, RtcEvent::Online(snapshot)) == editor,
        dirty_after(true, RtcEvent::Online(snapshot)),
        editor_after(editor, false, RtcEvent::Online(snapshot)) == ClockEditor::showing(
            snapshot.datetime,
        ),
        editor_after(editor, dirty, RtcEvent::Saved(snapshot)) == ClockEditor::showing(
            snapshot.datetime,
        ),
        !dirty_after(dirty, RtcEvent::Saved(snapshot)),
        editor_after(editor, dirty, RtcEvent::SaveFailed) == editor,
        dirty_after(dirty, RtcEvent::SaveFailed) == dirty,
        editor_after(editor, dirty, RtcEvent::Error) == editor,
        editor_after(editor, dirty, RtcEvent::NeedsSetting) == editor,
{
}

/// The page says what happened: whether the clock runs or needs setting, and what
/// became of saving. The clock counts as there once it answered.
pub proof fn law_pages_say_what_happened(snapshot: Snapshot)
    ensures
        status_after(RtcEvent::Online(snapshot)) == if snapshot.clock_valid {
            "Clock ready"@
        } else {
            "Set date and time"@
        },
        status_after(RtcEvent::NeedsSetting) == "Set date and time"@,
        status_after(RtcEvent::Saved(snapshot)) == "Time saved"@,
        status_after(RtcEvent::SaveFailed) == "Save failed"@,
        status_after(RtcEvent::Error) == "RTC unavailable"@,
        answers(RtcEvent::Online(snapshot)),
        answers(RtcEvent::NeedsSetting),
        answers(RtcEvent::Saved(snapshot)),
        !answers(RtcEvent::SaveFailed),
        !answers(RtcEvent::Error),
{
}

/// Whatever the editor holds, what it asks for are the low bits of its fields:
/// two editors whose fields differ by what those bits cannot tell ask for the
/// same.
pub proof fn law_requests_are_the_low_bits(editor: ClockEditor)
    ensures
        (editor.request().year - editor.year) % 65536 == 0,
        (editor.request().month - editor.month) % 256 == 0,
        (editor.request().day - editor.day) % 256 == 0,
        (editor.request().hour - editor.hour) % 256 == 0,
        (editor.request().minute - editor.minute) % 256 == 0,
        (editor.request().second - editor.second) % 256 == 0,
{
}

} // verus!
