use claudial::bringup::clock::{
    brightness_step, sync_rtc_editor, update_rtc_display, wrap_step, ClockEditor, ClockPage,
};
use claudial::bringup::rtc as manual;
use claudial::bringup::rtc::{RtcAction, RtcEvent, RtcInput, RtcTask};
use claudial::calendar::days_in_month;
use claudial::icd::ClockSync;
use claudial::rtc::{
    decode_utc_offset, encode_utc_offset, identity_probe, init, read, synchronize,
    verify_synchronized, ChipOp, DateTime, RtcError, Snapshot,
};
use claudial::ui::update_clock;

fn noon() -> DateTime {
    DateTime {
        year: 2024,
        month: 2,
        day: 29,
        hour: 12,
        minute: 5,
        second: 9,
    }
}

/// 2024-02-29 12:05:09 UTC.
const NOON: i64 = 1_709_208_309;

#[test]
fn readings_and_moments_agree() {
    assert_eq!(noon().to_primitive(), Ok(NOON));
    assert_eq!(DateTime::from_primitive(NOON), noon());
    assert_eq!(DateTime::from_primitive(0).year, 1970);
    let epoch = DateTime {
        year: 1970,
        month: 1,
        day: 1,
        hour: 0,
        minute: 0,
        second: 0,
    };
    assert_eq!(epoch.to_primitive(), Ok(0));
}

#[test]
fn impossible_readings_have_no_moment() {
    for broken in [
        DateTime { day: 30, ..noon() },
        DateTime { month: 13, ..noon() },
        DateTime { month: 0, ..noon() },
        DateTime { hour: 24, ..noon() },
        DateTime { minute: 60, ..noon() },
        DateTime { second: 60, ..noon() },
        DateTime { year: 2023, ..noon() },
        DateTime {
            year: 10_000,
            ..noon()
        },
    ] {
        assert_eq!(broken.to_primitive(), Err(RtcError::ComponentRange));
    }
}

#[test]
fn years_before_zero_wrap_as_the_register_does() {
    // The first second of the year -1.
    assert_eq!(DateTime::from_primitive(-62_198_755_200).year, 65_535);
}

#[test]
fn month_lengths_follow_the_calendar() {
    assert_eq!(days_in_month(2024, 2), 29);
    assert_eq!(days_in_month(2023, 2), 28);
    assert_eq!(days_in_month(1900, 2), 28);
    assert_eq!(days_in_month(2000, 2), 29);
    assert_eq!(days_in_month(2024, 4), 30);
    assert_eq!(days_in_month(2024, 12), 31);
    assert_eq!(days_in_month(2024, 0), 31);
    assert_eq!(days_in_month(2024, 13), 31);
    assert_eq!(days_in_month(2024, -3), 31);
    assert_eq!(days_in_month(2024, 258), 31);
}

#[test]
fn offsets_round_trip_through_the_ram_byte() {
    for minutes in (-720..=840).step_by(15) {
        let byte = encode_utc_offset(minutes).unwrap();
        assert!(byte >= 0x80);
        assert_eq!(decode_utc_offset(byte), Some(minutes));
    }
    assert_eq!(encode_utc_offset(-735), None);
    assert_eq!(encode_utc_offset(855), None);
    assert_eq!(encode_utc_offset(7), None);
    assert_eq!(encode_utc_offset(0), Some(0xb0));
    assert_eq!(decode_utc_offset(0), None);
    assert_eq!(decode_utc_offset(0x7f), None);
    assert_eq!(decode_utc_offset(0xff), None);
}

#[test]
fn probe_restores_the_byte() {
    let ops = identity_probe(0x35);
    assert_eq!(
        ops,
        [
            ChipOp::WriteRam(0xb5),
            ChipOp::ReadRam,
            ChipOp::WriteRam(0x35)
        ]
    );
    assert_eq!(init(0x35, 0xb5, 0x12), Ok(true));
    assert_eq!(init(0x35, 0xb5, 0x92), Ok(false));
    assert_eq!(init(0x35, 0x35, 0x12), Err(RtcError::InvalidInputData));
}

#[test]
fn synchronizing_writes_the_marker_last() {
    let sync = ClockSync {
        unix_seconds: NOON,
        utc_offset_minutes: 120,
    };
    assert_eq!(
        synchronize(sync),
        Ok([
            ChipOp::WriteRam(0),
            ChipOp::SetCalendar(NOON),
            ChipOp::WriteRam(0xb8)
        ])
    );
}

#[test]
fn synchronizing_refuses_what_the_chip_cannot_hold() {
    let sync = |unix_seconds, utc_offset_minutes| ClockSync {
        unix_seconds,
        utc_offset_minutes,
    };
    assert_eq!(synchronize(sync(NOON, 1)), Err(RtcError::InvalidInputData));
    assert_eq!(
        synchronize(sync(i64::MAX, 1)),
        Err(RtcError::InvalidInputData)
    );
    assert_eq!(
        synchronize(sync(i64::MAX, 0)),
        Err(RtcError::ComponentRange)
    );
    // The last second of 1999, and the first of 2100.
    assert_eq!(
        synchronize(sync(946_684_799, 0)),
        Err(RtcError::InvalidInputData)
    );
    assert!(synchronize(sync(946_684_800, 0)).is_ok());
    assert!(synchronize(sync(4_102_444_799, 0)).is_ok());
    assert_eq!(
        synchronize(sync(4_102_444_800, 0)),
        Err(RtcError::InvalidInputData)
    );
}

#[test]
fn synchronization_is_verified_within_a_second() {
    let sync = ClockSync {
        unix_seconds: NOON,
        utc_offset_minutes: 60,
    };
    let snapshot = read(9, NOON, 0xb4);
    assert_eq!(snapshot.utc_offset_minutes, Some(60));
    assert_eq!(verify_synchronized(sync, snapshot), Ok(snapshot));
    for late in [-1, 1] {
        assert!(verify_synchronized(sync, read(9, NOON + late, 0xb4)).is_ok());
    }
    for wrong in [
        read(9, NOON + 2, 0xb4),
        read(9, NOON - 2, 0xb4),
        read(0x89, NOON, 0xb4),
        read(9, NOON, 0xb8),
        read(9, NOON, 0),
    ] {
        assert_eq!(
            verify_synchronized(sync, wrong),
            Err(RtcError::InvalidInputData)
        );
    }
}

#[test]
fn snapshots_count_only_when_synchronized() {
    let snapshot = Snapshot {
        datetime: noon(),
        clock_valid: true,
        utc_offset_minutes: Some(-330),
    };
    assert!(snapshot.synchronized());
    assert_eq!(snapshot.unix_timestamp(), Some(NOON));
    let local = snapshot.local_datetime().unwrap();
    assert_eq!((local.hour, local.minute), (6, 35));

    let stopped = Snapshot {
        clock_valid: false,
        ..snapshot
    };
    assert!(!stopped.synchronized());
    assert_eq!(stopped.unix_timestamp(), None);
    assert_eq!(stopped.local_datetime(), None);
    let foreign = Snapshot {
        utc_offset_minutes: None,
        ..snapshot
    };
    assert_eq!(foreign.unix_timestamp(), None);
    assert_eq!(foreign.local_datetime(), None);
    let broken = Snapshot {
        datetime: DateTime { day: 31, ..noon() },
        ..snapshot
    };
    assert!(broken.synchronized());
    assert_eq!(broken.unix_timestamp(), None);
    assert_eq!(broken.local_datetime(), None);
}

#[test]
fn local_time_stops_where_the_calendar_does() {
    let snapshot = Snapshot {
        datetime: DateTime {
            year: 9999,
            month: 12,
            day: 31,
            hour: 23,
            minute: 30,
            second: 0,
        },
        clock_valid: true,
        utc_offset_minutes: Some(60),
    };
    assert_eq!(snapshot.local_datetime(), None);
    let earlier = Snapshot {
        utc_offset_minutes: Some(15),
        ..snapshot
    };
    assert_eq!(earlier.local_datetime().unwrap().minute, 45);
}

#[test]
fn clock_face_shows_local_hours_and_minutes() {
    let face = update_clock(Snapshot {
        datetime: noon(),
        clock_valid: true,
        utc_offset_minutes: Some(-180),
    });
    assert_eq!(face.clock, "09:05");
    assert_eq!(face.rtc_status, "synced");
    let face = update_clock(Snapshot {
        datetime: noon(),
        clock_valid: false,
        utc_offset_minutes: Some(-180),
    });
    assert_eq!(face.clock, "--:--");
    assert_eq!(face.rtc_status, "needs host sync");
}

#[test]
fn steps_wrap_round_their_range() {
    assert_eq!(wrap_step(12, 1, 1, 12), 1);
    assert_eq!(wrap_step(1, -1, 1, 12), 12);
    assert_eq!(wrap_step(5, 1, 1, 12), 6);
    assert_eq!(brightness_step(7, -5), 5);
    assert_eq!(brightness_step(98, 5), 100);
    assert_eq!(brightness_step(50, 5), 55);
}

fn editor() -> ClockEditor {
    ClockEditor {
        year: 2024,
        month: 1,
        day: 31,
        hour: 23,
        minute: 59,
        second: 0,
    }
}

#[test]
fn editor_keeps_dates_real() {
    let mut page = ClockPage::new(editor());
    page.rtc_step(1, 1);
    assert_eq!((page.editor.month, page.editor.day), (2, 29));
    assert!(page.dirty);
    assert_eq!(page.status, "Unsaved changes");
    page.rtc_step(0, -1);
    assert_eq!((page.editor.year, page.editor.day), (2023, 28));
    page.rtc_step(2, 1);
    assert_eq!(page.editor.day, 1);
    page.rtc_step(3, 1);
    assert_eq!(page.editor.hour, 0);
    page.rtc_step(4, 1);
    assert_eq!(page.editor.minute, 0);
    page.rtc_step(5, -1);
    assert_eq!(page.editor.second, 59);
    page.rtc_step(0, 1000);
    assert_eq!(page.editor.year, 2099);
    page.rtc_step(0, -1000);
    assert_eq!(page.editor.year, 2000);
    let before = page.editor;
    page.rtc_step(6, 1);
    assert_eq!(page.editor, before);
}

#[test]
fn saving_asks_for_the_edited_date() {
    let mut page = ClockPage::new(editor());
    let request = page.rtc_save().unwrap();
    assert_eq!((request.year, request.month, request.day), (2024, 1, 31));
    assert_eq!(page.status, "Saving...");
    let mut page = ClockPage::new(ClockEditor {
        month: 2,
        ..editor()
    });
    assert_eq!(page.rtc_save(), None);
    assert_eq!(page.status, "Invalid date");
    let mut page = ClockPage::new(ClockEditor {
        hour: -1,
        ..editor()
    });
    assert_eq!(page.rtc_save(), None);
}

#[test]
fn clock_page_follows_the_clock() {
    let mut page = ClockPage::new(editor());
    let snapshot = manual::read(9, NOON);
    assert_eq!(snapshot.datetime, noon());
    update_rtc_display(&mut page, snapshot);
    assert_eq!(page.time, "12:05:09");
    assert_eq!(page.date, "2024-02-29");
    assert_eq!(page.status, "Clock ready");
    assert_eq!(page.editor.year, 2024);
    assert_eq!(page.editor.second, 9);

    page.rtc_step(5, 1);
    let stopped = manual::Snapshot {
        clock_valid: false,
        datetime: DateTime { year: 7, ..noon() },
    };
    update_rtc_display(&mut page, stopped);
    assert_eq!(page.status, "Set date and time");
    assert_eq!(page.date, "7-02-29");
    assert!(!page.clock_valid);
    // Unsaved changes stay.
    assert_eq!(page.editor.second, 10);

    assert!(page.show(manual::RtcEvent::Saved(snapshot)));
    assert!(!page.dirty);
    assert_eq!(page.editor.second, 9);
    assert_eq!(page.status, "Time saved");
    assert!(!page.show(manual::RtcEvent::SaveFailed));
    assert_eq!(page.status, "Save failed");
    assert!(!page.show(manual::RtcEvent::Error));
    assert_eq!(page.status, "RTC unavailable");
    assert!(page.show(manual::RtcEvent::NeedsSetting));
    assert!(!page.clock_valid);
    assert!(page.show(manual::RtcEvent::Online(snapshot)));
    assert_eq!(page.status, "Clock ready");

    sync_rtc_editor(&mut page, DateTime { month: 3, ..noon() });
    assert_eq!(page.editor.month, 3);
}

#[test]
fn clock_task_verifies_what_it_saves() {
    let snapshot = manual::read(9, NOON);
    let mut task = RtcTask::new();
    assert_eq!(task.action(), RtcAction::Initialize);
    assert_eq!(
        task.step(RtcInput::Initialized(true)).action,
        RtcAction::Read
    );
    let step = task.step(RtcInput::Read(None));
    assert_eq!(step.event, Some(RtcEvent::NeedsSetting));
    assert_eq!(step.action, RtcAction::Wait);

    let broken = DateTime { day: 31, ..noon() };
    let step = task.step(RtcInput::Request(broken));
    assert_eq!(step.event, Some(RtcEvent::SaveFailed));
    assert_eq!(step.action, RtcAction::Wait);

    let step = task.step(RtcInput::Request(noon()));
    assert_eq!(step.event, None);
    assert_eq!(step.action, RtcAction::SetCalendar(NOON));
    assert_eq!(task.step(RtcInput::Written(true)).action, RtcAction::Read);
    let step = task.step(RtcInput::Read(Some(snapshot)));
    assert_eq!(step.event, Some(RtcEvent::Saved(snapshot)));
    assert!(step.restart_interval);

    task.step(RtcInput::Request(noon()));
    let step = task.step(RtcInput::Written(false));
    assert_eq!(step.event, Some(RtcEvent::SaveFailed));
    assert_eq!(step.action, RtcAction::Wait);

    task.step(RtcInput::Request(noon()));
    task.step(RtcInput::Written(true));
    let stopped = manual::Snapshot {
        clock_valid: false,
        ..snapshot
    };
    let step = task.step(RtcInput::Read(Some(stopped)));
    assert_eq!(step.event, Some(RtcEvent::SaveFailed));
    assert!(!step.restart_interval);

    assert_eq!(task.step(RtcInput::Tick).action, RtcAction::Read);
    assert_eq!(
        task.step(RtcInput::Read(Some(snapshot))).event,
        Some(RtcEvent::Online(snapshot))
    );
    task.step(RtcInput::Tick);
    assert_eq!(
        task.step(RtcInput::Read(None)).event,
        Some(RtcEvent::Error)
    );
}

#[test]
fn clock_task_stops_without_a_chip() {
    let mut task = RtcTask::new();
    let step = task.step(RtcInput::Initialized(false));
    assert_eq!(step.event, Some(RtcEvent::Error));
    assert_eq!(step.action, RtcAction::Stop);
    assert_eq!(task.step(RtcInput::Tick).action, RtcAction::Stop);
}
