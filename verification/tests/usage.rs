use claudial::clawdmeter;
use claudial::history::{History, BUCKETS};
use claudial::icd::{minutes_until, UsageSnapshot, UsageStatus};
use claudial::pace::{Pace, MAXIMUM_SAMPLE_GAP_SECONDS, MINIMUM_COVERAGE_SECONDS};
use claudial::settings::{
    crc32, decode_record, encode_record, DisplaySettings, SettingsRecord,
    MAXIMUM_BRIGHTNESS_PERCENT, MINIMUM_BRIGHTNESS_PERCENT, SETTINGS_CRC_OFFSET,
};

#[test]
fn history_first_sample_has_no_rate() {
    let mut history = History::new();
    history.push(40);
    assert_eq!(history.rate_per_hour(), None);
}

#[test]
fn rate_scales_a_partial_window_to_an_hour() {
    let mut history = History::new();
    history.push(0);
    // Ten minutes at one percent a minute is sixty percent an hour.
    for percent in 1..=10 {
        history.push(percent);
    }
    assert_eq!(history.rate_per_hour(), Some(60));
}

#[test]
fn history_a_window_rollover_is_not_spending() {
    let mut climbing = History::new();
    let mut rolling = History::new();
    for percent in [1, 2, 3, 4, 5, 6] {
        climbing.push(percent);
        rolling.push(percent);
    }

    // The five-hour window resets: the level collapses, but nothing was spent
    // in that minute and the rate must not move as though it had.
    rolling.push(0);
    climbing.push(7);

    assert_eq!(climbing.rate_per_hour(), Some(60));
    assert_eq!(rolling.rate_per_hour(), Some(50));
}

#[test]
fn buckets_put_the_newest_last() {
    let mut history = History::new();
    history.push(0);
    for percent in 1..=5 {
        history.push(percent);
    }
    let columns = history.buckets();
    let buckets = columns
        .totals
        .map(|total| f32::from(total) / f32::from(columns.peak));
    assert_eq!(buckets[BUCKETS - 1], 1.0);
    assert_eq!(buckets[0], 0.0);
}

#[test]
fn history_wraps_after_five_hours() {
    let mut history = History::new();
    history.push(0);
    history.push(50);
    for _ in 0..299 {
        history.push(50);
    }
    // The busy minute is now the oldest one kept.
    let columns = history.buckets();
    assert_eq!(columns.totals[0], 50);
    assert_eq!(columns.peak, 50);
    history.push(50);
    let columns = history.buckets();
    assert_eq!(columns.totals[0], 0);
    assert_eq!(columns.peak, 0);
    assert_eq!(history.rate_per_hour(), Some(0));
}

#[test]
fn steep_rises_have_a_rate() {
    // Fifteen rises of a hundred percent in half an hour.
    let mut history = History::new();
    for minute in 0..31 {
        history.push(if minute % 2 == 1 { 100 } else { 0 });
    }
    assert_eq!(history.rate_per_hour(), Some(3_000));

    let mut history = History::new();
    for minute in 0..31 {
        history.push(if minute % 2 == 1 { u8::MAX } else { 0 });
    }
    assert_eq!(history.rate_per_hour(), Some(7_650));
}

#[test]
fn countdown_rounds_partial_minutes_up() {
    assert_eq!(minutes_until(1_001, 1_000), 1);
    assert_eq!(minutes_until(1_060, 1_000), 1);
    assert_eq!(minutes_until(1_061, 1_000), 2);
}

#[test]
fn countdown_rejects_unknown_and_past_deadlines() {
    assert_eq!(minutes_until(0, 1_000), 0);
    assert_eq!(minutes_until(999, 1_000), 0);
    assert_eq!(minutes_until(1_000, 1_000), 0);
}

#[test]
fn countdown_saturates_to_the_wire_display_range() {
    assert_eq!(minutes_until(i64::MAX, 1), u16::MAX);
}

#[test]
fn countdown_survives_a_clock_before_the_epoch() {
    assert_eq!(minutes_until(i64::MAX, i64::MIN), u16::MAX);
    assert_eq!(minutes_until(1, -59), 1);
    assert_eq!(minutes_until(-5, -100), 0);
}

#[test]
fn unknown_snapshot_is_empty() {
    let snapshot = UsageSnapshot::unknown();
    assert_eq!(snapshot.status, UsageStatus::Unknown);
    assert_eq!(snapshot.session_reset_at, 0);
    assert_eq!(snapshot.session_pct, 0);
}

#[test]
fn pace_first_sample_has_no_rate() {
    let mut pace = Pace::new();
    pace.record(40, 0);
    assert_eq!(pace.rate_per_hour(), None);
}

#[test]
fn rate_uses_measured_intervals() {
    let mut pace = Pace::new();
    pace.record(0, 0);
    for (percent, seconds) in [(1, 60), (2, 120), (3, 60), (4, 120), (5, 120)] {
        pace.record(percent, seconds);
    }

    // Five percent over eight measured minutes is 37.5 percent per hour.
    assert_eq!(pace.rate_per_hour(), Some(38));
}

#[test]
fn long_gap_discards_the_old_pace() {
    let mut pace = Pace::new();
    pace.record(0, 0);
    for percent in 1..=5 {
        pace.record(percent, 60);
    }
    assert_eq!(pace.rate_per_hour(), Some(60));

    pace.record(20, MAXIMUM_SAMPLE_GAP_SECONDS + 1);
    assert_eq!(pace.rate_per_hour(), None);
}

#[test]
fn pace_a_window_rollover_is_not_spending() {
    let mut pace = Pace::new();
    pace.record(95, 0);
    for percent in [96, 97, 98, 99, 100] {
        pace.record(percent, 60);
    }
    pace.record(0, 60);

    assert_eq!(pace.rate_per_hour(), Some(50));
}

#[test]
fn rate_uses_only_the_last_half_hour() {
    let mut pace = Pace::new();
    pace.record(0, 0);
    for minute in 1..=35 {
        pace.record(minute, 60);
    }

    assert_eq!(pace.rate_per_hour(), Some(60));
}

#[test]
fn readiness_counts_down_with_observed_time() {
    let mut pace = Pace::new();
    pace.record(10, 0);
    pace.record(10, 60);
    pace.record(10, 120);

    assert_eq!(pace.readiness_remaining_seconds(), 120);

    pace.record(10, 120);
    assert_eq!(pace.readiness_remaining_seconds(), 0);
    assert_eq!(pace.rate_per_hour(), Some(0));
}

#[test]
fn unchanged_time_stops_at_the_last_increase() {
    let mut pace = Pace::new();
    pace.record(10, 0);
    pace.record(11, 60);
    pace.record(11, 60);
    pace.record(11, 120);

    assert_eq!(pace.unchanged_seconds(), 180);
}

#[test]
fn long_gap_resets_readiness_and_unchanged_time() {
    let mut pace = Pace::new();
    pace.record(10, 0);
    pace.record(10, 60);
    pace.record(10, 60);
    pace.record(12, MAXIMUM_SAMPLE_GAP_SECONDS + 1);

    assert_eq!(pace.readiness_remaining_seconds(), MINIMUM_COVERAGE_SECONDS);
    assert_eq!(pace.unchanged_seconds(), 0);
}

#[test]
fn pace_survives_many_short_intervals() {
    let mut pace = Pace::default();
    pace.record(0, 0);
    for step in 1..=200u32 {
        pace.record((step / 2) as u8, 30);
    }
    // Half a percent every thirty seconds is sixty percent an hour.
    assert_eq!(pace.rate_per_hour(), Some(60));
    assert_eq!(pace.unchanged_seconds(), 0);
}

#[test]
fn default_policy_only_dims_on_battery() {
    let settings = DisplaySettings::default();
    assert!(settings.should_dim(false));
    assert!(!settings.should_dim(true));
}

#[test]
fn controls_clamp_to_supported_values() {
    let mut settings = DisplaySettings::default();
    for _ in 0..30 {
        settings.brightness_step(-1);
        settings.dim_brightness_step(-1);
        settings.idle_timeout_step(-1);
    }
    assert_eq!(settings.brightness_percent, MINIMUM_BRIGHTNESS_PERCENT);
    assert_eq!(settings.dim_brightness_percent, MINIMUM_BRIGHTNESS_PERCENT);
    assert_eq!(settings.idle_timeout_seconds, 30);

    for _ in 0..30 {
        settings.brightness_step(1);
        settings.dim_brightness_step(1);
        settings.idle_timeout_step(1);
    }
    assert_eq!(settings.brightness_percent, MAXIMUM_BRIGHTNESS_PERCENT);
    assert_eq!(settings.dim_brightness_percent, MAXIMUM_BRIGHTNESS_PERCENT);
    assert_eq!(settings.idle_timeout_seconds, 1800);
}

#[test]
fn record_round_trips_and_detects_corruption() {
    let record = SettingsRecord {
        settings: DisplaySettings::default(),
        sequence: 42,
    };
    let mut encoded = encode_record(record);
    assert_eq!(decode_record(&encoded), Some(record));

    encoded[7] ^= 1;
    assert_eq!(decode_record(&encoded), None);
}

#[test]
fn record_rejects_unsupported_values_even_with_a_valid_crc() {
    let record = SettingsRecord {
        settings: DisplaySettings::default(),
        sequence: 1,
    };
    let mut encoded = encode_record(record);
    encoded[8..10].copy_from_slice(&17_u16.to_le_bytes());
    let crc = crc32(&encoded[..SETTINGS_CRC_OFFSET]);
    encoded[SETTINGS_CRC_OFFSET..SETTINGS_CRC_OFFSET + 4].copy_from_slice(&crc.to_le_bytes());

    assert_eq!(decode_record(&encoded), None);
}

#[test]
fn checksum_matches_the_published_check_value() {
    assert_eq!(crc32(b"123456789"), 0xcbf4_3926);
    assert_eq!(crc32(b""), 0);
}

#[test]
fn record_layout_is_stable() {
    let encoded = encode_record(SettingsRecord {
        settings: DisplaySettings {
            brightness_percent: 80,
            auto_dim: true,
            dim_on_usb: true,
            idle_timeout_seconds: 300,
            dim_brightness_percent: 10,
        },
        sequence: 0x0102_0304,
    });
    assert_eq!(&encoded[..12], b"CLDS\x01\x03\x50\x0a\x2c\x01\xff\xff");
    assert_eq!(&encoded[12..16], &[4, 3, 2, 1]);
    assert_eq!(&encoded[20..], &[0xff; 12]);
}

#[test]
fn every_damaged_byte_is_detected() {
    let encoded = encode_record(SettingsRecord {
        settings: DisplaySettings::default(),
        sequence: 7,
    });
    for position in 0..20 {
        for flip in 1..=255u8 {
            let mut damaged = encoded;
            damaged[position] ^= flip;
            assert_eq!(decode_record(&damaged), None);
        }
    }
}

#[test]
fn timeout_steps_undo_each_other() {
    let mut settings = DisplaySettings::default();
    let before = settings.idle_timeout_seconds;
    settings.idle_timeout_step(1);
    assert_ne!(settings.idle_timeout_seconds, before);
    settings.idle_timeout_step(-1);
    assert_eq!(settings.idle_timeout_seconds, before);
}

#[test]
fn synthetic_readings_move() {
    let first = clawdmeter::synthetic_snapshot(0);
    assert_eq!(first.session_pct, 0);
    assert_eq!(first.session_reset_mins, 300);
    assert_eq!(first.weekly_reset_mins, 7200);
    assert_eq!(first.status, clawdmeter::UsageStatus::Allowed);
    let later = clawdmeter::synthetic_snapshot(14);
    assert_eq!(later.session_pct, 98);
    assert_eq!(later.weekly_pct, 42);
    assert_eq!(later.status, clawdmeter::UsageStatus::Limited);
    let mut source = clawdmeter::SyntheticSource::new();
    assert_eq!(source.next(), first);
    assert_eq!(source.next(), clawdmeter::synthetic_snapshot(1));
    assert_eq!(
        clawdmeter::UsageSnapshot::unknown().status,
        clawdmeter::UsageStatus::Unknown
    );
}
