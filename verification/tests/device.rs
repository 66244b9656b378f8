use claudial::animation::{Animation, Frame, Player};
use claudial::ble::{
    notification, Connection, LinkAction, LinkEvent, LinkState, Peripheral, PeripheralInput,
    PeripheralPhase, NUS_MAX_PAYLOAD,
};
use claudial::bringup::clock::{ClockEditor, ClockPage};
use claudial::bringup::co5300::{Error as UploadError, Rectangle};
use claudial::bringup::events as early;
use claudial::bringup::rtc::RtcEvent as ClockEvent;
use claudial::bringup::screen;
use claudial::bringup::screen::{Readiness, Screen, ScreenAction};
use claudial::events::{idle_due, BleState, RtcEvent, SettingsAction, UiChannels, UiEvent};
use claudial::frame_stats::{FrameReport, FrameStats, FrameTiming};
use claudial::icd::{UsageSnapshot, UsageStatus};
use claudial::panel::BusOp;
use claudial::pmic;
use claudial::pmic::{
    AdcChannel, PmicAction, PmicEvent, PmicInput, PmicReading, PmicSetup, PmicStats, PmicTask,
    PowerKey,
};
use claudial::settings::{encode_settings, DisplaySettings, SETTINGS_VALUE_SIZE};
use claudial::settings_store::{
    loaded_settings, Error as StoreError, OpenAction, OpenInput, Opening,
    SettingsStore, DATA_BUFFER_SIZE,
};
use claudial::touch::{
    dispatch_touch_state, display_coordinates, PointerEvent, TouchAction, TouchInput, TouchReport,
    TouchState, TouchTask,
};
use claudial::ui::{callback_action, update_settings, Callback};

#[test]
fn touches_are_turned_to_the_panel() {
    assert_eq!(display_coordinates(0, 0), (479, 0));
    assert_eq!(display_coordinates(100, 200), (279, 100));
    assert_eq!(display_coordinates(600, 600), (0, 479));
}

#[test]
fn touch_task_follows_the_finger() {
    let mut task = TouchTask::new();
    assert_eq!(task.action(), TouchAction::Initialize);
    let step = task.step(TouchInput::Initialized(true));
    assert_eq!(step.ready, Some(true));
    assert_eq!(step.action, TouchAction::WaitForEdge);
    // Nothing is pressed, so silence means nothing.
    assert_eq!(
        task.step(TouchInput::Timeout).action,
        TouchAction::WaitForEdge
    );

    assert_eq!(task.step(TouchInput::Edge).action, TouchAction::Read);
    let step = task.step(TouchInput::Report(TouchReport::Finger { x: 1, y: 2 }));
    assert_eq!(step.state, Some(TouchState::Pressed { x: 477, y: 1 }));
    assert_eq!(step.action, TouchAction::WaitForEdgeOrTimeout);

    // The controller stays silent but still sees the finger.
    assert_eq!(task.step(TouchInput::Timeout).action, TouchAction::Read);
    let step = task.step(TouchInput::Report(TouchReport::Finger { x: 1, y: 2 }));
    assert_eq!(step.state, None);
    assert_eq!(step.action, TouchAction::WaitForEdgeOrTimeout);

    // It stays silent and no longer sees it.
    task.step(TouchInput::Timeout);
    let step = task.step(TouchInput::Report(TouchReport::NoFinger));
    assert_eq!(step.state, Some(TouchState::Released));
    assert_eq!(step.action, TouchAction::WaitForEdge);

    task.step(TouchInput::Edge);
    let step = task.step(TouchInput::Report(TouchReport::Failed));
    assert_eq!(step.state, Some(TouchState::Released));
}

#[test]
fn touch_task_stops_without_a_controller() {
    let mut task = TouchTask::new();
    let step = task.step(TouchInput::Initialized(false));
    assert_eq!(step.ready, Some(false));
    assert_eq!(step.action, TouchAction::Stop);
    assert_eq!(task.step(TouchInput::Edge).action, TouchAction::Stop);
}

#[test]
fn pointer_events_come_in_pairs() {
    let mut last = None;
    assert_eq!(dispatch_touch_state(&mut last, TouchState::Released), vec![]);
    let down = TouchState::Pressed { x: 3, y: 4 };
    assert_eq!(
        dispatch_touch_state(&mut last, down),
        vec![PointerEvent::Pressed { x: 3, y: 4 }]
    );
    assert_eq!(dispatch_touch_state(&mut last, down), vec![]);
    assert_eq!(
        dispatch_touch_state(&mut last, TouchState::Pressed { x: 3, y: 5 }),
        vec![PointerEvent::Moved { x: 3, y: 5 }]
    );
    assert_eq!(
        dispatch_touch_state(&mut last, TouchState::Released),
        vec![PointerEvent::Released { x: 3, y: 5 }, PointerEvent::Exited]
    );
    assert_eq!(last, None);
}

fn stats() -> PmicStats<f32> {
    pmic::read_stats(
        true,
        false,
        Some(4012),
        Some(5000),
        4010,
        36.5,
        Some(87),
        false,
    )
}

#[test]
fn power_chip_is_brought_up_in_order() {
    let steps = pmic::init();
    assert_eq!(steps[0], PmicSetup::ReadChipId);
    assert_eq!(steps[1], PmicSetup::EnableBatteryDetection);
    assert_eq!(
        steps[5],
        PmicSetup::EnableChannel(AdcChannel::DieTemperature)
    );
    assert!(pmic::is_known_chip(0x4a));
    assert!(pmic::is_known_chip(0x47));
    assert!(!pmic::is_known_chip(0));
}

#[test]
fn absent_supplies_are_not_read() {
    assert_eq!(
        pmic::readings(false, false),
        vec![
            PmicReading::VsysVoltage,
            PmicReading::DieTemperature,
            PmicReading::Charging
        ]
    );
    assert_eq!(
        pmic::readings(true, true),
        vec![
            PmicReading::BatteryVoltage,
            PmicReading::VbusVoltage,
            PmicReading::VsysVoltage,
            PmicReading::DieTemperature,
            PmicReading::BatteryLevel,
            PmicReading::Charging
        ]
    );
    let stats = stats();
    assert_eq!(stats.battery_mv, 4012);
    assert_eq!(stats.vbus_mv, 0);
    assert_eq!(stats.state_of_charge, 87);
    assert_eq!(stats.temperature_c, 36.5);
}

#[test]
fn power_task_keeps_its_interval() {
    let mut task = PmicTask::new(1_000);
    let step = task.step(PmicInput::<f32>::Initialized {
        ok: true,
        now: 100,
    });
    assert_eq!(step.action, PmicAction::CheckPowerOff);
    let idle = PmicInput::<f32>::Woke {
        power_off_requested: false,
    };
    assert_eq!(task.step(idle).action, PmicAction::PollKey);
    let polled = |now| PmicInput::<f32>::KeyPolled { key: None, now };
    assert_eq!(task.step(polled(101)).action, PmicAction::ReadStats);
    let step = task.step(PmicInput::<f32>::StatsRead(None));
    assert!(matches!(step.stats, Some(PmicEvent::Error)));
    assert_eq!(step.action, PmicAction::Pause);

    // Nothing was read yet, so the next poll asks again.
    task.step(PmicInput::<f32>::Woke {
        power_off_requested: false,
    });
    assert_eq!(task.step(polled(301)).action, PmicAction::ReadStats);
    let step = task.step(PmicInput::StatsRead(Some(stats())));
    assert!(matches!(step.stats, Some(PmicEvent::Online(_))));

    task.step(PmicInput::<f32>::Woke {
        power_off_requested: false,
    });
    assert_eq!(task.step(polled(1300)).action, PmicAction::Pause);
    task.step(PmicInput::<f32>::Woke {
        power_off_requested: true,
    });
    assert_eq!(task.doing, PmicAction::PowerOff);
    task.step(PmicInput::<f32>::PowerOffTried);
    let step = task.step(PmicInput::<f32>::KeyPolled {
        key: Some(PowerKey::Long),
        now: 1301,
    });
    assert_eq!(step.key, Some(PowerKey::Long));
    assert_eq!(step.action, PmicAction::ReadStats);
}

#[test]
fn power_task_stops_without_a_chip() {
    let mut task = PmicTask::new(1_000);
    let step = task.step(PmicInput::<f32>::Initialized {
        ok: false,
        now: 0,
    });
    assert!(matches!(step.stats, Some(PmicEvent::Error)));
    assert_eq!(step.action, PmicAction::Stop);
}

#[test]
fn events_come_in_their_order() {
    let mut channels = UiChannels::<f32>::new();
    assert!(channels.next_ui_event().is_none());
    channels.usage = Some(UsageSnapshot::unknown());
    channels.ble = Some(BleState::Connected);
    channels.idle = true;
    channels.animation = true;
    channels.maintenance = true;
    channels.settings.push(SettingsAction::Open);
    channels.settings.push(SettingsAction::Close);
    channels.rtc = Some(RtcEvent::Error);
    channels.pmic = Some(PmicEvent::Error);
    channels.touches.push(TouchState::Pressed { x: 1, y: 2 });
    channels.touches.push(TouchState::Released);
    channels.touch_ready = Some(true);
    channels.power_key = Some(PowerKey::Short);

    let mut order = Vec::new();
    while let Some(event) = channels.next_ui_event() {
        order.push(match event {
            UiEvent::PowerKey(PowerKey::Short) => "key",
            UiEvent::TouchReady(true) => "ready",
            UiEvent::Touch(TouchState::Pressed { x: 1, y: 2 }) => "press",
            UiEvent::Touch(TouchState::Released) => "release",
            UiEvent::Pmic(PmicEvent::Error) => "pmic",
            UiEvent::Rtc(RtcEvent::Error) => "rtc",
            UiEvent::Settings(SettingsAction::Open) => "open",
            UiEvent::Settings(SettingsAction::Close) => "close",
            UiEvent::Maintenance => "maintenance",
            UiEvent::Animation => "animation",
            UiEvent::Idle => "idle",
            UiEvent::Ble(BleState::Connected) => "ble",
            UiEvent::Usage(_) => "usage",
            _ => panic!("nothing else was waiting"),
        });
    }
    assert_eq!(
        order,
        vec![
            "key",
            "ready",
            "press",
            "release",
            "pmic",
            "rtc",
            "open",
            "close",
            "maintenance",
            "animation",
            "idle",
            "ble",
            "usage"
        ]
    );
}

#[test]
fn early_events_come_in_their_order() {
    let mut channels = early::UiChannels::<f32>::new();
    channels.animation = true;
    channels.uptime = true;
    channels.brightness = Some(40);
    channels.rtc = Some(ClockEvent::NeedsSetting);
    channels.pmic = Some(PmicEvent::Error);
    channels.touches.push(TouchState::Released);
    channels.touch_ready = Some(false);
    channels.power_key = Some(PowerKey::Long);
    let mut order = Vec::new();
    while let Some(event) = channels.next_ui_event() {
        order.push(match event {
            early::UiEvent::PowerKey(_) => 0,
            early::UiEvent::TouchReady(_) => 1,
            early::UiEvent::Touch(_) => 2,
            early::UiEvent::Pmic(_) => 3,
            early::UiEvent::Rtc(_) => 4,
            early::UiEvent::Brightness(percent) => percent - 35,
            early::UiEvent::Uptime => 6,
            early::UiEvent::Animation => 7,
        });
    }
    assert_eq!(order, vec![0, 1, 2, 3, 4, 5, 6, 7]);
}

#[test]
fn idle_deadline_is_absolute() {
    assert!(!idle_due(None, u64::MAX));
    assert!(!idle_due(Some(100), 99));
    assert!(idle_due(Some(100), 100));
}

#[test]
fn early_callbacks_are_answered() {
    let mut page = ClockPage::new(ClockEditor {
        year: 2024,
        month: 1,
        day: 31,
        hour: 0,
        minute: 0,
        second: 0,
    });
    let mut percent = 8;
    let mut answer = |page: &mut ClockPage, callback| {
        early::answer_callback(page, &mut percent, callback)
    };
    assert_eq!(
        answer(&mut page, early::Callback::BrightnessStep(-5)),
        early::Request::Brightness(5)
    );
    assert_eq!(
        answer(&mut page, early::Callback::PowerOff),
        early::Request::PowerOff
    );
    assert_eq!(
        answer(&mut page, early::Callback::Reboot),
        early::Request::Reboot
    );
    assert_eq!(
        answer(&mut page, early::Callback::RtcStep { field: 1, delta: 1 }),
        early::Request::Nothing
    );
    match answer(&mut page, early::Callback::RtcSave) {
        early::Request::SetClock(datetime) => {
            assert_eq!((datetime.month, datetime.day), (2, 29))
        }
        _ => panic!("the date exists"),
    }
    assert_eq!(percent, 5);
}

#[test]
fn power_key_switches_the_panel() {
    let mut screen = Screen::new();
    assert_eq!(screen.power_key(PowerKey::Long), ScreenAction::Redraw);
    assert!(screen.show_power_menu);
    assert_eq!(screen.power_key(PowerKey::Short), ScreenAction::Sleep);
    assert!(!screen.show_power_menu);
    screen.slept(false);
    assert!(screen.display_on);
    screen.slept(true);
    assert!(!screen.display_on);
    assert_eq!(screen.power_key(PowerKey::Short), ScreenAction::Wake);
    assert!(!screen.woke(false, false));
    assert!(!screen.display_on);
    assert_eq!(screen.power_key(PowerKey::Long), ScreenAction::WakeForMenu);
    assert!(screen.woke(true, true));
    assert!(screen.display_on && screen.show_power_menu);
    screen.brightness_set(30, false);
    assert_eq!(screen.brightness_percent, 80);
    screen.brightness_set(30, true);
    assert_eq!(screen.brightness_percent, 30);
}

#[test]
fn waking_survives_only_a_dark_panel() {
    let ops = screen::wake_display(100);
    assert_eq!(ops.len(), 10);
    assert_eq!(ops[3], BusOp::DelayMs(120));
    assert!(screen::display_woken(None));
    assert!(!screen::display_woken(Some(1)));
    assert!(!screen::display_woken(Some(5)));
    assert!(screen::display_woken(Some(8)));
}

#[test]
fn pages_say_what_was_read() {
    assert_eq!(screen::touch_status(true), "CST9220 ready");
    assert_eq!(screen::touch_status(false), "touch error");
    assert_eq!(screen::touch_position(12, 479), "touch 12,479");
    let page = screen::power_page(&stats());
    assert_eq!(page.battery_level, "87%");
    assert_eq!(page.battery_voltage, "4012 mV");
    assert_eq!(page.vbus_voltage, "disconnected");
    assert_eq!(page.vsys_voltage, "4010 mV");
    assert_eq!(page.power_source, "Battery");
    let none = pmic::read_stats(false, false, None, None, 0, 0.0, None, false);
    let page = screen::power_page(&none);
    assert_eq!(page.battery_level, "--");
    assert_eq!(page.battery_voltage, "not detected");
    assert_eq!(page.power_source, "No battery");
    let powered = pmic::read_stats(true, true, Some(1), Some(5010), 0, 0.0, Some(100), false);
    let page = screen::power_page(&powered);
    assert_eq!(page.vbus_voltage, "5010 mV");
    assert_eq!(page.power_source, "USB power");
    let charging = pmic::read_stats(true, true, Some(1), Some(1), 0, 0.0, Some(0), true);
    assert_eq!(screen::power_page(&charging).power_source, "USB · charging");
    assert_eq!(screen::power_page(&charging).battery_level, "0%");
    assert_eq!(
        screen::pmic_status(&PmicEvent::Online(charging)),
        "AXP2101 online"
    );
    assert_eq!(
        screen::pmic_status(&PmicEvent::<f32>::Error),
        "telemetry error"
    );
}

#[test]
fn uptime_is_shown_once_a_second() {
    let mut displayed = u64::MAX;
    assert_eq!(
        screen::uptime(&mut displayed, 0),
        Some(String::from("0 s"))
    );
    assert_eq!(screen::uptime(&mut displayed, 0), None);
    assert_eq!(
        screen::uptime(&mut displayed, 3600),
        Some(String::from("3600 s"))
    );
}

#[test]
fn resets_are_counted_down() {
    assert_eq!(screen::format_reset(0), "--");
    assert_eq!(screen::format_reset(5), "0h 05m");
    assert_eq!(screen::format_reset(125), "2h 05m");
    assert_eq!(screen::format_reset(u16::MAX), "1092h 15m");
    assert_eq!(screen::usage_status(UsageStatus::Allowed), "allowed");
    assert_eq!(screen::usage_status(UsageStatus::Limited), "limited");
    assert_eq!(screen::usage_status(UsageStatus::Unknown), "unknown");
}

#[test]
fn readiness_is_announced_once() {
    let mut readiness = Readiness::new();
    readiness.touch = true;
    readiness.pmic = true;
    readiness.rtc = true;
    readiness.frame_rendered();
    assert!(!readiness.announce());
    readiness.frame_rendered();
    assert!(readiness.announce());
    assert!(!readiness.announce());
}

#[test]
fn frame_cost_counts_pixels() {
    let rectangle = Rectangle {
        x: 0,
        y: 0,
        width: 480,
        height: 8,
    };
    assert_eq!(
        screen::region_cost(&[rectangle, rectangle]),
        (2 * 480 * 8, 2)
    );
    assert_eq!(screen::region_cost(&[]), (0, 0));
    assert_eq!(screen::next_sprite(0, 3), 1);
    assert_eq!(screen::next_sprite(2, 3), 0);
}

#[test]
fn settings_page_shows_settings() {
    let settings = DisplaySettings {
        brightness_percent: 75,
        auto_dim: true,
        dim_on_usb: false,
        idle_timeout_seconds: 600,
        dim_brightness_percent: 15,
    };
    let page = update_settings(settings);
    assert_eq!(page.brightness_percent, 75);
    assert_eq!(page.idle_timeout_seconds, 600);
    assert_eq!(page.dim_brightness_percent, 15);
    assert!(page.auto_dim_enabled && !page.dim_on_usb);
}

#[test]
fn callbacks_become_actions() {
    assert_eq!(callback_action(Callback::OpenSettings), SettingsAction::Open);
    assert_eq!(
        callback_action(Callback::CloseSettings),
        SettingsAction::Close
    );
    assert_eq!(
        callback_action(Callback::BrightnessStep(-1)),
        SettingsAction::BrightnessStep(-1)
    );
    assert_eq!(
        callback_action(Callback::IdleTimeoutStep(1)),
        SettingsAction::IdleTimeoutStep(1)
    );
    for direction in [i32::MIN, -129, -128, 127, 128, 200, 255, 256, i32::MAX] {
        assert_eq!(
            callback_action(Callback::DimBrightnessStep(direction)),
            SettingsAction::DimBrightnessStep(direction as i8)
        );
    }
    assert_eq!(
        callback_action(Callback::AutoDimToggle),
        SettingsAction::ToggleAutoDim
    );
    assert_eq!(
        callback_action(Callback::DimOnUsbToggle),
        SettingsAction::ToggleDimOnUsb
    );
    assert_eq!(callback_action(Callback::PowerOff), SettingsAction::PowerOff);
    assert_eq!(callback_action(Callback::Reboot), SettingsAction::Reboot);
}

fn animation(name: &'static str, holds: &[u16]) -> &'static Animation {
    let mut frames = Vec::new();
    for hold_ms in holds {
        frames.push(Frame {
            cells: [0; 400],
            hold_ms: *hold_ms,
        });
    }
    Box::leak(Box::new(Animation {
        name,
        palette: [[0; 3]; 10],
        frames: frames.leak(),
    }))
}

#[test]
fn animations_loop() {
    let mut player = Player::new(animation("walk", &[10, 20, 30]));
    assert_eq!(player.animation().name, "walk");
    let mut holds = Vec::new();
    for _ in 0..4 {
        holds.push(player.hold());
        player.advance();
    }
    assert_eq!(holds, vec![10, 20, 30, 10]);
    assert_eq!(player.frame().hold_ms, 20);
    player.set_animation(animation("rest", &[500]));
    assert_eq!(player.hold(), 500);
    player.advance();
    assert_eq!(player.hold(), 500);
}

#[test]
fn frames_are_reported_and_summed_up() {
    let mut stats = FrameStats::default();
    let frame = FrameTiming {
        pipeline_us: 100,
        finish_us: 10,
        pixels: 1000,
        rects: 1,
        transfers: 2,
    };
    for frame_number in 1..=8 {
        assert_eq!(
            stats.record(frame_number, frame),
            FrameReport::Detailed {
                frame_number,
                frame
            }
        );
    }
    for frame_number in 9..24 {
        assert_eq!(stats.record(frame_number, frame), FrameReport::Quiet);
    }
    let slow = FrameTiming {
        pipeline_us: 420,
        finish_us: 42,
        ..frame
    };
    assert_eq!(
        stats.record(24, slow),
        FrameReport::Summary {
            frames: 16,
            average_pipeline_us: 120,
            worst_pipeline_us: 420,
            average_finish_us: 12,
            worst_finish_us: 42,
            pixels: 16_000,
            transfers: 32,
        }
    );
    assert_eq!(
        stats.record(25, FrameTiming::default()),
        FrameReport::Quiet
    );
}

#[test]
fn notifications_carry_frames_that_fit() {
    let bytes: Vec<u8> = (0..NUS_MAX_PAYLOAD).map(|i| i as u8).collect();
    assert_eq!(notification(&bytes).as_slice(), bytes.as_slice());
    assert_eq!(notification(&[1, 2, 3]).as_slice(), &[1, 2, 3]);
    let long = vec![7; NUS_MAX_PAYLOAD + 1];
    assert!(notification(&long).is_empty());
}

#[test]
fn connections_pump_frames_until_the_host_goes() {
    let mut connection = Connection::new(9);
    assert_eq!(connection.state, LinkState::Active { net_id: 0 });
    assert_eq!(
        connection.react(LinkEvent::Request { written: Some(9) }),
        LinkAction::Accept { is_frame: true }
    );
    assert_eq!(
        connection.react(LinkEvent::Request { written: Some(8) }),
        LinkAction::Accept { is_frame: false }
    );
    assert_eq!(
        connection.react(LinkEvent::Request { written: None }),
        LinkAction::Accept { is_frame: false }
    );
    assert_eq!(connection.react(LinkEvent::Other), LinkAction::Listen);
    assert_eq!(connection.react(LinkEvent::FrameQueued), LinkAction::Notify);
    assert_eq!(
        connection.react(LinkEvent::Notified(true)),
        LinkAction::Listen
    );
    assert_eq!(
        connection.react(LinkEvent::Notified(false)),
        LinkAction::Close
    );
    assert_eq!(connection.state, LinkState::Inactive);
    let mut connection = Connection::new(9);
    assert_eq!(
        connection.react(LinkEvent::Disconnected),
        LinkAction::Close
    );
    assert_eq!(connection.react(LinkEvent::Other), LinkAction::Close);
}

#[test]
fn peripheral_advertises_again() {
    let (mut peripheral, state) = Peripheral::new();
    assert_eq!(state, BleState::Advertising);
    assert_eq!(
        peripheral.step(PeripheralInput::Advertised(false)),
        vec![BleState::Error, BleState::Advertising]
    );
    assert_eq!(
        peripheral.step(PeripheralInput::Advertised(true)),
        vec![BleState::Connected]
    );
    assert_eq!(peripheral.phase, PeripheralPhase::Serving);
    assert_eq!(
        peripheral.step(PeripheralInput::Served),
        vec![BleState::Advertising]
    );
    assert_eq!(peripheral.step(PeripheralInput::Served), vec![]);
}

#[test]
fn store_opens_the_partition() {
    let mut opening = Opening::new();
    assert_eq!(opening.doing, OpenAction::ReadTable);
    assert_eq!(
        opening.step(OpenInput::TableRead(true)),
        OpenAction::SearchPartition
    );
    assert_eq!(
        opening.step(OpenInput::PartitionSearched(Ok(Some((0x9000, 0x6000))))),
        OpenAction::ReadMagic { offset: 0x9000 }
    );
    assert_eq!(
        opening.step(OpenInput::MagicRead(Some((b'C', b'L', b'D', b'S')))),
        OpenAction::Erase {
            start: 0x9000,
            end: 0xf000
        }
    );
    assert_eq!(
        opening.step(OpenInput::Erased(true)),
        OpenAction::Configure {
            start: 0x9000,
            end: 0xf000
        }
    );
    assert_eq!(opening.step(OpenInput::Configured(true)), OpenAction::Load);
    let settings = Some(DisplaySettings::default());
    let mut loaded = opening;
    assert_eq!(
        loaded.step(OpenInput::Loaded(Ok(settings))),
        OpenAction::Ready(settings)
    );
    assert_eq!(
        opening.step(OpenInput::Loaded(Err(()))),
        OpenAction::EraseAll
    );
    let mut refused = opening;
    assert_eq!(
        opening.step(OpenInput::Reset(true)),
        OpenAction::Ready(None)
    );
    assert_eq!(
        refused.step(OpenInput::Reset(false)),
        OpenAction::Fail(StoreError::Storage)
    );
}

#[test]
fn store_reports_what_is_wrong() {
    let fail = |inputs: &[OpenInput]| {
        let mut opening = Opening::new();
        let mut action = opening.doing;
        for input in inputs {
            action = opening.step(*input);
        }
        action
    };
    let table = OpenInput::TableRead(true);
    let found = OpenInput::PartitionSearched(Ok(Some((0, 16))));
    let other = OpenInput::MagicRead(Some((1, 2, 3, 4)));
    assert_eq!(
        fail(&[OpenInput::TableRead(false)]),
        OpenAction::Fail(StoreError::PartitionTable)
    );
    assert_eq!(
        fail(&[table, OpenInput::PartitionSearched(Err(()))]),
        OpenAction::Fail(StoreError::PartitionTable)
    );
    assert_eq!(
        fail(&[table, OpenInput::PartitionSearched(Ok(None))]),
        OpenAction::Fail(StoreError::MissingPartition)
    );
    assert_eq!(
        fail(&[table, found, OpenInput::MagicRead(None)]),
        OpenAction::Fail(StoreError::Storage)
    );
    assert_eq!(
        fail(&[table, found, other, OpenInput::Configured(false)]),
        OpenAction::Fail(StoreError::PartitionTooSmall)
    );
    let legacy = OpenInput::MagicRead(Some((0x43, 0x4c, 0x44, 0x53)));
    assert_eq!(
        fail(&[table, found, legacy, OpenInput::Erased(false)]),
        OpenAction::Fail(StoreError::Storage)
    );
}

#[test]
fn store_saves_what_changed() {
    let settings = DisplaySettings::default();
    let mut store = SettingsStore::new(None);
    assert!(store.save_needed(settings));
    assert_eq!(
        store.save(settings, false, Err(())),
        Err(StoreError::Storage)
    );
    assert_eq!(
        store.save(settings, true, Err(())),
        Err(StoreError::Storage)
    );
    assert_eq!(
        store.save(settings, true, Ok(None)),
        Err(StoreError::Verification)
    );
    let mut other = settings;
    other.brightness_step(-1);
    assert_eq!(
        store.save(settings, true, Ok(Some(other))),
        Err(StoreError::Verification)
    );
    let value = encode_settings(settings);
    let loaded = loaded_settings(Some(value));
    assert_eq!(loaded, Some(settings));
    assert_eq!(store.save(settings, true, Ok(loaded)), Ok(true));
    assert!(!store.save_needed(settings));
    assert_eq!(store.save(settings, true, Ok(None)), Ok(false));
    assert!(store.save_needed(other));
    let mut damaged = value;
    damaged[6] ^= 0x10;
    assert_eq!(loaded_settings(Some(damaged)), None);
    assert_eq!(loaded_settings(None), None);
}

#[test]
fn sleeping_panels_take_no_touches() {
    let press = TouchState::Pressed { x: 1, y: 2 };
    let mut screen = Screen::new();
    let mut waiting = vec![TouchState::Released, press];
    assert!(screen.takes_touch());
    let batch = screen.touch_batch(press, &mut waiting);
    assert_eq!(batch, vec![press, TouchState::Released, press]);
    assert!(waiting.is_empty());

    screen.slept(true);
    let mut waiting = vec![TouchState::Released];
    assert!(!screen.takes_touch());
    assert!(screen.touch_batch(press, &mut waiting).is_empty());
    assert_eq!(waiting, vec![TouchState::Released]);
}

#[test]
fn sprites_move_only_while_shown() {
    let mut screen = Screen::new();
    assert_eq!(screen.sprite_deadline(screen::SPRITE_PAGE, 40), Some(40));
    assert_eq!(screen.sprite_deadline(3, 40), None);
    screen.slept(true);
    assert_eq!(screen.sprite_deadline(screen::SPRITE_PAGE, 40), None);
}

#[test]
fn failed_uploads_are_drawn_again() {
    let failed: Result<u32, UploadError<()>> = Err(UploadError::InvalidRegion);
    assert!(screen::redraw_after(&failed));
    let failed: Result<u32, UploadError<()>> = Err(UploadError::Spi(()));
    assert!(screen::redraw_after(&failed));
    let sent: Result<u32, UploadError<()>> = Ok(3);
    assert!(!screen::redraw_after(&sent));
}

#[test]
fn stored_settings_fit_the_buffer() {
    let settings = DisplaySettings::default();
    let value = encode_settings(settings);
    assert_eq!(value[..10], [b'C', b'L', b'D', b'S', 1, 1, 80, 12, 120, 0]);
    assert_eq!(value[10..16], [0xff, 0xff, 0, 0, 0, 0]);
    assert_eq!(DATA_BUFFER_SIZE, 32);
    assert!(1 + SETTINGS_VALUE_SIZE <= DATA_BUFFER_SIZE);
    for position in 0..SETTINGS_VALUE_SIZE {
        let mut damaged = value;
        damaged[position] ^= 0x20;
        assert_eq!(loaded_settings(Some(damaged)), None);
    }
}

#[test]
fn peripherals_need_their_service() {
    let (started, state) = Peripheral::start(false);
    assert_eq!((started, state), (None, BleState::Error));
    let (started, state) = Peripheral::start(true);
    assert_eq!(state, BleState::Advertising);
    assert_eq!(
        started.map(|peripheral| peripheral.phase),
        Some(PeripheralPhase::Advertising)
    );
}
