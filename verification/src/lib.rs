//! Claudial: the verified core of a desk instrument for subscription usage.

pub mod animation;
pub mod ble;
pub mod board;
pub mod bringup;
pub mod calendar;
pub mod clawdmeter;
pub mod co5300;
pub mod controller;
pub mod events;
pub mod frame_stats;
pub mod history;
pub mod host;
pub mod icd;
pub mod pace;
pub mod panel;
pub mod pmic;
pub mod rtc;
pub mod settings;
pub mod settings_store;
pub mod text;
pub mod touch;
pub mod ui;
