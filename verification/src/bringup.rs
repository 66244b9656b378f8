//! The board bring-up application: a full framebuffer, a clock that is set by
//! hand and readings of everything on the board.

pub mod clock;
pub mod co5300;
pub mod events;
pub mod rtc;
pub mod screen;
