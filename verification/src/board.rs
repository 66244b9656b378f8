//! Hardware constants of the board.

use vstd::prelude::*;

verus! {

pub const DISPLAY_WIDTH: u16 = 480;

pub const DISPLAY_HEIGHT: u16 = 480;

pub const DISPLAY_SPI_MHZ: u32 = 40;

} // verus!
