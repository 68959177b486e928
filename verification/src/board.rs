//! The board-side logic of the audio board that does not touch the hardware:
//! claiming each peripheral once, decoding the mode switch, counting timer
//! ticks, and composing register fields.

pub mod registers;
pub mod switch;
pub mod timer;
pub mod uart;
