//! Hardware-independent logic of a nixie-tube audio meter: the serial packet
//! protocol spoken between the audio board and the chain of tube boards, the
//! ring buffer that queues outgoing bytes, and the state machines that drive
//! the tubes and the audio board.

pub mod audio_hw;
pub mod board;
pub mod control;
pub mod protocol;
pub mod shared;
pub mod tube_hw;
