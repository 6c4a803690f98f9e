//! Control of a four-channel DC-motor shield and a hobby servo through GPIO.
//!
//! Motor directions are encoded into one byte that is pushed, most significant
//! bit first, into the shield's serial-in/parallel-out shift register; speeds
//! and servo positions are driven as pulse-width-modulated signals.
pub mod gpio;
pub mod line;
pub mod motor;
pub mod board;
pub mod servo;
