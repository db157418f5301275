//! Driver for a daisy-chained row of MAX7219 LED-matrix controllers.
//!
//! The driver keeps an 80-byte framebuffer (up to ten 8x8 panels) and turns
//! every change of it into the exact sequence of writes on the three bus
//! lines (data, load, clock) that the chips expect. The writes are queued in
//! the driver; the host plays them on its output pins in order.

pub mod bits;
pub mod laws;
pub mod matrix;
pub mod wire;

pub use bits::bit_write;
pub use matrix::{MaxMatrix, BUFFER_LEN, MAX_PANELS};
pub use wire::{shift_out, Line, PinWrite, ShiftOrder};
