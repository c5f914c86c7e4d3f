//! Text-mode display driver: an 80x25 grid of character cells written
//! through volatile accesses, with a line writer that sanitizes input,
//! wraps at the end of a line and scrolls the grid up.

pub mod buffer;
pub mod color;
pub mod writer;


pub use buffer::{Buffer, ScreenChar, BUFFER_HEIGHT, BUFFER_WIDTH};
pub use color::{Color, ColorCode};
pub use writer::Writer;

