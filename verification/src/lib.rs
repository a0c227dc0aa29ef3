//! A text console driver core for a fixed-size memory-mapped character
//! display: a 25x80 grid of cells, each a glyph byte plus a packed
//! foreground/background color attribute, written through a cursor that
//! always sits on the bottom row and scrolls the grid on line overflow.

pub mod laws;
pub mod vga_buffer;
