//! Interrupt-driven I/O core of a small text-mode kernel: the terminal
//! engine with its bidirectional scroll history, the keyboard and mouse
//! state machines, the interrupt vector layout, the syscall dispatcher,
//! and an in-memory file tree. Hardware access (port I/O, interrupt
//! controllers, trap setup) lives outside this crate; everything here is
//! plain data and logic with proved contracts.

use vstd::prelude::*;

pub mod interrupts;
pub mod keyboard;
pub mod mouse;
pub mod ramfs;
pub mod screen;
pub mod shell;
pub mod syscall;
pub mod vga_buffer;

verus! {

/// Number of text rows on the screen.
pub const BUFFER_HEIGHT: usize = 25;

/// Number of text columns on the screen.
pub const BUFFER_WIDTH: usize = 80;

/// Number of cells in the whole grid.
pub const GRID_CELLS: usize = BUFFER_HEIGHT * BUFFER_WIDTH;

/// Capacity of each scroll-history buffer, in rows.
pub const HISTORY_LINES: usize = 100;

/// Capacity of the input echo buffer, in bytes.
pub const INPUT_BUFFER_SIZE: usize = 100;

/// The glyph substituted for any byte that is not printable ASCII.
pub const SUBSTITUTE_GLYPH: u8 = 0xfe;

} // verus!
