//! The interrupt vector layout: hardware IRQ lines are remapped above
//! the CPU-reserved exception vectors, with the timer first, the
//! keyboard next, and the mouse on the secondary controller's fourth
//! line. Programming the controllers themselves is port I/O and lives
//! outside the crate; these are the numbers every handler and mask
//! computation relies on.

use vstd::prelude::*;

verus! {

/// First vector of the primary interrupt controller, right above the 32
/// CPU-reserved exception vectors.
pub const PIC_1_OFFSET: u8 = 32;

/// First vector of the secondary (chained) interrupt controller.
pub const PIC_2_OFFSET: u8 = PIC_1_OFFSET + 8;

/// The hardware interrupt lines this core services.
#[derive(Debug, Clone, Copy)]
pub enum InterruptIndex {
    Timer,
    Keyboard,
    Mouse,
}

/// The remapped vector number of each serviced line.
pub open spec fn vector_of(i: InterruptIndex) -> u8 {
    match i {
        InterruptIndex::Timer => PIC_1_OFFSET,
        InterruptIndex::Keyboard => (PIC_1_OFFSET + 1) as u8,
        InterruptIndex::Mouse => (PIC_2_OFFSET + 4) as u8,
    }
}

impl InterruptIndex {
    /// The vector number as a byte, for the acknowledgment primitive.
    pub fn as_u8(self) -> (r: u8)
        ensures
            r == vector_of(self),
    {
        match self {
            InterruptIndex::Timer => PIC_1_OFFSET,
            InterruptIndex::Keyboard => PIC_1_OFFSET + 1,
            InterruptIndex::Mouse => PIC_2_OFFSET + 4,
        }
    }

    /// The vector number as an index into the trap table.
    pub fn as_usize(self) -> (r: usize)
        ensures
            r == vector_of(self),
    {
        self.as_u8() as usize
    }
}

} // verus!
