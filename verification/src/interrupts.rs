//! Interrupt numbers of the chained programmable interrupt controllers.
use vstd::prelude::*;

verus! {

/// The first interrupt vector of the primary controller.
pub const PIC_1_OFFSET: u8 = 32;

/// The first interrupt vector of the secondary controller.
pub const PIC_2_OFFSET: u8 = PIC_1_OFFSET + 8;

/// The port that the keyboard controller's scancodes are read from.
pub const KEYBOARD_DATA_PORT: u16 = 0x60;

/// The hardware interrupts that the kernel handles.
#[derive(Debug, Clone, Copy, PartialEq, Eq, Structural)]
pub enum InterruptIndex {
    /// The timer, the first line of the primary controller.
    Timer,
    /// The keyboard, the line after the timer.
    Keyboard,
}

impl InterruptIndex {
    /// The interrupt vector.
    pub open spec fn vector(self) -> u8 {
        match self {
            InterruptIndex::Timer => PIC_1_OFFSET,
            InterruptIndex::Keyboard => (PIC_1_OFFSET + 1) as u8,
        }
    }

    /// The interrupt vector.
    pub fn as_u8(self) -> (r: u8)
        ensures
            r == self.vector(),
    {
        match self {
            InterruptIndex::Timer => PIC_1_OFFSET,
            InterruptIndex::Keyboard => PIC_1_OFFSET + 1,
        }
    }

    /// The interrupt vector, as an index into the descriptor table.
    pub fn as_usize(self) -> (r: usize)
        ensures
            r == self.vector(),
    {
        self.as_u8() as usize
    }
}

} // verus!
