//! Mayo OS kernel library: the verified logic of a small x86_64 kernel.
pub mod driver;
pub mod interrupts;
pub mod memory;
pub mod sub_system;
pub mod task;
pub mod utils;

use vstd::prelude::*;

verus! {

/// The codes with which the kernel leaves QEMU through its exit device.
#[derive(Debug, Clone, Copy, PartialEq, Eq, Structural)]
pub enum QemuExitCode {
    Success,
    Failed,
}

impl QemuExitCode {
    /// The value written to the exit device.
    pub open spec fn value(self) -> u32 {
        match self {
            QemuExitCode::Success => 0x10,
            QemuExitCode::Failed => 0x11,
        }
    }

    /// The value written to the exit device.
    pub fn code(self) -> (r: u32)
        ensures
            r == self.value(),
    {
        match self {
            QemuExitCode::Success => 0x10,
            QemuExitCode::Failed => 0x11,
        }
    }
}

/// The port of QEMU's exit device.
pub const QEMU_EXIT_PORT: u16 = 0xf4;

} // verus!
