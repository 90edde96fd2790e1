//! The codes by which the machine tells the virtualizer how it ended.

use vstd::prelude::*;

verus! {

/// The I/O port on which the virtualizer takes the exit code.
pub const EXIT_PORT: u16 = 0xf4;

/// How the machine ended.
#[derive(Debug, Clone, Copy, PartialEq, Eq, Structural)]
pub enum ExitCode {
    /// The run succeeded.
    Success,
    /// The run failed.
    Failed,
}

impl ExitCode {
    /// The number written to the exit port.
    pub open spec fn spec_raw(self) -> u32 {
        match self {
            ExitCode::Success => 0x10,
            ExitCode::Failed => 0x11,
        }
    }

    /// The number written to the exit port.
    pub fn raw(self) -> (r: u32)
        ensures
            r == self.spec_raw(),
    {
        match self {
            ExitCode::Success => 0x10,
            ExitCode::Failed => 0x11,
        }
    }
}

} // verus!
