//! The states a CPU can be reported in.

use vstd::prelude::*;

verus! {

/// The various states we report in the state map.
#[derive(Debug, Clone, Copy, PartialEq, Eq, Structural)]
pub enum CpuState {
    Idle,
    Irq,
    Softirq,
    Tasklet,
    Kernel,
    User,
}

impl CpuState {
    /// The number under which the state appears in the output.
    pub open spec fn spec_value(self) -> u8 {
        match self {
            CpuState::Idle => 0,
            CpuState::Irq => 1,
            CpuState::Softirq => 2,
            CpuState::Tasklet => 3,
            CpuState::Kernel => 4,
            CpuState::User => 5,
        }
    }

    /// The number under which the state appears in the output.
    pub fn value(self) -> (v: u8)
        ensures
            v == self.spec_value(),
            v <= 5,
    {
        match self {
            CpuState::Idle => 0,
            CpuState::Irq => 1,
            CpuState::Softirq => 2,
            CpuState::Tasklet => 3,
            CpuState::Kernel => 4,
            CpuState::User => 5,
        }
    }
}

impl Default for CpuState {
    fn default() -> (s: CpuState)
        ensures
            s == CpuState::Idle,
    {
        CpuState::Idle
    }
}

} // verus!
