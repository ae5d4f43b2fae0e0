use vstd::prelude::*;
use crate::types::{Address, CpuId};

verus! {

/// The start-up state of a CPU.
#[derive(Clone, Copy, Debug, PartialEq, Eq, Structural)]
pub enum State {
    Off,
    Initializing,
    Initialized,
}

impl Default for State {
    fn default() -> (r: State)
        ensures
            r == State::Off,
    {
        State::Off
    }
}

/// The state kept at the bottom of each CPU's region.
pub struct CpuState {
    pub apic_id: u8,
    pub state: State,
    /// Address of the configuration from the boot loader.
    pub config: Address,
}

impl Default for CpuState {
    fn default() -> (r: CpuState)
        ensures
            r.apic_id == 0,
            r.state == State::Off,
            r.config == 0,
    {
        CpuState { apic_id: 0, state: State::Off, config: 0 }
    }
}

impl CpuState {
    pub fn get_cpu_id(&self) -> (r: CpuId)
        ensures
            r == self.apic_id,
    {
        self.apic_id as CpuId
    }
}

} // verus!
