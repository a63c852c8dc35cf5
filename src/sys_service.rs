use vstd::prelude::*;

verus! {

/// The program the supervisor runs as an operating-system service.
pub trait SysServiceProgram {
    fn start(&self) -> Result<(), String>;

    fn stop(&self) -> Result<(), String>;
}

/// The systemd-style service backend.
#[derive(Debug)]
pub struct LinuxSysService {}

impl LinuxSysService {
    pub fn new() -> (r: Self) {
        LinuxSysService {  }
    }
}

/// The Windows service-control-manager backend.
#[derive(Debug)]
pub struct WindowsSysService {}

impl WindowsSysService {
    pub fn new() -> (r: Self) {
        WindowsSysService {  }
    }
}

} // verus!
