//! Which acceleration runtimes are installed, remembered between looks.
use vstd::prelude::*;

verus! {

/// Which acceleration runtimes are installed.
#[derive(Clone, Copy, Debug, PartialEq, Eq, Structural)]
pub struct HardwareInstallCache {
    pub openvino: bool,
}

impl Default for HardwareInstallCache {
    fn default() -> (r: HardwareInstallCache)
        ensures
            !r.openvino,
    {
        HardwareInstallCache { openvino: false }
    }
}

impl HardwareInstallCache {
    /// Remembers what is installed now.
    pub fn refresh(openvino_installed: bool) -> (r: HardwareInstallCache)
        ensures
            r.openvino == openvino_installed,
    {
        HardwareInstallCache { openvino: openvino_installed }
    }
}

} // verus!
