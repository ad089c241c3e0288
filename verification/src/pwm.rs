//! Enable line of the heater driver: it is switched only when the wanted
//! state changes, so that the pin is not rewritten at every PWM update.
use vstd::prelude::*;

verus! {

/// Last state written to the driver's enable line.
#[derive(Clone, Copy, Debug)]
pub struct EnableLine {
    /// The driver is enabled.
    pub enabled: bool,
}

impl EnableLine {
    /// The line starts disabled.
    pub fn new() -> (r: Self)
        ensures
            !r.enabled,
    {
        EnableLine { enabled: false }
    }

    /// Records the wanted state; returns the level to write to the pin when
    /// it differs from the last one written, and `None` when the pin is
    /// already right.
    pub fn update(&mut self, enable: bool) -> (r: Option<bool>)
        ensures
            final(self).enabled == enable,
            r == (if enable != old(self).enabled { Some(enable) } else { None }),
    {
        if enable != self.enabled {
            self.enabled = enable;
            Some(enable)
        } else {
            None
        }
    }
}

} // verus!
