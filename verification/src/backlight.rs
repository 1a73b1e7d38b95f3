//! How bright the glass is.
//!
//! The glass is dimmed in time: the pin is switched quickly, and the brightness is the share of
//! each period it is on. Brightness is seen roughly logarithmically, so the share goes with the
//! square of the step a user picks: the dimmest of the ten steps is on 1 % of the time, the
//! middle one 25 %.

use vstd::prelude::*;

verus! {

/// The count that means on for the whole period.
pub const FULL: u32 = 1024;

/// The brightest step.
pub const MAX_STEP: u8 = 10;

/// A step of brightness, from 1 to 10.
#[derive(Clone, Copy, Debug, PartialEq, Eq, Structural)]
pub struct Brightness {
    pub step: u8,
}

impl Brightness {
    pub open spec fn wf(self) -> bool {
        1 <= self.step <= 10
    }
}

/// How long of each period the pin is on.
pub open spec fn duty_spec(step: int) -> int {
    1024 * (step * step) / 100
}

pub fn duty(level: Brightness) -> (r: u32)
    requires
        level.step <= MAX_STEP,
    ensures
        r == duty_spec(level.step as int),
        r <= FULL,
{
    let step: u32 = level.step as u32;
    let top: u32 = MAX_STEP as u32;
    assert(0 <= step * step <= 100) by (nonlinear_arith)
        requires
            0 <= step <= 10,
    ;
    FULL * (step * step) / (top * top)
}

/// Every step is brighter than the one below it, the brightest is on all the time, the dimmest
/// for one part in a hundred and the middle one for a quarter.
pub proof fn steps_brighten(step: int)
    requires
        0 <= step < 10,
    ensures
        duty_spec(step) < duty_spec(step + 1),
        duty_spec(10) == 1024,
        duty_spec(0) == 0,
        duty_spec(1) == 1024int / 100,
        duty_spec(5) == 1024int / 4,
{
    assert(step * step + 1 <= (step + 1) * (step + 1)) by (nonlinear_arith)
        requires
            step >= 0,
    ;
}

/// The share of a period is the square of the share of the steps, cut to a whole count.
#[verifier::spinoff_prover]
pub proof fn brightness_goes_by_the_square(step: int)
    requires
        0 <= step <= 10,
    ensures
        100 * duty_spec(step) <= 1024 * (step * step),
        1024 * (step * step) < 100 * duty_spec(step) + 100,
{
}

} // verus!
