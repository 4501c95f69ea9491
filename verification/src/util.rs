use vstd::prelude::*;
use crate::bus::{DelayHook, NssPin};

verus! {

/// Type to represent *no software controlled chip select*: the hardware is
/// expected to drive the line itself, so both edges are no-ops.
pub struct DummyNSS;

/// Type to represent *no delay function*.
pub struct DummyDelay;

impl NssPin for DummyNSS {
    fn set_low(&mut self) {
    }

    fn set_high(&mut self) {
    }
}

impl DelayHook for DummyDelay {
    fn pause(&mut self) {
    }
}

/// A trait that can be implemented to limit implementations to this crate:
/// it is not reachable from outside, so neither is the driver's state
/// marker trait that requires it.
pub trait Sealed {

}

} // verus!
