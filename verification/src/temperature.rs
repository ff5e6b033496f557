//! Temperatures, carried through without being computed with.
use vstd::prelude::*;

verus! {

#[derive(Clone, Copy, Debug, PartialEq, Eq, Structural)]
pub enum TemperatureScale {
    Celsius,
    Fahrenheit,
}

/// A temperature: the bits of its IEEE 754 double, and its scale.
#[derive(Clone, Copy, Debug, PartialEq, Eq, Structural)]
pub struct TemperatureValue {
    pub bits: u64,
    pub scale: TemperatureScale,
}

} // verus!
