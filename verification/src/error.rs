use vstd::prelude::*;

verus! {

/// Errors returned by the pattern model and its binary codec.
#[derive(Debug, Clone, Copy, PartialEq, Eq, Structural)]
pub enum DrumGenError {
    /// A step index outside `0..=31` was given to an addressable operation.
    IndexOutOfRange,
    /// A decode was given fewer bytes than the fixed layout requires.
    InsufficientData,
    /// `repeat` was asked to tile a window of zero steps.
    InvalidRepeatWindow,
}

impl DrumGenError {
    /// A short human-readable description of the error.
    pub fn describe(&self) -> (r: &'static str)
        ensures
            r@ == match *self {
                DrumGenError::IndexOutOfRange => "step index out of range"@,
                DrumGenError::InsufficientData => "not enough bytes to decode"@,
                DrumGenError::InvalidRepeatWindow => "repeat window must not be empty"@,
            },
    {
        match *self {
            DrumGenError::IndexOutOfRange => "step index out of range",
            DrumGenError::InsufficientData => "not enough bytes to decode",
            DrumGenError::InvalidRepeatWindow => "repeat window must not be empty",
        }
    }
}

} // verus!
