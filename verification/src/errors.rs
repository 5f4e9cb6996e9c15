//! The error taxonomy of the animation core.

use vstd::prelude::*;

verus! {

/// Errors surfaced by construction-time validation and by the defensive
/// checks at evaluation boundaries.
#[derive(Clone, Copy, PartialEq, Eq, Structural, Debug)]
pub enum AnimError {
    /// A joint's parent index does not precede the joint, or a joint's
    /// bind pose lies outside the component ranges.
    MalformedSkeleton,
    /// A clip duration that is not positive, or beyond the time range.
    InvalidDuration,
    /// A parameter name absent from the parameter set.
    UnknownParameter,
    /// A joint, keyframe or buffer index that does not fit the data it
    /// addresses.
    IndexError,
}

impl AnimError {
    /// A short display name for callers that report errors.
    pub fn name(&self) -> (r: &'static str)
        ensures
            match self {
                AnimError::MalformedSkeleton => r@ == "malformed skeleton"@,
                AnimError::InvalidDuration => r@ == "invalid duration"@,
                AnimError::UnknownParameter => r@ == "unknown parameter"@,
                AnimError::IndexError => r@ == "index error"@,
            },
    {
        match self {
            AnimError::MalformedSkeleton => "malformed skeleton",
            AnimError::InvalidDuration => "invalid duration",
            AnimError::UnknownParameter => "unknown parameter",
            AnimError::IndexError => "index error",
        }
    }
}

} // verus!
