//! Configuration errors: everything that aborts a run before any job is
//! dispatched.

use vstd::prelude::*;
use vstd::string::StringExecFns;

verus! {

/// Why the run's configuration was rejected.
#[derive(Clone, Copy, Debug, PartialEq, Eq, Structural)]
pub enum ConfigError {
    /// A count or worker number is not an unsigned decimal literal, or
    /// does not fit the machine.
    ParseInt,
    /// A bounds coordinate is not a floating-point literal.
    ParseFloat,
    /// The bounds file has no usable line for the minimum bounds.
    MissingMinBounds,
    /// The bounds file has no usable line for the maximum bounds.
    MissingMaxBounds,
    /// The minimum and maximum bounds have different lengths.
    DimensionMismatch,
    /// The bounds dimension is neither two nor three.
    UnsupportedDimension,
}

impl ConfigError {
    /// A fixed description of the error, for diagnostics.
    pub fn message(&self) -> (m: String)
        ensures
            m@ == self.spec_message(),
    {
        match self {
            ConfigError::ParseInt => String::from_str("failed to parse int number"),
            ConfigError::ParseFloat => String::from_str("failed to parse float number"),
            ConfigError::MissingMinBounds => String::from_str("min bounds line missing"),
            ConfigError::MissingMaxBounds => String::from_str("max bounds line missing"),
            ConfigError::DimensionMismatch => String::from_str(
                "min and max bounds have different dimensions",
            ),
            ConfigError::UnsupportedDimension => String::from_str("bounds dimension is not 2 or 3"),
        }
    }

    /// The description `message` returns.
    pub open spec fn spec_message(self) -> Seq<char> {
        match self {
            ConfigError::ParseInt => "failed to parse int number"@,
            ConfigError::ParseFloat => "failed to parse float number"@,
            ConfigError::MissingMinBounds => "min bounds line missing"@,
            ConfigError::MissingMaxBounds => "max bounds line missing"@,
            ConfigError::DimensionMismatch => "min and max bounds have different dimensions"@,
            ConfigError::UnsupportedDimension => "bounds dimension is not 2 or 3"@,
        }
    }
}

} // verus!
