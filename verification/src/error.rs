//! The service-wide error type.
use vstd::prelude::*;

verus! {

/// A configuration or otherwise unclassified failure.
#[derive(Debug)]
pub enum GlobalError {
    /// A configuration entry holds a value the service cannot use.
    InvalidConfig { path: String, value: String },
    /// Anything else.
    Unknown,
}

} // verus!
