//! The error taxonomy of the driver stack.

use vstd::prelude::*;

verus! {

/// Errors surfaced by the driver.
///
/// A poll that exceeds its deadline yields `Timeout`; it is fatal to the
/// current transaction and never retried internally. Registering an already
/// registered object graph yields `AlreadyRegistered`. Teardown in progress
/// is not an error: a commit that finds the device gone is silently skipped.
#[derive(Clone, Copy, Debug, PartialEq, Eq, Structural)]
pub enum DriverError {
    /// A status-bit poll ran past its deadline.
    Timeout,
    /// A second registration was attempted on the same object graph.
    AlreadyRegistered,
}

impl DriverError {
    /// A short description of the error.
    pub fn describe(&self) -> (s: &'static str)
        ensures
            self is Timeout ==> s@ == "status poll timed out"@,
            self is AlreadyRegistered ==> s@ == "already registered"@,
    {
        match self {
            DriverError::Timeout => "status poll timed out",
            DriverError::AlreadyRegistered => "already registered",
        }
    }
}

} // verus!
