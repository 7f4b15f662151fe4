//! A message-carrying error type for setup failures.

use vstd::prelude::*;

verus! {

/// An error consisting of just a message.
///
/// The engine raises it for configuration mistakes found at setup time,
/// such as a cyclic dependency between declared system resources.
#[derive(Debug)]
pub struct CustomError(pub String);

impl CustomError {
    /// Wrap a message.
    pub fn new(message: String) -> (r: CustomError)
        ensures
            r.0 == message,
    {
        CustomError(message)
    }

    /// The message carried by this error.
    pub fn message(&self) -> (r: &String)
        ensures
            r == &self.0,
    {
        &self.0
    }
}

} // verus!
