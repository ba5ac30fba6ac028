use vstd::prelude::*;

verus! {

/// An error carrying a human-readable message.
#[derive(Debug)]
pub struct CustomError {
    pub message: String,
}

impl CustomError {
    /// Builds an error whose message is `message`.
    pub fn new(message: &str) -> (r: CustomError)
        ensures
            r.message@ == message@,
    {
        CustomError { message: message.to_owned() }
    }

    /// The message of this error.
    pub fn description(&self) -> (r: &str)
        ensures
            r@ == self.message@,
    {
        self.message.as_str()
    }
}

} // verus!
