//! The error that a frontend reports.

use vstd::prelude::*;

verus! {

/// Something went wrong in a frontend; `err` says what.
#[derive(Debug)]
pub struct CustomRustixFrontendError {
    pub err: String,
}

impl CustomRustixFrontendError {
    /// The text that describes every such error.
    pub fn description(&self) -> (text: &'static str)
        ensures
            text@ == "Something bad happened"@,
    {
        "Something bad happened"
    }

    /// The text that is shown for every such error.
    pub fn message(&self) -> (text: String)
        ensures
            text@ == "Oh no, something bad went down"@,
    {
        "Oh no, something bad went down".to_owned()
    }
}

} // verus!
