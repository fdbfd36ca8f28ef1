//! A plain error value carrying a human-readable description.

use vstd::prelude::*;

verus! {

/// An error described by free text, viewed as the text it carries.
#[derive(Debug)]
pub struct WaitPidError {
    text: String,
}

impl View for WaitPidError {
    type V = Seq<char>;

    closed spec fn view(&self) -> Seq<char> {
        self.text@
    }
}

impl WaitPidError {
    /// Wrap a description into an error value.
    pub fn new(description: String) -> (r: WaitPidError)
        ensures
            r@ == description@,
    {
        WaitPidError { text: description }
    }

    /// Wrap a fixed description into an error value.
    pub fn from(description: &'static str) -> (r: WaitPidError)
        ensures
            r@ == description@,
    {
        WaitPidError::new(description.to_owned())
    }

    /// The description this error carries.
    pub fn message(&self) -> (r: &String)
        ensures
            r@ == self@,
    {
        &self.text
    }
}

} // verus!
