//! The error value raised by the library's own checks, with its message.
//! (Interactive prompting and parsing of operator entries is I/O and lives
//! outside the library; its pure decisions are in the config module.)

use vstd::prelude::*;

verus! {

use vstd::string::*;

/// An error raised with a fixed message.
#[derive(Debug)]
pub struct RaisedError {
    msg: String,
}

impl View for RaisedError {
    type V = Seq<char>;

    closed spec fn view(&self) -> Seq<char> {
        self.msg@
    }
}

impl RaisedError {
    /// Wraps the message.
    pub fn new(msg: &str) -> (r: RaisedError)
        ensures
            r@ == msg@,
    {
        RaisedError { msg: msg.to_owned() }
    }

    /// The message, for diagnostics.
    pub fn message(&self) -> (m: &str)
        ensures
            m@ == self@,
    {
        self.msg.as_str()
    }
}

} // verus!
