//! Errors that several modules share.

use vstd::prelude::*;
use vstd::string::StringExecFns;

verus! {

/// The error of text or bytes that do not have the form asked for.
#[derive(Clone, Copy)]
pub struct InvalidFormatError;

impl InvalidFormatError {
    /// The message that describes this error.
    pub fn to_string(&self) -> (r: String)
        ensures
            r@ == "InvalidFormatError"@,
    {
        "InvalidFormatError".to_owned()
    }
}

/// The error of an argument that cannot be used, with the reason.
#[derive(Clone, Copy)]
pub struct InvalidParameterError(pub &'static str);

impl InvalidParameterError {
    /// The message that describes this error: the name of the error, a colon
    /// and a space, and the reason.
    pub fn to_string(&self) -> (r: String)
        ensures
            r@ == "InvalidParameterError: "@ + self.0@,
    {
        let head: String = "InvalidParameterError: ".to_owned();
        head.concat(self.0)
    }
}

} // verus!
