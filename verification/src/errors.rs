//! Errors with the line on which they were found.

use vstd::prelude::*;
use vstd::string::*;
use crate::text::{decimal, push_decimal};

verus! {

/// A kind of error that can say what it is.
pub trait ErrorMessage {
    /// The text of the error.
    spec fn message(&self) -> Seq<char>;

    /// The text of the error, for the user to read.
    fn error_msg(&self) -> (r: String)
        ensures
            r@ == self.message(),
    ;
}

/// An error and the number of the line on which it was found.
pub struct CompileError<T: ErrorMessage> {
    error_type: T,
    line: u32,
}

/// The report of an error on a line.
pub open spec fn report_text(line: u32, message: Seq<char>) -> Seq<char> {
    "parse error: line "@ + decimal(line as nat) + ": "@ + message
}

impl<T: ErrorMessage> CompileError<T> {
    /// The kind of the error.
    pub closed spec fn spec_error_type(&self) -> T {
        self.error_type
    }

    /// The line of the error.
    pub closed spec fn spec_line(&self) -> u32 {
        self.line
    }

    /// An error found on a line.
    pub fn new(error_type: T, line: u32) -> (r: CompileError<T>)
        ensures
            r.spec_error_type() == error_type,
            r.spec_line() == line,
    {
        CompileError { error_type, line }
    }

    /// The kind of the error.
    pub fn error_type(&self) -> (r: &T)
        ensures
            *r == self.spec_error_type(),
    {
        &self.error_type
    }

    /// The line of the error.
    pub fn line(&self) -> (r: u32)
        ensures
            r == self.spec_line(),
    {
        self.line
    }

    /// The report of the error: its line and its text.
    pub fn report(&self) -> (r: String)
        ensures
            r@ == report_text(self.spec_line(), self.spec_error_type().message()),
    {
        let mut text = String::from_str("parse error: line ");
        push_decimal(&mut text, self.line as u64);
        text.append(": ");
        let message = self.error_type.error_msg();
        text.append(message.as_str());
        text
    }
}

} // verus!
