//! A runtime related error type

use vstd::prelude::*;

verus! {

/// The character for the decimal digit `d`
pub open spec fn decimal_digit(d: nat) -> char {
    if d == 0 {
        '0'
    } else if d == 1 {
        '1'
    } else if d == 2 {
        '2'
    } else if d == 3 {
        '3'
    } else if d == 4 {
        '4'
    } else if d == 5 {
        '5'
    } else if d == 6 {
        '6'
    } else if d == 7 {
        '7'
    } else if d == 8 {
        '8'
    } else {
        '9'
    }
}

/// The decimal rendering of `n`, most significant digit first, without
/// sign, padding or separators
pub open spec fn decimal_of(n: nat) -> Seq<char>
    decreases n,
{
    if n < 10 {
        seq![decimal_digit(n)]
    } else {
        decimal_of(n / 10) + seq![decimal_digit(n % 10)]
    }
}

/// The rendering of an error carrying `message` at `file`:`line`
pub open spec fn rendered(message: Seq<char>, file: Seq<char>, line: nat) -> Seq<char> {
    message + " at "@ + file + ":"@ + decimal_of(line)
}

/// An error of the runtime: a static message plus the source location
/// (file, line) where it was raised. No dynamic formatting or allocation
/// is involved.
#[derive(Debug, Clone, Copy)]
pub struct Error {
    /// The error message
    pub message: &'static str,
    /// The error location (file, line)
    pub location: (&'static str, u32),
}

impl Error {
    /// Creates a new error carrying `message`, raised at `file`:`line`
    pub fn new(message: &'static str, file: &'static str, line: u32) -> (e: Error)
        ensures
            e.message@ == message@,
            e.location.0@ == file@,
            e.location.1 == line,
    {
        Error { message, location: (file, line) }
    }

    /// Renders the error as `<message> at <file>:<line>` for diagnostics
    pub fn describe(&self) -> (r: String)
        ensures
            r@ == rendered(self.message@, self.location.0@, self.location.1 as nat),
    {
        let (file, line) = self.location;
        describe_error(self.message, file, line)
    }
}

/// Relies on the std macro `format!` to join the error parts into one
/// diagnostic line: the message, the literal ` at `, the file, a colon, and
/// the line number, which std's `Display` for `u32` renders as plain
/// decimal digits, most significant first.
#[verifier::external_body]
fn describe_error(message: &str, file: &str, line: u32) -> (r: String)
    ensures
        r@ == rendered(message@, file@, line as nat),
{
    format!("{} at {}:{}", message, file, line)
}

} // verus!
