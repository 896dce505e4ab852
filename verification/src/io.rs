//! The error of an input or output operation.
//!
//! The codecs carry such an error to their caller and never look inside.

use vstd::prelude::*;

verus! {

/// `std::io::Error`: what an input or output operation failed with.
#[verifier::external_type_specification]
#[verifier::external_body]
pub struct ExIoError(std::io::Error);

/// `Display` of `std::io::Error` says what went wrong. What it says is the
/// system's to word, so nothing is said of it here.
#[verifier::external_body]
pub(crate) fn io_error_message(err: &std::io::Error) -> (message: String) {
    format!("{}", err)
}

} // verus!
