//! Rules on the fields of requests.

use crate::error::AppError;
use crate::text::{joined, owned};
use vstd::prelude::*;
use vstd::string::StrSliceExecFns;

verus! {

/// The first rule that a request breaks: the field and what is wrong with
/// it.
#[derive(Debug)]
pub struct ValidationFailure {
    pub field: String,
    pub message: String,
}

/// What a failure holds.
pub struct FailureView {
    pub field: Seq<char>,
    pub message: Seq<char>,
}

impl View for ValidationFailure {
    type V = FailureView;

    open spec fn view(&self) -> FailureView {
        FailureView { field: self.field@, message: self.message@ }
    }
}

impl ValidationFailure {
    /// A failure of `field` with `message`.
    pub fn new(field: &str, message: &str) -> (f: ValidationFailure)
        ensures
            f@ == (FailureView { field: field@, message: message@ }),
    {
        ValidationFailure { field: owned(field), message: owned(message) }
    }

    /// The failure as the application reports it: a `Validation` error with
    /// the field, a colon and the message.
    pub fn into_error(self) -> (e: AppError)
        ensures
            match e {
                AppError::Validation(text) => text@ == self@.field + ": "@ + self@.message,
                _ => false,
            },
    {
        let mut text = joined(self.field.as_str(), ": ");
        text.append(self.message.as_str());
        AppError::Validation(text)
    }
}

/// Whether `text` has at least `min` characters.
pub fn has_length(text: &str, min: usize) -> (ok: bool)
    ensures
        ok == (text@.len() >= min),
{
    text.unicode_len() >= min
}

} // verus!
