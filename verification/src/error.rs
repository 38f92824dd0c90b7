//! The error that formatting ends with.
use crate::engine::{error_message, error_text, parse_errors, parse_errors_text};
use vstd::prelude::*;

verus! {

/// A message on why a file was not formatted.
#[derive(Clone, Debug, PartialEq, Eq)]
pub struct FormattingError {
    pub message: String,
}

impl View for FormattingError {
    type V = Seq<char>;

    open spec fn view(&self) -> Seq<char> {
        self.message@
    }
}

impl FormattingError {
    /// An error with the given message.
    pub fn new(message: &str) -> (err: Self)
        ensures
            err@ == message@,
    {
        FormattingError { message: message.to_owned() }
    }
}

/// Renders an arity format error as a dprint-facing message.
pub fn format_error(err: &arity_formatter::FormatError) -> (rendered: FormattingError)
    ensures
        rendered@ == error_text(*err),
{
    FormattingError { message: error_message(err) }
}

/// Reports a parse failure the same way the engine does, so the range path and
/// the whole-file path produce identical messages.
pub fn parse_error(count: usize) -> (rendered: FormattingError)
    ensures
        rendered@ == parse_errors_text(count as nat),
{
    format_error(&parse_errors(count))
}

} // verus!
