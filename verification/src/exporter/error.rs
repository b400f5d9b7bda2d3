//! The error of an export.

use vstd::prelude::*;
use vstd::string::*;

use crate::text::concat;

verus! {

/// Why a batch could not be exported.
#[derive(Debug, PartialEq, Eq)]
pub struct ExportError {
    pub message: String,
}

impl View for ExportError {
    type V = Seq<char>;

    /// The message.
    open spec fn view(&self) -> Seq<char> {
        self.message@
    }
}

impl Clone for ExportError {
    fn clone(&self) -> (r: ExportError)
        ensures
            r == *self,
    {
        ExportError { message: self.message.clone() }
    }
}

impl ExportError {
    /// An error with a message.
    pub fn new(message: String) -> (r: ExportError)
        ensures
            r@ == message@,
    {
        ExportError { message }
    }

    /// A human-readable description.
    pub fn to_string(&self) -> (r: String)
        ensures
            r@ == "export error: "@ + self@,
    {
        concat("export error: ", self.message.as_str())
    }
}

/// What an export error says to a reader: its message, behind the word for what
/// it is.
pub proof fn law_export_error_text(e: ExportError, text: String)
    ensures
        call_ensures(ExportError::to_string, (&e,), text) ==> text@ == "export error: "@
            + e.message@,
{
}

} // verus!
