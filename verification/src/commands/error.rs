//! The error every fallible operation of the crate reports.

use vstd::prelude::*;

verus! {

/// A failure, as a machine-readable code and a message for people.
#[derive(Debug)]
pub struct CommandError {
    pub message: String,
    pub code: String,
}

/// What a `CommandError` says.
pub struct ErrorModel {
    pub message: Seq<char>,
    pub code: Seq<char>,
}

impl View for CommandError {
    type V = ErrorModel;

    open spec fn view(&self) -> ErrorModel {
        ErrorModel { message: self.message@, code: self.code@ }
    }
}

impl CommandError {
    /// An error whose message is `reason` behind `lead`.
    pub fn with_reason(lead: &str, reason: &str, code: &str) -> (error: Self)
        ensures
            error@ == (ErrorModel { message: lead@ + reason@, code: code@ }),
    {
        let mut message = String::from_str(lead);
        message.append(reason);
        Self { message, code: String::from_str(code) }
    }

    /// An error with the given message and code.
    pub fn new(message: &str, code: &str) -> (error: Self)
        ensures
            error.message@ == message@,
            error.code@ == code@,
    {
        Self { message: String::from_str(message), code: String::from_str(code) }
    }

    /// An error that carries only a message; its code is `ERROR`.
    pub fn from_message(message: String) -> (error: Self)
        ensures
            error.message == message,
            error.code@ == "ERROR"@,
    {
        Self { message, code: String::from_str("ERROR") }
    }

    /// The text shown for this error: the code, a colon and a space, the message.
    pub open spec fn display_text(self) -> Seq<char> {
        self.code@ + ": "@ + self.message@
    }

    /// Renders the error as `display_text` says.
    pub fn to_display_string(&self) -> (text: String)
        ensures
            text@ == self.display_text(),
    {
        let mut text = self.code.clone();
        text.append(": ");
        text.append(self.message.as_str());
        text
    }
}

} // verus!
