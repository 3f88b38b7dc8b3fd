//! The error messages of the crate. Errors are plain text: a fixed lead
//! that says what failed, then the cause as the underlying parser worded it.

use vstd::prelude::*;

verus! {

/// The message for malformed XML, with the lexer's diagnostic in it.
pub open spec fn syntax_error_text(diagnostic: Seq<char>) -> Seq<char> {
    "XML parse error: "@ + diagnostic
}

/// The message for a settings file that cannot be read.
pub open spec fn parse_failure_text(cause: Seq<char>) -> Seq<char> {
    "Failed to parse controls file: "@ + cause
}

/// The message for a profile that cannot be written out.
pub open spec fn serialize_failure_text(cause: Seq<char>) -> Seq<char> {
    "Failed to serialize controls file: "@ + cause
}

/// Reports malformed XML, with the lexer's diagnostic.
pub fn syntax_error_message(diagnostic: &str) -> (message: String)
    ensures
        message@ == syntax_error_text(diagnostic@),
{
    let mut message = "XML parse error: ".to_string();
    message.append(diagnostic);
    message
}

/// Reports a settings file that is not well-formed JSON or does not have
/// the shape of a profile, with the JSON parser's diagnostic.
pub fn parse_failure_message(cause: &str) -> (message: String)
    ensures
        message@ == parse_failure_text(cause@),
{
    let mut message = "Failed to parse controls file: ".to_string();
    message.append(cause);
    message
}

/// Reports a profile that could not be turned into JSON, with the
/// serializer's diagnostic.
pub fn serialize_failure_message(cause: &str) -> (message: String)
    ensures
        message@ == serialize_failure_text(cause@),
{
    let mut message = "Failed to serialize controls file: ".to_string();
    message.append(cause);
    message
}

} // verus!
