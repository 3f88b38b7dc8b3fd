use sc_controls::{parse_failure_message, serialize_failure_message, syntax_error_message};

#[test]
fn messages_lead_with_what_failed() {
    assert_eq!(syntax_error_message("tag not closed"), "XML parse error: tag not closed");
    assert_eq!(
        parse_failure_message("missing field `version` at line 1 column 2"),
        "Failed to parse controls file: missing field `version` at line 1 column 2"
    );
    assert_eq!(
        serialize_failure_message("key must be a string"),
        "Failed to serialize controls file: key must be a string"
    );
}

#[test]
fn messages_with_an_empty_cause_are_the_lead_alone() {
    assert_eq!(syntax_error_message(""), "XML parse error: ");
    assert_eq!(parse_failure_message(""), "Failed to parse controls file: ");
    assert_eq!(serialize_failure_message(""), "Failed to serialize controls file: ");
}
