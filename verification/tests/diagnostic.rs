use baguette::diagnostic::{Diagnostic, DirectiveForm, ErrorKind};

const UNTERMINATED_LOOP: ErrorKind = ErrorKind::UnterminatedDirective { form: DirectiveForm::Loop };
const UNTERMINATED_BACKGROUND: ErrorKind =
    ErrorKind::UnterminatedDirective { form: DirectiveForm::Background };

fn message(line: u32, kind: ErrorKind) -> String {
    Diagnostic { line, kind }.message()
}

#[test]
fn unterminated_loop_message() {
    assert_eq!(
        message(3, UNTERMINATED_LOOP),
        "Syntax Error in line: 3 no space supported inside of the loop"
    );
}

#[test]
fn unterminated_background_message() {
    assert_eq!(
        message(3, UNTERMINATED_BACKGROUND),
        "Syntax Error in line: 3 no space supported inside of the color specification"
    );
}

#[test]
fn malformed_loop_header_message() {
    assert_eq!(
        message(12, ErrorKind::MalformedLoopHeader),
        "Syntax Error in line: 12 Boulangerie(val,type) with color Boulangerie(val,type(rgbcolor))"
    );
}

#[test]
fn unrecognized_pastry_message() {
    assert_eq!(message(1, ErrorKind::UnrecognizedPastryKind), "Syntax Error in line: 1");
}

#[test]
fn invalid_repeat_count_message() {
    assert_eq!(
        message(40, ErrorKind::InvalidRepeatCount),
        "Syntax Error in line: 40 repeat count is not a number"
    );
}

#[test]
fn incomplete_color_message() {
    assert_eq!(
        message(7, ErrorKind::IncompleteColor),
        "Syntax Error in line: 7 color needs three components"
    );
}

#[test]
fn unknown_token_message() {
    assert_eq!(message(100, ErrorKind::UnknownToken), "Syntax Error in line: 100 unknown token");
}

#[test]
fn width_overflow_message() {
    assert_eq!(message(5, ErrorKind::WidthOverflow), "Linelimit in line: 5 out of bounce width");
}

#[test]
fn height_overflow_message() {
    assert_eq!(
        message(461, ErrorKind::HeightOverflow),
        "Linelimit in line: 461 out of bounce height"
    );
}

#[test]
fn line_numbers_are_written_in_base_ten() {
    assert_eq!(message(0, ErrorKind::UnrecognizedPastryKind), "Syntax Error in line: 0");
    assert_eq!(message(9, ErrorKind::UnrecognizedPastryKind), "Syntax Error in line: 9");
    assert_eq!(message(10, ErrorKind::UnrecognizedPastryKind), "Syntax Error in line: 10");
    assert_eq!(message(1090, ErrorKind::UnrecognizedPastryKind), "Syntax Error in line: 1090");
    assert_eq!(
        message(u32::MAX, ErrorKind::UnrecognizedPastryKind),
        "Syntax Error in line: 4294967295"
    );
}

#[test]
fn categories_and_details() {
    assert_eq!(ErrorKind::WidthOverflow.category(), "Linelimit");
    assert_eq!(ErrorKind::HeightOverflow.category(), "Linelimit");
    assert_eq!(ErrorKind::UnknownToken.category(), "Syntax Error");
    assert_eq!(ErrorKind::UnrecognizedPastryKind.detail(), "");
    assert_eq!(ErrorKind::WidthOverflow.detail(), " out of bounce width");
}
