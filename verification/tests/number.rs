use docxside_pdf::number::{decimal_string, numbered};

#[test]
fn decimal_text_of_numbers() {
    assert_eq!(decimal_string(0), "0");
    assert_eq!(decimal_string(7), "7");
    assert_eq!(decimal_string(10), "10");
    assert_eq!(decimal_string(1234567890), "1234567890");
    assert_eq!(decimal_string(u64::MAX), "18446744073709551615");
}

#[test]
fn numbered_names() {
    assert_eq!(numbered("F", 1), "F1");
    assert_eq!(numbered("Im", 12), "Im12");
    assert_eq!(numbered("", 0), "0");
}
