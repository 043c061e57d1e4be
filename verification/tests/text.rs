use proto_descriptor::text::{span_before, str_eq};

#[test]
fn str_eq_compares_the_characters() {
    assert!(str_eq("proto3", "proto3"));
    assert!(str_eq("", ""));
    assert!(!str_eq("proto3", "proto2"));
    assert!(!str_eq("proto", "proto3"));
    assert!(!str_eq("proto3", ""));
    assert!(str_eq("na\u{ef}ve", "na\u{ef}ve"));
    assert!(!str_eq("na\u{ef}ve", "naive"));
}

#[test]
fn span_before_cuts_off_what_is_left() {
    let input = "by_id = 1;";
    assert_eq!(span_before(input, &input[5..]), "by_id");
    assert_eq!(span_before(input, input), "");
    assert_eq!(span_before(input, ""), input);
    let accented = "\u{e9}t\u{e9} x";
    assert_eq!(span_before(accented, &accented[5..]), "\u{e9}t\u{e9}");
}
