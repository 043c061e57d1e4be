use proto_descriptor::template::{snake_case, title_case};

#[test]
fn snake_case_puts_an_underscore_before_each_capital() {
    assert_eq!(snake_case("GetUserRequest"), "_get_user_request");
    assert_eq!(snake_case("byId"), "by_id");
    assert_eq!(snake_case("already_snake"), "already_snake");
    assert_eq!(snake_case("ABC"), "_a_b_c");
    assert_eq!(snake_case(""), "");
    assert_eq!(snake_case("x1Y2"), "x1_y2");
}

#[test]
fn snake_case_lowers_ascii_capitals_only() {
    assert_eq!(snake_case("a\u{c9}b"), "a_\u{c9}b");
}

#[test]
fn title_case_capitalizes_the_first_character() {
    assert_eq!(title_case("user"), "User");
    assert_eq!(title_case("User"), "User");
    assert_eq!(title_case("u"), "U");
    assert_eq!(title_case("get_user"), "Get_user");
    assert_eq!(title_case("1x"), "1x");
}

#[test]
fn title_case_takes_the_first_character_of_a_longer_mapping() {
    assert_eq!(title_case("\u{df}a"), "Sa");
    assert_eq!(title_case("\u{e9}t\u{e9}"), "\u{c9}t\u{e9}");
}
