use proto_descriptor::proto::descriptor::{
    FieldDescriptor, FieldDescriptorLabel, FieldDescriptorType, FileDescriptor,
    MessageDescriptor, MethodDescriptor, ServiceDescriptor, SyntaxDescriptor,
};
use proto_descriptor::proto::parser::{
    field_number, identifier, message, message_field, message_field_label, message_field_type,
    parse, service, service_method, service_method_type, syntax, syntax_literal, token, ws,
    ParseError,
};

#[test]
fn can_parse_message_with_underscores_in_field_name() {
    let input = r#"
            message GetUserRequest {
                required string by_id = 1;
            }
        "#;
    let expected_descriptor = MessageDescriptor {
        name: "GetUserRequest",
        fields: vec![FieldDescriptor {
            name: "by_id",
            label: Some(FieldDescriptorLabel::Required),
            typ: FieldDescriptorType::String,
            number: 1,
        }],
    };
    let expected = ("", expected_descriptor);
    let actual = message(input).unwrap();
    assert_eq!(expected, actual);
}

#[test]
fn can_parse_message_field_with_underscores_name() {
    let input = r#"
            required string by_id = 1;
        "#;
    let expected_descriptor = FieldDescriptor {
        name: "by_id",
        label: Some(FieldDescriptorLabel::Required),
        typ: FieldDescriptorType::String,
        number: 1,
    };
    let expected = ("", expected_descriptor);
    let actual = message_field(input).unwrap();
    assert_eq!(expected, actual);
}

#[test]
fn identifier_takes_the_whole_identifier_and_no_more() {
    assert_eq!(identifier("by_id = 1"), Ok((" = 1", "by_id")));
    assert_eq!(identifier("_x9;"), Ok((";", "_x9")));
    assert_eq!(identifier("GetUserRequest"), Ok(("", "GetUserRequest")));
    assert_eq!(identifier("a"), Ok(("", "a")));
    assert_eq!(identifier("__"), Ok(("", "__")));
    assert_eq!(identifier("a1_b2{"), Ok(("{", "a1_b2")));
}

#[test]
fn identifier_rejects_a_digit_or_punctuation_first() {
    assert_eq!(identifier("9lives"), Err(ParseError::NoMatch));
    assert_eq!(identifier("-x"), Err(ParseError::NoMatch));
    assert_eq!(identifier(" x"), Err(ParseError::NoMatch));
    assert_eq!(identifier(""), Err(ParseError::NoMatch));
}

#[test]
fn identifier_stops_at_a_letter_outside_ascii() {
    assert_eq!(identifier("na\u{ef}ve"), Ok(("\u{ef}ve", "na")));
    assert_eq!(identifier("\u{e9}t"), Err(ParseError::NoMatch));
}

#[test]
fn ws_skips_whitespace_on_both_sides() {
    assert_eq!(ws(identifier, " \t\r\n name \n rest"), Ok(("rest", "name")));
    assert_eq!(ws(identifier, "name"), Ok(("", "name")));
    assert_eq!(ws(identifier, "  1"), Err(ParseError::NoMatch));
}

#[test]
fn token_matches_a_fixed_text_between_whitespace() {
    assert_eq!(token("=", "  =  1"), Ok(("1", "=")));
    assert_eq!(token("rpc", "rpcGet"), Ok(("Get", "rpc")));
    assert_eq!(token("rpc", "rp"), Err(ParseError::NoMatch));
    assert_eq!(token(";", ""), Err(ParseError::NoMatch));
}

#[test]
fn syntax_literal_accepts_the_two_versions_only() {
    assert_eq!(syntax_literal("\"proto2\";"), Ok((";", "proto2")));
    assert_eq!(syntax_literal("\"proto3\""), Ok(("", "proto3")));
    assert_eq!(syntax_literal("\"proto4\""), Err(ParseError::NoMatch));
    assert_eq!(syntax_literal("\"\""), Err(ParseError::NoMatch));
    assert_eq!(syntax_literal("\" proto3\""), Err(ParseError::NoMatch));
    assert_eq!(syntax_literal("proto3"), Err(ParseError::NoMatch));
    assert_eq!(syntax_literal("\"proto3"), Err(ParseError::NoMatch));
}

#[test]
fn syntax_statement_gives_the_version() {
    assert_eq!(syntax("syntax = \"proto3\";"), Ok(("", SyntaxDescriptor::Proto3)));
    assert_eq!(
        syntax("  syntax=\"proto2\" ;\nmessage M {}"),
        Ok(("message M {}", SyntaxDescriptor::Proto2))
    );
}

#[test]
fn syntax_statement_that_does_not_match_is_no_match() {
    assert_eq!(syntax("syntaxes = \"proto3\";"), Err(ParseError::NoMatch));
    assert_eq!(syntax("syntax \"proto3\";"), Err(ParseError::NoMatch));
    assert_eq!(syntax("syntax = \"proto3\""), Err(ParseError::NoMatch));
    assert_eq!(syntax("syntax = \"proto1\";"), Err(ParseError::NoMatch));
    assert_eq!(syntax("message M {}"), Err(ParseError::NoMatch));
}

#[test]
fn syntax_statement_never_gives_an_unknown_version() {
    for text in ["syntax = \"proto2\";", "syntax = \"proto3\";", "syntax = \"\";", "syntax = \"x\";"] {
        if let Ok((_, version)) = syntax(text) {
            assert!(!matches!(version, SyntaxDescriptor::Unknown(_)));
        }
    }
}

#[test]
fn label_is_one_of_three_keywords() {
    assert_eq!(message_field_label("optional x"), Ok(("x", FieldDescriptorLabel::Optional)));
    assert_eq!(message_field_label(" required x"), Ok(("x", FieldDescriptorLabel::Required)));
    assert_eq!(message_field_label("repeated\nx"), Ok(("x", FieldDescriptorLabel::Repeated)));
    assert_eq!(message_field_label("string x"), Err(ParseError::NoMatch));
}

#[test]
fn field_type_is_string_or_a_message_name() {
    assert_eq!(message_field_type(" string name"), Ok(("name", FieldDescriptorType::String)));
    assert_eq!(message_field_type("User u"), Ok(("u", FieldDescriptorType::Message("User"))));
    assert_eq!(
        message_field_type("strings s"),
        Ok(("s", FieldDescriptorType::Message("strings")))
    );
    assert_eq!(message_field_type("= 1"), Err(ParseError::NoMatch));
}

#[test]
fn field_number_reads_decimal_digits_that_fit() {
    assert_eq!(field_number("1"), Some(1));
    assert_eq!(field_number("0"), Some(0));
    assert_eq!(field_number("007"), Some(7));
    assert_eq!(field_number("536870911"), Some(536870911));
    assert_eq!(field_number("4294967295"), Some(4294967295));
    assert_eq!(field_number("4294967296"), None);
    assert_eq!(field_number("99999999999999999999"), None);
    assert_eq!(field_number(""), None);
    assert_eq!(field_number("1a"), None);
    assert_eq!(field_number("a1"), None);
    assert_eq!(field_number("\u{663}"), None);
}

#[test]
fn field_without_a_label() {
    assert_eq!(
        message_field("string name = 1;"),
        Ok((
            "",
            FieldDescriptor {
                label: None,
                typ: FieldDescriptorType::String,
                name: "name",
                number: 1,
            }
        ))
    );
}

#[test]
fn field_with_a_message_type_and_a_label() {
    assert_eq!(
        message_field("repeated User users=12 ; next"),
        Ok((
            "next",
            FieldDescriptor {
                label: Some(FieldDescriptorLabel::Repeated),
                typ: FieldDescriptorType::Message("User"),
                name: "users",
                number: 12,
            }
        ))
    );
}

#[test]
fn malformed_field_number_is_its_own_error() {
    assert_eq!(message_field("string name = 1a;"), Err(ParseError::MalformedFieldNumber("1a")));
    assert_eq!(message_field("string name = ;"), Err(ParseError::MalformedFieldNumber("")));
    assert_eq!(
        message_field("string name = 4294967296;"),
        Err(ParseError::MalformedFieldNumber("4294967296"))
    );
    assert_eq!(
        message_field("string name = \u{663};"),
        Err(ParseError::MalformedFieldNumber("\u{663}"))
    );
}

#[test]
fn field_of_another_shape_is_no_match() {
    assert_eq!(message_field("string name = 1"), Err(ParseError::NoMatch));
    assert_eq!(message_field("string name 1;"), Err(ParseError::NoMatch));
    assert_eq!(message_field("string = 1;"), Err(ParseError::NoMatch));
    assert_eq!(message_field("string name = 1a"), Err(ParseError::NoMatch));
    assert_eq!(message_field("}"), Err(ParseError::NoMatch));
    assert_eq!(message_field(""), Err(ParseError::NoMatch));
}

#[test]
fn message_with_an_empty_body() {
    assert_eq!(
        message("message Empty {} rest"),
        Ok(("rest", MessageDescriptor { name: "Empty", fields: vec![] }))
    );
}

#[test]
fn message_keeps_the_order_of_its_fields() {
    let (rest, found) =
        message("message M { string a = 1; optional M b = 2; repeated string c = 3; }").unwrap();
    assert_eq!(rest, "");
    assert_eq!(found.name, "M");
    let names: Vec<&str> = found.fields.iter().map(|f| f.name).collect();
    assert_eq!(names, vec!["a", "b", "c"]);
    let numbers: Vec<u32> = found.fields.iter().map(|f| f.number).collect();
    assert_eq!(numbers, vec![1, 2, 3]);
}

#[test]
fn message_with_a_malformed_field_number_fails_with_that_error() {
    assert_eq!(
        message("message M { string a = 1; string b = 2x; }"),
        Err(ParseError::MalformedFieldNumber("2x"))
    );
}

#[test]
fn message_with_text_that_is_no_field_is_no_match() {
    assert_eq!(message("message M { string a = 1; what }"), Err(ParseError::NoMatch));
    assert_eq!(message("message M { string a = 1;"), Err(ParseError::NoMatch));
    assert_eq!(message("message { }"), Err(ParseError::NoMatch));
    assert_eq!(message("service S { }"), Err(ParseError::NoMatch));
}

#[test]
fn method_type_tells_whether_it_streams() {
    assert_eq!(service_method_type("(stream Req) x"), Ok(("x", (true, "Req"))));
    assert_eq!(service_method_type("( Res )"), Ok(("", (false, "Res"))));
    assert_eq!(service_method_type("(stream)"), Err(ParseError::NoMatch));
    assert_eq!(service_method_type("Req"), Err(ParseError::NoMatch));
}

#[test]
fn method_streaming_flags() {
    assert_eq!(
        service_method("rpc Get(stream Req) returns (Res);"),
        Ok((
            "",
            MethodDescriptor {
                name: "Get",
                input_type: "Req",
                output_type: "Res",
                client_streaming: true,
                server_streaming: false,
            }
        ))
    );
    assert_eq!(
        service_method("rpc Watch (Req) returns (stream Res) ;"),
        Ok((
            "",
            MethodDescriptor {
                name: "Watch",
                input_type: "Req",
                output_type: "Res",
                client_streaming: false,
                server_streaming: true,
            }
        ))
    );
}

#[test]
fn method_of_another_shape_is_no_match() {
    assert_eq!(service_method("rpc Get(Req) (Res);"), Err(ParseError::NoMatch));
    assert_eq!(service_method("rpc Get(Req) returns (Res)"), Err(ParseError::NoMatch));
    assert_eq!(service_method("Get(Req) returns (Res);"), Err(ParseError::NoMatch));
}

#[test]
fn service_keeps_the_order_of_its_methods() {
    let (rest, found) = service(
        "service Users {\n rpc Get(GetRequest) returns (User);\n rpc List(ListRequest) returns (stream User);\n}\n",
    )
    .unwrap();
    assert_eq!(rest, "");
    assert_eq!(found.name, "Users");
    let names: Vec<&str> = found.methods.iter().map(|m| m.name).collect();
    assert_eq!(names, vec!["Get", "List"]);
    assert_eq!(service("service Users { rpc }"), Err(ParseError::NoMatch));
}

#[test]
fn parse_assembles_a_file() {
    let source = "syntax = \"proto3\";\nmessage A { string x = 1; }\nservice S { rpc F(A) returns (B); }\nmessage B { }\n";
    let expected = FileDescriptor {
        name: "users.proto",
        syntax: Some(SyntaxDescriptor::Proto3),
        messages: vec![
            MessageDescriptor {
                name: "A",
                fields: vec![FieldDescriptor {
                    label: None,
                    typ: FieldDescriptorType::String,
                    name: "x",
                    number: 1,
                }],
            },
            MessageDescriptor { name: "B", fields: vec![] },
        ],
        services: vec![ServiceDescriptor {
            name: "S",
            methods: vec![MethodDescriptor {
                name: "F",
                input_type: "A",
                output_type: "B",
                client_streaming: false,
                server_streaming: false,
            }],
        }],
    };
    assert_eq!(parse("users.proto", source), Ok(expected));
}

#[test]
fn parse_of_an_empty_source_is_an_empty_file() {
    assert_eq!(
        parse("empty", ""),
        Ok(FileDescriptor { name: "empty", syntax: None, messages: vec![], services: vec![] })
    );
}

#[test]
fn last_syntax_statement_wins() {
    let file = parse("f", "syntax = \"proto3\";\nmessage M {}\nsyntax = \"proto2\";").unwrap();
    assert_eq!(file.syntax, Some(SyntaxDescriptor::Proto2));
    assert_eq!(file.messages.len(), 1);
    let file = parse("f", "syntax = \"proto2\"; syntax = \"proto3\";").unwrap();
    assert_eq!(file.syntax, Some(SyntaxDescriptor::Proto3));
}

#[test]
fn unrecognized_statement_fails_the_whole_parse() {
    assert_eq!(
        parse("f", "message M {}\nenum X {}\nmessage N {}"),
        Err(ParseError::UnexpectedInput("enum X {}\nmessage N {}"))
    );
    assert_eq!(parse("f", "enum X {}"), Err(ParseError::UnexpectedInput("enum X {}")));
}

#[test]
fn whitespace_alone_is_unexpected_input() {
    assert_eq!(parse("f", " \n"), Err(ParseError::UnexpectedInput(" \n")));
}

#[test]
fn leftover_text_in_a_message_body_fails_the_whole_parse() {
    assert_eq!(
        parse("f", "message M { string a = 1; junk }"),
        Err(ParseError::UnexpectedInput("message M { string a = 1; junk }"))
    );
}

#[test]
fn malformed_field_number_fails_the_whole_parse() {
    assert_eq!(
        parse("f", "syntax = \"proto3\"; message M { string name = 1a; }"),
        Err(ParseError::MalformedFieldNumber("1a"))
    );
}

#[test]
fn descriptors_are_written_out_under_their_keywords() {
    assert_eq!(SyntaxDescriptor::Proto2.as_str(), "proto2");
    assert_eq!(SyntaxDescriptor::Proto3.as_str(), "proto3");
    assert_eq!(SyntaxDescriptor::Unknown("editions").as_str(), "editions");
    assert_eq!(FieldDescriptorLabel::Optional.as_str(), "optional");
    assert_eq!(FieldDescriptorLabel::Required.as_str(), "required");
    assert_eq!(FieldDescriptorLabel::Repeated.as_str(), "repeated");
    assert_eq!(FieldDescriptorLabel::Unknown("packed").as_str(), "packed");
    assert_eq!(FieldDescriptorType::String.as_str(), "string");
    assert_eq!(FieldDescriptorType::Message("User").as_str(), "User");
}

#[test]
fn message_with_one_required_string_field() {
    assert_eq!(
        message("message M { required string by_id = 1; }"),
        Ok((
            "",
            MessageDescriptor {
                name: "M",
                fields: vec![FieldDescriptor {
                    label: Some(FieldDescriptorLabel::Required),
                    typ: FieldDescriptorType::String,
                    name: "by_id",
                    number: 1,
                }],
            }
        ))
    );
}

#[test]
fn keyword_is_taken_also_where_letters_follow_it() {
    assert_eq!(
        message("messageM{optionalstring a=1;}"),
        Ok((
            "",
            MessageDescriptor {
                name: "M",
                fields: vec![FieldDescriptor {
                    label: Some(FieldDescriptorLabel::Optional),
                    typ: FieldDescriptorType::String,
                    name: "a",
                    number: 1,
                }],
            }
        ))
    );
    assert_eq!(service_method_type("(streamReq)"), Ok(("", (true, "Req"))));
}

#[test]
fn rest_of_a_parser_is_the_end_of_its_input() {
    let input = "message A { string x = 1; }  service S { }";
    let (rest, _) = message(input).unwrap();
    assert_eq!(rest, "service S { }");
    assert!(input.ends_with(rest));
    let field = " optional User u = 7 ;\n}";
    let (rest, _) = message_field(field).unwrap();
    assert_eq!(rest, "}");
}

#[test]
fn parsed_names_are_identifiers() {
    let source = "message A_1 { B b2 = 1; string _c = 2; } service S { rpc Get(A_1) returns (stream B); }";
    let file = parse("f", source).unwrap();
    let is_identifier = |name: &str| {
        let mut chars = name.chars();
        let first = chars.next().unwrap();
        (first.is_ascii_alphabetic() || first == '_')
            && chars.all(|c| c.is_ascii_alphanumeric() || c == '_')
    };
    for m in &file.messages {
        assert!(is_identifier(m.name));
        for f in &m.fields {
            assert!(is_identifier(f.name));
            if let FieldDescriptorType::Message(name) = f.typ {
                assert!(is_identifier(name));
            }
        }
    }
    for s in &file.services {
        assert!(is_identifier(s.name));
        for m in &s.methods {
            assert!(is_identifier(m.name));
            assert!(is_identifier(m.input_type));
            assert!(is_identifier(m.output_type));
        }
    }
}

#[test]
fn error_is_put_in_words() {
    assert_eq!(ParseError::NoMatch.message(), "No match");
    assert_eq!(
        ParseError::UnexpectedInput("enum X {}").message(),
        "Unexpected characters enum X {}"
    );
    assert_eq!(ParseError::MalformedFieldNumber("1a").message(), "Malformed field number 1a");
}

#[test]
fn field_number_text_takes_alphanumerics_of_any_script() {
    assert_eq!(
        message_field("string name = 1\u{e9}2;"),
        Err(ParseError::MalformedFieldNumber("1\u{e9}2"))
    );
    assert_eq!(message_field("string name = 1_2;"), Err(ParseError::NoMatch));
}
