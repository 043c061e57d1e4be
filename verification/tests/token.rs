use proto_descriptor::proto::token::{Literal, Token, Tokenizer};

#[test]
fn tokenizer_cuts_a_statement_into_tokens() {
    let tokens = Tokenizer::new("syntax = \"proto3\";").tokens();
    assert_eq!(
        tokens,
        vec![
            Token::Syntax,
            Token::Equals,
            Token::Literal(Literal::String("proto3".to_string())),
            Token::Semicolon,
        ]
    );
}

#[test]
fn tokenizer_reads_a_service() {
    let tokens = Tokenizer::new("service S { rpc Get (stream Req) returns (Res); }").tokens();
    assert_eq!(
        tokens,
        vec![
            Token::Service,
            Token::Ident("S".to_string()),
            Token::OpenBrace,
            Token::Rpc,
            Token::Ident("Get".to_string()),
            Token::OpenParens,
            Token::Stream,
            Token::Ident("Req".to_string()),
            Token::CloseParens,
            Token::Returns,
            Token::OpenParens,
            Token::Ident("Res".to_string()),
            Token::CloseParens,
            Token::Semicolon,
            Token::CloseBrace,
        ]
    );
}

#[test]
fn tokenizer_walks_token_by_token() {
    let mut walk = Tokenizer::new(" message M{}").into_iter();
    assert_eq!(walk.next(), Some(Token::Message));
    assert_eq!(walk.next(), Some(Token::Ident("M".to_string())));
    assert_eq!(walk.next(), Some(Token::OpenBrace));
    assert_eq!(walk.next(), Some(Token::CloseBrace));
    assert_eq!(walk.next(), None);
    assert_eq!(walk.next(), None);
}

#[test]
fn tokenizer_stops_where_no_token_begins() {
    let mut walk = Tokenizer::new("a _b").into_iter();
    assert_eq!(walk.next(), Some(Token::Ident("a".to_string())));
    assert_eq!(walk.next(), None);
    assert_eq!(Tokenizer::new("a _b c").tokens(), vec![Token::Ident("a".to_string())]);
    assert_eq!(Tokenizer::new("").tokens(), vec![]);
}

#[test]
fn tokenizer_takes_a_keyword_before_the_letters_that_follow_it() {
    assert_eq!(
        Tokenizer::new("rpcs").tokens(),
        vec![Token::Rpc, Token::Ident("s".to_string())]
    );
}

#[test]
fn tokenizer_reads_letters_outside_ascii_into_an_identifier() {
    assert_eq!(
        Tokenizer::new("na\u{ef}ve7 ;").tokens(),
        vec![Token::Ident("na\u{ef}ve7".to_string()), Token::Semicolon]
    );
}

#[test]
fn tokenizer_string_literal_needs_text_and_both_quotes() {
    assert_eq!(
        Tokenizer::new("\"a b\"=").tokens(),
        vec![Token::Literal(Literal::String("a b".to_string())), Token::Equals]
    );
    assert_eq!(Tokenizer::new("\"\"").tokens(), vec![]);
    assert_eq!(Tokenizer::new("\"open").tokens(), vec![]);
}
