//! A tokenizer for the same language: it cuts a source into punctuation,
//! keywords, string literals and identifiers.

use vstd::prelude::*;
use super::grammar;
use super::grammar::{character, run_len, token, ws, Failure, Outcome};
use super::lemmas::{lemma_longest_run, lemma_run_len_bound, lemma_token, lemma_ws};
use super::parser::{outcome, ParseError, ParseResult};
use super::scan;
use super::scan::alphanumeric;

verus! {

/// One token of a source.
#[derive(Debug, PartialEq, Clone)]
pub enum Token {
    Ident(String),
    Literal(Literal),
    Syntax,
    Message,
    Service,
    Equals,
    Semicolon,
    OpenBrace,
    CloseBrace,
    Rpc,
    OpenParens,
    CloseParens,
    Returns,
    Stream,
}

/// A literal value in a source.
#[derive(Debug, PartialEq, Clone)]
pub enum Literal {
    String(String),
}

/// Model of a [`Token`]: the texts are character sequences.
pub enum Lexeme {
    Ident(Seq<char>),
    Literal(Seq<char>),
    Syntax,
    Message,
    Service,
    Equals,
    Semicolon,
    OpenBrace,
    CloseBrace,
    Rpc,
    OpenParens,
    CloseParens,
    Returns,
    Stream,
}

impl DeepView for Token {
    type V = Lexeme;

    open spec fn deep_view(&self) -> Lexeme {
        match *self {
            Token::Ident(text) => Lexeme::Ident(text@),
            Token::Literal(Literal::String(text)) => Lexeme::Literal(text@),
            Token::Syntax => Lexeme::Syntax,
            Token::Message => Lexeme::Message,
            Token::Service => Lexeme::Service,
            Token::Equals => Lexeme::Equals,
            Token::Semicolon => Lexeme::Semicolon,
            Token::OpenBrace => Lexeme::OpenBrace,
            Token::CloseBrace => Lexeme::CloseBrace,
            Token::Rpc => Lexeme::Rpc,
            Token::OpenParens => Lexeme::OpenParens,
            Token::CloseParens => Lexeme::CloseParens,
            Token::Returns => Lexeme::Returns,
            Token::Stream => Lexeme::Stream,
        }
    }
}

impl View for Token {
    type V = Lexeme;

    open spec fn view(&self) -> Lexeme {
        self.deep_view()
    }
}

/// One or more characters that `char::is_alphanumeric` accepts.
pub open spec fn word(s: Seq<char>) -> Outcome<Seq<char>> {
    if s.len() > 0 && alphanumeric(s[0]) {
        let n = run_len(s, |c: char| alphanumeric(c));
        Ok((s.skip(n as int), s.take(n as int)))
    } else {
        Err(Failure::NoMatch)
    }
}

/// One or more characters of which none occurs in `stops`.
pub open spec fn none_of(stops: Seq<char>, s: Seq<char>) -> Outcome<Seq<char>> {
    if s.len() > 0 && !stops.contains(s[0]) {
        let n = run_len(s, |c: char| !stops.contains(c));
        Ok((s.skip(n as int), s.take(n as int)))
    } else {
        Err(Failure::NoMatch)
    }
}

/// A string literal: a double quote, one or more characters other than a
/// double quote, and a double quote. The value is the text between them.
pub open spec fn string_literal(s: Seq<char>) -> Outcome<Seq<char>> {
    match character('"', s) {
        Err(e) => Err(e),
        Ok((s1, _)) => match none_of("\""@, s1) {
            Err(e) => Err(e),
            Ok((s2, text)) => match character('"', s2) {
                Err(e) => Err(e),
                Ok((s3, _)) => Ok((s3, text)),
            },
        },
    }
}

/// The token for the fixed text `text`, where `s` begins with it.
pub open spec fn fixed(text: Seq<char>, lexeme: Lexeme, s: Seq<char>) -> Option<
    (Seq<char>, Lexeme),
> {
    match token(text, s) {
        Ok((rest, _)) => Some((rest, lexeme)),
        Err(_) => None,
    }
}

/// The first of two readings of the same text that gives a token.
pub open spec fn first_of(
    first: Option<(Seq<char>, Lexeme)>,
    second: Option<(Seq<char>, Lexeme)>,
) -> Option<(Seq<char>, Lexeme)> {
    if first is Some {
        first
    } else {
        second
    }
}

/// The punctuation mark or keyword that `s` begins with. Punctuation is tried
/// before the keywords, and a keyword is recognised also where a letter
/// follows it.
pub open spec fn fixed_token(s: Seq<char>) -> Option<(Seq<char>, Lexeme)> {
    first_of(
        fixed("{"@, Lexeme::OpenBrace, s),
        first_of(
            fixed("}"@, Lexeme::CloseBrace, s),
            first_of(
                fixed("("@, Lexeme::OpenParens, s),
                first_of(
                    fixed(")"@, Lexeme::CloseParens, s),
                    first_of(
                        fixed("="@, Lexeme::Equals, s),
                        first_of(
                            fixed("syntax"@, Lexeme::Syntax, s),
                            first_of(
                                fixed("message"@, Lexeme::Message, s),
                                first_of(
                                    fixed("service"@, Lexeme::Service, s),
                                    first_of(
                                        fixed("rpc"@, Lexeme::Rpc, s),
                                        first_of(
                                            fixed("returns"@, Lexeme::Returns, s),
                                            first_of(
                                                fixed("stream"@, Lexeme::Stream, s),
                                                fixed(";"@, Lexeme::Semicolon, s),
                                            ),
                                        ),
                                    ),
                                ),
                            ),
                        ),
                    ),
                ),
            ),
        ),
    )
}

/// The first token of `s` and the text that follows it; `None` where `s` is
/// empty or begins with no token.
pub open spec fn next_token(s: Seq<char>) -> Option<(Seq<char>, Lexeme)> {
    if s.len() == 0 {
        None
    } else if fixed_token(s) is Some {
        fixed_token(s)
    } else {
        match string_literal(s) {
            Ok((rest, text)) => Some((rest, Lexeme::Literal(text))),
            Err(_) => match ws(|i: Seq<char>| word(i), s) {
                Ok((rest, text)) => Some((rest, Lexeme::Ident(text))),
                Err(_) => None,
            },
        }
    }
}

/// The tokens of `s`, up to the end or to the first place where no token
/// begins.
pub open spec fn all_tokens(s: Seq<char>) -> Seq<Lexeme>
    decreases s.len(),
{
    match next_token(s) {
        Some((rest, lexeme)) => if rest.len() < s.len() {
            seq![lexeme] + all_tokens(rest)
        } else {
            Seq::empty()
        },
        None => Seq::empty(),
    }
}

/// Every token takes at least one character.
pub proof fn lemma_next_token_advances(s: Seq<char>)
    ensures
        next_token(s) matches Some((rest, _)) ==> rest.len() < s.len(),
{
    reveal_strlit("{");
    reveal_strlit("}");
    reveal_strlit("(");
    reveal_strlit(")");
    reveal_strlit("=");
    reveal_strlit(";");
    reveal_strlit("syntax");
    reveal_strlit("message");
    reveal_strlit("service");
    reveal_strlit("rpc");
    reveal_strlit("returns");
    reveal_strlit("stream");
    lemma_token("{"@, s);
    lemma_token("}"@, s);
    lemma_token("("@, s);
    lemma_token(")"@, s);
    lemma_token("="@, s);
    lemma_token(";"@, s);
    lemma_token("syntax"@, s);
    lemma_token("message"@, s);
    lemma_token("service"@, s);
    lemma_token("rpc"@, s);
    lemma_token("returns"@, s);
    lemma_token("stream"@, s);
    if let Ok((s1, _)) = character('"', s) {
        lemma_run_len_bound(s1, |c: char| !"\""@.contains(c));
    }
    let start = grammar::skip_spaces(s);
    lemma_run_len_bound(start, |c: char| alphanumeric(c));
    lemma_ws(|i: Seq<char>| word(i), s);
}

/// A source to be cut into tokens.
pub struct Tokenizer<'a> {
    input: &'a str,
}

/// The state of a walk over the tokens of a source.
pub struct TokenizerIterator<'a> {
    input: &'a str,
}

impl<'a> View for Tokenizer<'a> {
    type V = Seq<char>;

    /// The source.
    closed spec fn view(&self) -> Seq<char> {
        self.input@
    }
}

impl<'a> View for TokenizerIterator<'a> {
    type V = Seq<char>;

    /// The part of the source that has not been read.
    closed spec fn view(&self) -> Seq<char> {
        self.input@
    }
}

/// A string literal at the front of `input`.
fn quoted<'a>(input: &'a str) -> (r: ParseResult<'a, &'a str>)
    ensures
        outcome(r) == string_literal(input@),
{
    let rest = match scan::char('"', input) {
        Some(rest) => rest,
        None => {
            return Err(ParseError::NoMatch);
        },
    };
    let (rest, text) = match scan::is_not("\"", rest) {
        Some((after, found)) => {
            proof {
                lemma_longest_run(found@, after@, rest@, |c: char| !"\""@.contains(c));
            }
            (after, found)
        },
        None => {
            return Err(ParseError::NoMatch);
        },
    };
    match scan::char('"', rest) {
        Some(rest) => Ok((rest, text)),
        None => Err(ParseError::NoMatch),
    }
}

/// One or more alphanumeric characters at the front of `input`.
fn alphanumerics<'a>(input: &'a str) -> (r: ParseResult<'a, &'a str>)
    ensures
        outcome(r) == word(input@),
{
    match scan::take_while1(scan::is_alphanumeric, input) {
        Some((rest, found)) => {
            proof {
                assert(found@[0] == input@[0]);
                lemma_longest_run(found@, rest@, input@, |c: char| alphanumeric(c));
            }
            Ok((rest, found))
        },
        None => Err(ParseError::NoMatch),
    }
}

impl<'a> Tokenizer<'a> {
    /// A tokenizer for the source `input`.
    pub fn new(input: &'a str) -> (tokenizer: Self)
        ensures
            tokenizer@ == input@,
    {
        Self { input }
    }

    /// Starts a walk over the tokens, at the front of the source.
    pub fn into_iter(self) -> (walk: TokenizerIterator<'a>)
        ensures
            walk@ == self@,
    {
        TokenizerIterator { input: self.input }
    }

    /// All tokens of the source, up to its end or to the first place where no
    /// token begins.
    pub fn tokens(self) -> (all: Vec<Token>)
        ensures
            all.deep_view() == all_tokens(self@),
    {
        let mut walk = self.into_iter();
        let mut all: Vec<Token> = Vec::new();
        assert(all.deep_view() =~= Seq::empty());
        loop
            invariant
                all.deep_view() + all_tokens(walk@) == all_tokens(self@),
            decreases walk@.len(),
        {
            let ghost before = walk@;
            proof {
                lemma_next_token_advances(before);
            }
            match walk.next() {
                Some(found) => {
                    let ghost held = all.deep_view();
                    let ghost added = found.deep_view();
                    all.push(found);
                    assert(all.deep_view() =~= held.push(added));
                    assert(held.push(added) + all_tokens(walk@) =~= held + all_tokens(before));
                },
                None => {
                    assert(all.deep_view() + Seq::empty() =~= all.deep_view());
                    return all;
                },
            }
        }
    }
}

impl<'a> TokenizerIterator<'a> {
    /// Takes `rest` as the text still to be read and hands `found` on.
    fn take(&mut self, rest: &'a str, found: Token) -> (r: Option<Token>)
        ensures
            final(self)@ == rest@,
            r == Some(found),
    {
        self.input = rest;
        Some(found)
    }

    /// The punctuation mark or keyword at the front of the text.
    fn next_fixed(&mut self) -> (r: Option<Token>)
        ensures
            match fixed_token(old(self)@) {
                Some((rest, lexeme)) => r matches Some(found) && found.deep_view() == lexeme
                    && final(self)@ == rest,
                None => r is None && final(self)@ == old(self)@,
            },
    {
        if let Ok((rest, _)) = super::parser::token("{", self.input) {
            return self.take(rest, Token::OpenBrace);
        }
        if let Ok((rest, _)) = super::parser::token("}", self.input) {
            return self.take(rest, Token::CloseBrace);
        }
        if let Ok((rest, _)) = super::parser::token("(", self.input) {
            return self.take(rest, Token::OpenParens);
        }
        if let Ok((rest, _)) = super::parser::token(")", self.input) {
            return self.take(rest, Token::CloseParens);
        }
        if let Ok((rest, _)) = super::parser::token("=", self.input) {
            return self.take(rest, Token::Equals);
        }
        if let Ok((rest, _)) = super::parser::token("syntax", self.input) {
            return self.take(rest, Token::Syntax);
        }
        if let Ok((rest, _)) = super::parser::token("message", self.input) {
            return self.take(rest, Token::Message);
        }
        if let Ok((rest, _)) = super::parser::token("service", self.input) {
            return self.take(rest, Token::Service);
        }
        if let Ok((rest, _)) = super::parser::token("rpc", self.input) {
            return self.take(rest, Token::Rpc);
        }
        if let Ok((rest, _)) = super::parser::token("returns", self.input) {
            return self.take(rest, Token::Returns);
        }
        if let Ok((rest, _)) = super::parser::token("stream", self.input) {
            return self.take(rest, Token::Stream);
        }
        if let Ok((rest, _)) = super::parser::token(";", self.input) {
            return self.take(rest, Token::Semicolon);
        }
        None
    }

    /// The next token, and moves past it and the whitespace around it.
    /// Returns `None`, and stays in place, at the end of the source and where
    /// no token begins.
    pub fn next(&mut self) -> (r: Option<Token>)
        ensures
            match next_token(old(self)@) {
                Some((rest, lexeme)) => r matches Some(found) && found.deep_view() == lexeme
                    && final(self)@ == rest,
                None => r is None && final(self)@ == old(self)@,
            },
    {
        if self.input.is_empty() {
            return None;
        }
        if let Some(found) = self.next_fixed() {
            return Some(found);
        }
        if let Ok((rest, text)) = quoted(self.input) {
            return self.take(rest, Token::Literal(Literal::String(text.to_owned())));
        }
        if let Ok((rest, text)) = super::parser::ws(alphanumerics, self.input) {
            return self.take(rest, Token::Ident(text.to_owned()));
        }
        None
    }
}

} // verus!
