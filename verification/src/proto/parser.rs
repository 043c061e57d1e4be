//! The parsers: one function for each rule of the language.
//!
//! A parser takes the text to read and returns the text that is left with the
//! value it read, or an error. Its contract says that this is the outcome
//! that the grammar gives for the same text. Characters are taken from the
//! input by the scanners of `nom`; how the scanners are put together into
//! rules is proved here.
//!
//! Two matters that the grammar leaves open are settled as follows. Text
//! between the braces of a message or a service that is no field or method
//! is not dropped: the closing brace is then not reached, the statement does
//! not match, and `parse` fails on it. The syntax version between quotes is
//! `proto2` or `proto3` and nothing else, so the parser never produces
//! `SyntaxDescriptor::Unknown`.

use vstd::prelude::*;
use vstd::string::StringExecFns;
use super::descriptor::{
    FieldDescriptor, FieldDescriptorLabel, FieldDescriptorType, FileDescriptor, MessageDescriptor,
    MethodDescriptor, ServiceDescriptor, SyntaxDescriptor,
};
use super::grammar;
use super::grammar::{Failure, Outcome, Statement};
use super::lemmas::{
    after, lemma_longest_run, lemma_many0_step, lemma_message_field, lemma_service_method,
    lemma_statements_step, prepend,
};
use super::scan;
use crate::text::{is_remainder_of, lemma_remainder_step, lemma_split, span_before, str_eq};

verus! {

/// Why a parser returned no value.
#[derive(Debug, PartialEq, Clone)]
pub enum ParseError<'a> {
    /// The rule does not apply at this position.
    NoMatch,
    /// A field was recognised, but the text of its number is no `u32`. Holds
    /// that text.
    MalformedFieldNumber(&'a str),
    /// No statement begins at the text that is left. Holds that text.
    UnexpectedInput(&'a str),
}

impl<'a> View for ParseError<'a> {
    type V = Failure;

    open spec fn view(&self) -> Failure {
        match *self {
            ParseError::NoMatch => Failure::NoMatch,
            ParseError::MalformedFieldNumber(text) => Failure::MalformedFieldNumber(text@),
            ParseError::UnexpectedInput(text) => Failure::UnexpectedInput(text@),
        }
    }
}

impl<'a> ParseError<'a> {
    /// The error in words, for a person to read.
    pub fn message(&self) -> (text: String)
        ensures
            text@ == self@.message(),
    {
        match self {
            ParseError::NoMatch => String::from_str("No match"),
            ParseError::MalformedFieldNumber(number) => String::from_str(
                "Malformed field number ",
            ).concat(number),
            ParseError::UnexpectedInput(remaining) => String::from_str(
                "Unexpected characters ",
            ).concat(remaining),
        }
    }
}

/// What a parser returns: the text left over and the value read, or an error.
pub type ParseResult<'a, T> = Result<(&'a str, T), ParseError<'a>>;

/// The model of a parser's result.
pub open spec fn outcome<'a, T: DeepView>(r: ParseResult<'a, T>) -> Outcome<T::V> {
    match r {
        Ok((rest, value)) => Ok((rest@, value.deep_view())),
        Err(e) => Err(e@),
    }
}

/// True when `r` is `inner` with the whitespace dropped that its left-over
/// text begins with.
pub open spec fn is_trimmed<'a, O>(r: ParseResult<'a, O>, inner: ParseResult<'a, O>) -> bool {
    match (inner, r) {
        (Ok((mid, read)), Ok((rest, value))) => value == read && rest@ == grammar::skip_spaces(
            mid@,
        ),
        (Err(cause), Err(e)) => e == cause,
        _ => false,
    }
}

/// Runs `inner` after the whitespace that `input` begins with, and drops the
/// whitespace that follows what `inner` read: the result is what `inner`
/// returns for the input without its leading whitespace, and where that is a
/// value, the text left over has lost its leading whitespace too.
pub fn ws<'a, O, F>(inner: F, input: &'a str) -> (r: ParseResult<'a, O>) where
    F: Fn(&'a str) -> ParseResult<'a, O>,

    requires
        forall|start: &'a str|
            start@ == grammar::skip_spaces(input@) ==> call_requires(inner, (start,)),
    ensures
        exists|start: &'a str, got: ParseResult<'a, O>|
            start@ == grammar::skip_spaces(input@) && #[trigger] call_ensures(
                inner,
                (start,),
                got,
            ) && is_trimmed(r, got),
{
    let start = skip_whitespace(input);
    let got = inner(start);
    let ghost seen = got;
    let r = match got {
        Ok((mid, value)) => Ok((skip_whitespace(mid), value)),
        Err(e) => Err(e),
    };
    assert(call_ensures(inner, (start,), seen) && is_trimmed(r, seen));
    r
}

/// `input` without the whitespace that it begins with.
fn skip_whitespace<'a>(input: &'a str) -> (rest: &'a str)
    ensures
        rest@ == grammar::skip_spaces(input@),
{
    match scan::multispace0(input) {
        Some((rest, found)) => {
            proof {
                lemma_longest_run(found@, rest@, input@, |c: char| grammar::is_space(c));
            }
            rest
        },
        None => input,
    }
}

/// The fixed text `word` at the front of `input`.
fn literal<'a>(word: &str, input: &'a str) -> (r: ParseResult<'a, &'a str>)
    ensures
        outcome(r) == grammar::tag(word@, input@),
{
    match scan::tag(word, input) {
        Some((rest, found)) => Ok((rest, found)),
        None => Err(ParseError::NoMatch),
    }
}

/// The fixed text `word`, with whitespace allowed around it.
pub fn token<'a>(word: &str, input: &'a str) -> (r: ParseResult<'a, &'a str>)
    ensures
        outcome(r) == grammar::token(word@, input@),
{
    let inner = |i: &'a str| -> (m: ParseResult<'a, &'a str>)
        ensures
            outcome(m) == grammar::tag(word@, i@),
        { literal(word, i) };
    ws(inner, input)
}

/// One piece of an identifier at the front of `input`: a run of letters, and
/// of digits too where `digits` is set, or else a single underscore. Returns
/// what follows the piece.
fn identifier_piece<'a>(digits: bool, input: &'a str) -> (r: Option<&'a str>)
    ensures
        r is Some <==> input@.len() > 0 && if digits {
            grammar::is_identifier_part(input@[0])
        } else {
            grammar::is_identifier_start(input@[0])
        },
        r matches Some(rest) ==> {
            &&& is_remainder_of(rest@, input@)
            &&& rest@.len() < input@.len()
            &&& forall|i: int|
                0 <= i < input@.len() - rest@.len() ==> grammar::is_identifier_part(
                    #[trigger] input@[i],
                )
        },
{
    let run = if digits {
        scan::alphanumeric1(input)
    } else {
        scan::alpha1(input)
    };
    match run {
        Some((rest, found)) => {
            proof {
                lemma_split(found@, rest@, input@);
            }
            Some(rest)
        },
        None => {
            proof {
                reveal_strlit("_");
            }
            match scan::tag("_", input) {
                Some((rest, found)) => {
                    proof {
                        assert(found@ + rest@ =~= input@);
                        lemma_split(found@, rest@, input@);
                    }
                    Some(rest)
                },
                None => {
                    assert(input@.len() > 0 && input@[0] == '_' ==> "_"@.is_prefix_of(input@));
                    None
                },
            }
        },
    }
}

/// An identifier: a letter or an underscore, followed by letters, digits and
/// underscores. Returns the identifier and leaves what follows it untouched.
pub fn identifier<'a>(input: &'a str) -> (r: ParseResult<'a, &'a str>)
    ensures
        outcome(r) == grammar::identifier(input@),
{
    let mut rest = match identifier_piece(false, input) {
        Some(rest) => rest,
        None => {
            return Err(ParseError::NoMatch);
        },
    };
    loop
        invariant
            is_remainder_of(rest@, input@),
            rest@.len() < input@.len(),
            grammar::is_identifier_start(input@[0]),
            forall|i: int|
                0 <= i < input@.len() - rest@.len() ==> grammar::is_identifier_part(
                    #[trigger] input@[i],
                ),
        ensures
            rest@.len() > 0 ==> !grammar::is_identifier_part(rest@[0]),
        decreases rest@.len(),
    {
        match identifier_piece(true, rest) {
            Some(after) => {
                proof {
                    lemma_remainder_step(after@, rest@, input@);
                }
                rest = after;
            },
            None => {
                break;
            },
        }
    }
    let name = span_before(input, rest);
    proof {
        assert(name@ + rest@ =~= input@);
        lemma_split(name@, rest@, input@);
        lemma_longest_run(
            name@,
            rest@,
            input@,
            |c: char| grammar::is_identifier_part(c),
        );
    }
    Ok((rest, name))
}

/// The character `c` at the front of `input`.
fn character<'a>(c: char, input: &'a str) -> (r: ParseResult<'a, char>)
    ensures
        outcome(r) == grammar::character(c, input@),
{
    match scan::char(c, input) {
        Some(rest) => Ok((rest, c)),
        None => Err(ParseError::NoMatch),
    }
}

/// The syntax version between double quotes: `"proto2"` or `"proto3"`.
/// Returns the version without the quotes. Any other text between quotes is
/// no match.
pub fn syntax_literal<'a>(input: &'a str) -> (r: ParseResult<'a, &'a str>)
    ensures
        outcome(r) == grammar::syntax_literal(input@),
{
    let (rest, _) = character('"', input)?;
    let (rest, version) = match literal("proto2", rest) {
        Ok(found) => found,
        Err(_) => literal("proto3", rest)?,
    };
    let (rest, _) = character('"', rest)?;
    Ok((rest, version))
}

/// The statement `syntax = "proto2";` or `syntax = "proto3";`, with
/// whitespace allowed around each of its parts but not within the quotes.
pub fn syntax<'a>(input: &'a str) -> (r: ParseResult<'a, SyntaxDescriptor<'a>>)
    ensures
        outcome(r) == grammar::syntax(input@),
{
    let (rest, _) = token("syntax", input)?;
    let (rest, _) = token("=", rest)?;
    let (rest, version) = syntax_literal(rest)?;
    let (rest, _) = token(";", rest)?;
    let descriptor = if str_eq(version, "proto2") {
        SyntaxDescriptor::Proto2
    } else if str_eq(version, "proto3") {
        SyntaxDescriptor::Proto3
    } else {
        SyntaxDescriptor::Unknown(version)
    };
    Ok((rest, descriptor))
}

/// A prefix of a text of digits stands for no larger a number than the text.
proof fn lemma_decimal_prefix(text: Seq<char>, n: int)
    requires
        0 <= n <= text.len(),
    ensures
        grammar::decimal(text.take(n)) <= grammar::decimal(text),
    decreases text.len() - n,
{
    if n == text.len() {
        assert(text.take(n) =~= text);
    } else {
        assert(text.drop_last().take(n) =~= text.take(n));
        lemma_decimal_prefix(text.drop_last(), n);
    }
}

/// The number of a field from its text: `Some` for one or more decimal
/// digits whose value fits `u32`, `None` for any other text.
pub fn field_number(text: &str) -> (r: Option<u32>)
    ensures
        r == grammar::field_number(text@),
{
    broadcast use vstd::string::is_ascii_spec_bytes;

    if !text.is_ascii() {
        assert(grammar::field_number(text@) is None);
        return None;
    }
    let bytes = text.as_bytes();
    if bytes.len() == 0 {
        return None;
    }
    let mut value: u32 = 0;
    let mut i: usize = 0;
    while i < bytes.len()
        invariant
            i <= bytes@.len(),
            bytes@.len() == text@.len(),
            forall|j: int| 0 <= j < bytes@.len() ==> bytes@[j] == #[trigger] text@[j] as u8,
            forall|j: int| 0 <= j < text@.len() ==> '\0' <= #[trigger] text@[j] <= '\u{7f}',
            forall|j: int| 0 <= j < i ==> grammar::is_digit(#[trigger] text@[j]),
            value == grammar::decimal(text@.take(i as int)),
        decreases bytes@.len() - i,
    {
        let b = bytes[i];
        if b < 48 || b > 57 {
            assert(!grammar::is_digit(text@[i as int]));
            return None;
        }
        let digit: u32 = (b - 48) as u32;
        proof {
            let longer = text@.take(i + 1);
            assert(longer.drop_last() =~= text@.take(i as int));
            assert(longer.last() == text@[i as int]);
            assert(grammar::decimal(longer) == value * 10 + digit);
            lemma_decimal_prefix(text@, i + 1);
        }
        if value > (u32::MAX - digit) / 10 {
            return None;
        }
        value = value * 10 + digit;
        i += 1;
    }
    proof {
        assert(text@.take(i as int) =~= text@);
    }
    Some(value)
}

/// One of the keywords `optional`, `required` and `repeated`, with
/// whitespace allowed around it.
pub fn message_field_label<'a>(input: &'a str) -> (r: ParseResult<'a, FieldDescriptorLabel<'a>>)
    ensures
        outcome(r) == grammar::message_field_label(input@),
{
    let (rest, keyword) = match token("optional", input) {
        Ok(found) => found,
        Err(_) => match token("required", input) {
            Ok(found) => found,
            Err(_) => token("repeated", input)?,
        },
    };
    let descriptor = if str_eq(keyword, "optional") {
        FieldDescriptorLabel::Optional
    } else if str_eq(keyword, "required") {
        FieldDescriptorLabel::Required
    } else if str_eq(keyword, "repeated") {
        FieldDescriptorLabel::Repeated
    } else {
        FieldDescriptorLabel::Unknown(keyword)
    };
    Ok((rest, descriptor))
}

/// The type of a field, with whitespace allowed around it: the identifier
/// `string`, or any other identifier as the name of a message. The name is
/// not looked up.
pub fn message_field_type<'a>(input: &'a str) -> (r: ParseResult<'a, FieldDescriptorType<'a>>)
    ensures
        outcome(r) == grammar::message_field_type(input@),
{
    let (rest, name) = ws(identifier, input)?;
    let descriptor = if str_eq(name, "string") {
        FieldDescriptorType::String
    } else {
        FieldDescriptorType::Message(name)
    };
    Ok((rest, descriptor))
}

/// The text of a field's number: the alphanumeric characters at the front of
/// `input`, of which there may be none.
fn number_text<'a>(input: &'a str) -> (r: ParseResult<'a, &'a str>)
    ensures
        outcome(r) == grammar::number_text(input@),
{
    match scan::take_while(scan::is_alphanumeric, input) {
        Some((rest, found)) => {
            proof {
                lemma_longest_run(
                    found@,
                    rest@,
                    input@,
                    |c: char| scan::alphanumeric(c),
                );
            }
            Ok((rest, found))
        },
        None => Err(ParseError::NoMatch),
    }
}

/// A field of a message: `label? type name = number ;`.
///
/// Where the text has this shape through the semicolon but the number is no
/// `u32`, the error is `MalformedFieldNumber` with the text of the number;
/// where the text has another shape, it is `NoMatch`.
pub fn message_field<'a>(input: &'a str) -> (r: ParseResult<'a, FieldDescriptor<'a>>)
    ensures
        outcome(r) == grammar::message_field(input@),
{
    let (rest, label) = match message_field_label(input) {
        Ok((rest, label)) => (rest, Some(label)),
        Err(_) => (input, None),
    };
    let (rest, typ) = message_field_type(rest)?;
    let (rest, name) = ws(identifier, rest)?;
    let (rest, _) = token("=", rest)?;
    let (rest, digits) = number_text(rest)?;
    let (rest, _) = token(";", rest)?;
    match field_number(digits) {
        Some(number) => Ok((rest, FieldDescriptor { label, typ, name, number })),
        None => Err(ParseError::MalformedFieldNumber(digits)),
    }
}

/// The fields at the front of `input`, as many as there are. A field with a
/// malformed number is an error; text that is no field ends the list.
fn message_fields<'a>(input: &'a str) -> (r: ParseResult<'a, Vec<FieldDescriptor<'a>>>)
    ensures
        outcome(r) == grammar::many0(|i: Seq<char>| grammar::message_field(i), input@),
{
    let ghost item = |i: Seq<char>| grammar::message_field(i);
    let mut fields: Vec<FieldDescriptor<'a>> = Vec::new();
    let mut rest = input;
    assert(fields.deep_view() =~= Seq::empty());
    loop
        invariant
            item == |i: Seq<char>| grammar::message_field(i),
            prepend(fields.deep_view(), grammar::many0(item, rest@)) == grammar::many0(
                item,
                input@,
            ),
        decreases rest@.len(),
    {
        match message_field(rest) {
            Ok((next, field)) => {
                proof {
                    lemma_message_field(rest@);
                    lemma_many0_step(item, fields.deep_view(), rest@);
                }
                let ghost before = fields.deep_view();
                let ghost added = field.deep_view();
                fields.push(field);
                assert(fields.deep_view() =~= before.push(added));
                rest = next;
            },
            Err(ParseError::NoMatch) => {
                assert(fields.deep_view() + Seq::empty() =~= fields.deep_view());
                return Ok((rest, fields));
            },
            Err(e) => {
                return Err(e);
            },
        }
    }
}

/// A message: `message name { field* }`.
///
/// Text between the braces that is no field keeps the closing brace from
/// matching: the message is then no match, and nothing of it is returned.
pub fn message<'a>(input: &'a str) -> (r: ParseResult<'a, MessageDescriptor<'a>>)
    ensures
        outcome(r) == grammar::message(input@),
{
    let (rest, _) = token("message", input)?;
    let (rest, name) = identifier(rest)?;
    let (rest, _) = token("{", rest)?;
    let (rest, fields) = message_fields(rest)?;
    let (rest, _) = token("}", rest)?;
    Ok((rest, MessageDescriptor { name, fields }))
}

/// The type of a request or of a response: `( stream? name )`. Returns
/// whether `stream` stands before the name, and the name.
pub fn service_method_type<'a>(input: &'a str) -> (r: ParseResult<'a, (bool, &'a str)>)
    ensures
        outcome(r) == grammar::service_method_type(input@),
{
    let (rest, _) = token("(", input)?;
    let (rest, streaming) = match token("stream", rest) {
        Ok((rest, _)) => (rest, true),
        Err(_) => (rest, false),
    };
    let (rest, name) = ws(identifier, rest)?;
    let (rest, _) = token(")", rest)?;
    Ok((rest, (streaming, name)))
}

/// A method of a service: `rpc name (request) returns (response) ;`.
pub fn service_method<'a>(input: &'a str) -> (r: ParseResult<'a, MethodDescriptor<'a>>)
    ensures
        outcome(r) == grammar::service_method(input@),
{
    let (rest, _) = token("rpc", input)?;
    let (rest, name) = ws(identifier, rest)?;
    let (rest, request) = service_method_type(rest)?;
    let (rest, _) = token("returns", rest)?;
    let (rest, response) = service_method_type(rest)?;
    let (rest, _) = token(";", rest)?;
    let (client_streaming, input_type) = request;
    let (server_streaming, output_type) = response;
    Ok(
        (
            rest,
            MethodDescriptor { name, input_type, output_type, client_streaming, server_streaming },
        ),
    )
}

/// The methods at the front of `input`, as many as there are.
fn service_methods<'a>(input: &'a str) -> (r: ParseResult<'a, Vec<MethodDescriptor<'a>>>)
    ensures
        outcome(r) == grammar::many0(|i: Seq<char>| grammar::service_method(i), input@),
{
    let ghost item = |i: Seq<char>| grammar::service_method(i);
    let mut methods: Vec<MethodDescriptor<'a>> = Vec::new();
    let mut rest = input;
    assert(methods.deep_view() =~= Seq::empty());
    loop
        invariant
            item == |i: Seq<char>| grammar::service_method(i),
            prepend(methods.deep_view(), grammar::many0(item, rest@)) == grammar::many0(
                item,
                input@,
            ),
        decreases rest@.len(),
    {
        match service_method(rest) {
            Ok((next, method)) => {
                proof {
                    lemma_service_method(rest@);
                    lemma_many0_step(item, methods.deep_view(), rest@);
                }
                let ghost before = methods.deep_view();
                let ghost added = method.deep_view();
                methods.push(method);
                assert(methods.deep_view() =~= before.push(added));
                rest = next;
            },
            Err(ParseError::NoMatch) => {
                assert(methods.deep_view() + Seq::empty() =~= methods.deep_view());
                return Ok((rest, methods));
            },
            Err(e) => {
                return Err(e);
            },
        }
    }
}

/// A service: `service name { method* }`.
pub fn service<'a>(input: &'a str) -> (r: ParseResult<'a, ServiceDescriptor<'a>>)
    ensures
        outcome(r) == grammar::service(input@),
{
    let (rest, _) = token("service", input)?;
    let (rest, name) = identifier(rest)?;
    let (rest, _) = token("{", rest)?;
    let (rest, methods) = service_methods(rest)?;
    let (rest, _) = token("}", rest)?;
    Ok((rest, ServiceDescriptor { name, methods }))
}

/// Reads the whole of `input` as a file named `file_name`.
///
/// At each place the statements are tried in a fixed order: syntax, then
/// message, then service. A later syntax statement replaces an earlier one;
/// messages and services are kept in the order of the source. The first
/// place at which none of the three begins ends the parse with
/// `UnexpectedInput` and the text from that place on; a field whose number is
/// no `u32` ends it with `MalformedFieldNumber`. No part of a file that fails
/// is returned.
pub fn parse<'a>(file_name: &'a str, input: &'a str) -> (r: Result<
    FileDescriptor<'a>,
    ParseError<'a>,
>)
    ensures
        match grammar::file(file_name@, input@) {
            Ok(file) => r matches Ok(descriptor) && descriptor@ == file,
            Err(failure) => r matches Err(e) && e@ == failure,
        },
{
    let mut file_syntax: Option<SyntaxDescriptor<'a>> = None;
    let mut messages: Vec<MessageDescriptor<'a>> = Vec::new();
    let mut services: Vec<ServiceDescriptor<'a>> = Vec::new();
    let ghost mut read: Seq<Statement> = Seq::empty();
    let mut remaining = input;
    assert(messages.deep_view() =~= Seq::empty());
    assert(services.deep_view() =~= Seq::empty());
    while !remaining.is_empty()
        invariant
            after(read, grammar::statements(remaining@)) == grammar::statements(input@),
            file_syntax.deep_view() == grammar::last_syntax(read),
            messages.deep_view() == grammar::messages_of(read),
            services.deep_view() == grammar::services_of(read),
        decreases remaining@.len(),
    {
        let ghost before = read;
        if let Ok((rest, version)) = syntax(remaining) {
            proof {
                lemma_statements_step(read, remaining@);
                read = read.push(Statement::Syntax(version.deep_view()));
                assert(read.drop_last() =~= before);
            }
            file_syntax = Some(version);
            remaining = rest;
        } else {
            match message(remaining) {
                Ok((rest, found)) => {
                    proof {
                        lemma_statements_step(read, remaining@);
                        read = read.push(Statement::Message(found.deep_view()));
                        assert(read.drop_last() =~= before);
                    }
                    let ghost held = messages.deep_view();
                    let ghost added = found.deep_view();
                    messages.push(found);
                    assert(messages.deep_view() =~= held.push(added));
                    remaining = rest;
                },
                Err(ParseError::MalformedFieldNumber(text)) => {
                    return Err(ParseError::MalformedFieldNumber(text));
                },
                Err(_) => {
                    match service(remaining) {
                        Ok((rest, found)) => {
                            proof {
                                lemma_statements_step(read, remaining@);
                                read = read.push(Statement::Service(found.deep_view()));
                                assert(read.drop_last() =~= before);
                            }
                            let ghost held = services.deep_view();
                            let ghost added = found.deep_view();
                            services.push(found);
                            assert(services.deep_view() =~= held.push(added));
                            remaining = rest;
                        },
                        Err(_) => {
                            return Err(ParseError::UnexpectedInput(remaining));
                        },
                    }
                },
            }
        }
    }
    proof {
        assert(read + Seq::empty() =~= read);
    }
    Ok(FileDescriptor { name: file_name, syntax: file_syntax, messages, services })
}

} // verus!
