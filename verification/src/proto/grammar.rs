//! The language, written as functions on character sequences.
//!
//! A rule is a function from the text to read to an [`Outcome`]: the text
//! left over and the value read, or the reason why there is none. The values
//! are the mathematical counterparts of the descriptors.

use vstd::prelude::*;
use super::scan::alphanumeric;

verus! {

/// Why a rule did not produce a value.
pub enum Failure {
    /// The rule does not apply at this position.
    NoMatch,
    /// A field was recognised, but the text of its number is no `u32`.
    MalformedFieldNumber(Seq<char>),
    /// No statement begins at the text that is left.
    UnexpectedInput(Seq<char>),
}

impl Failure {
    /// The failure in words.
    pub open spec fn message(self) -> Seq<char> {
        match self {
            Failure::NoMatch => "No match"@,
            Failure::MalformedFieldNumber(text) => "Malformed field number "@ + text,
            Failure::UnexpectedInput(text) => "Unexpected characters "@ + text,
        }
    }
}

/// What a rule makes of an input: the text left over and the value read, or
/// the reason why there is none.
pub type Outcome<T> = Result<(Seq<char>, T), Failure>;

/// The declared syntax version.
pub enum Syntax {
    Proto2,
    Proto3,
    Unknown(Seq<char>),
}

/// The qualifier in front of a field.
pub enum Label {
    Optional,
    Required,
    Repeated,
    Unknown(Seq<char>),
}

/// The type of a field: a string, or a message with the given name.
pub enum Type {
    String,
    Message(Seq<char>),
}

/// A field of a message.
pub struct Field {
    pub label: Option<Label>,
    pub typ: Type,
    pub name: Seq<char>,
    pub number: u32,
}

/// A message with its fields in the order of the source.
pub struct Message {
    pub name: Seq<char>,
    pub fields: Seq<Field>,
}

/// A method of a service.
pub struct Method {
    pub name: Seq<char>,
    pub input_type: Seq<char>,
    pub output_type: Seq<char>,
    pub client_streaming: bool,
    pub server_streaming: bool,
}

/// A service with its methods in the order of the source.
pub struct Service {
    pub name: Seq<char>,
    pub methods: Seq<Method>,
}

/// One statement at the top level of a file.
pub enum Statement {
    Syntax(Syntax),
    Message(Message),
    Service(Service),
}

/// A file: the last syntax version declared, and the messages and services
/// in the order of the source.
pub struct File {
    pub name: Seq<char>,
    pub syntax: Option<Syntax>,
    pub messages: Seq<Message>,
    pub services: Seq<Service>,
}

/// A space, a tab, a carriage return or a line feed.
pub open spec fn is_space(c: char) -> bool {
    c == ' ' || c == '\t' || c == '\r' || c == '\n'
}

/// An ASCII letter.
pub open spec fn is_letter(c: char) -> bool {
    ('a' <= c && c <= 'z') || ('A' <= c && c <= 'Z')
}

/// An ASCII digit.
pub open spec fn is_digit(c: char) -> bool {
    '0' <= c && c <= '9'
}

/// An ASCII letter or digit.
pub open spec fn is_letter_or_digit(c: char) -> bool {
    is_letter(c) || is_digit(c)
}

/// How many characters at the front of `s` satisfy `member`.
pub open spec fn run_len(s: Seq<char>, member: spec_fn(char) -> bool) -> nat
    decreases s.len(),
{
    if s.len() > 0 && member(s[0]) {
        1 + run_len(s.skip(1), member)
    } else {
        0
    }
}

/// True when `found` is the longest prefix of `input` made of characters
/// that satisfy `member`, and `rest` is what follows it.
pub open spec fn is_longest_run(
    found: Seq<char>,
    rest: Seq<char>,
    input: Seq<char>,
    member: spec_fn(char) -> bool,
) -> bool {
    &&& found + rest == input
    &&& forall|i: int| 0 <= i < found.len() ==> member(#[trigger] found[i])
    &&& rest.len() > 0 ==> !member(rest[0])
}

/// How many whitespace characters `s` begins with.
pub open spec fn spaces(s: Seq<char>) -> nat {
    run_len(s, |c: char| is_space(c))
}

/// `s` without the whitespace that it begins with.
pub open spec fn skip_spaces(s: Seq<char>) -> Seq<char> {
    s.skip(spaces(s) as int)
}

/// The fixed text `word`.
pub open spec fn tag(word: Seq<char>, s: Seq<char>) -> Outcome<Seq<char>> {
    if word.is_prefix_of(s) {
        Ok((s.skip(word.len() as int), word))
    } else {
        Err(Failure::NoMatch)
    }
}

/// The rule `inner` with whitespace allowed before it and after it.
pub open spec fn ws<T>(inner: spec_fn(Seq<char>) -> Outcome<T>, s: Seq<char>) -> Outcome<T> {
    match inner(skip_spaces(s)) {
        Ok((rest, value)) => Ok((skip_spaces(rest), value)),
        Err(e) => Err(e),
    }
}

/// The fixed text `word`, with whitespace allowed around it.
pub open spec fn token(word: Seq<char>, s: Seq<char>) -> Outcome<Seq<char>> {
    ws(|i: Seq<char>| tag(word, i), s)
}

/// A character that an identifier may begin with.
pub open spec fn is_identifier_start(c: char) -> bool {
    is_letter(c) || c == '_'
}

/// A character that an identifier may go on with.
pub open spec fn is_identifier_part(c: char) -> bool {
    is_letter_or_digit(c) || c == '_'
}

/// True when `name` is an identifier from its first character to its last.
pub open spec fn is_identifier(name: Seq<char>) -> bool {
    &&& name.len() > 0
    &&& is_identifier_start(name[0])
    &&& forall|i: int| 0 <= i < name.len() ==> is_identifier_part(#[trigger] name[i])
}

impl Field {
    /// The field's name is an identifier, so is the name of its message
    /// type, and its label is one of the three keywords.
    pub open spec fn is_well_formed(self) -> bool {
        &&& is_identifier(self.name)
        &&& self.typ matches Type::Message(name) ==> is_identifier(name)
        &&& self.label matches Some(label) ==> !(label is Unknown)
    }
}

impl Message {
    /// The message's name is an identifier and its fields are well formed.
    pub open spec fn is_well_formed(self) -> bool {
        &&& is_identifier(self.name)
        &&& forall|i: int|
            0 <= i < self.fields.len() ==> (#[trigger] self.fields[i]).is_well_formed()
    }
}

impl Method {
    /// The names of the method, of its request and of its response are
    /// identifiers.
    pub open spec fn is_well_formed(self) -> bool {
        is_identifier(self.name) && is_identifier(self.input_type) && is_identifier(
            self.output_type,
        )
    }
}

impl Service {
    /// The service's name is an identifier and its methods are well formed.
    pub open spec fn is_well_formed(self) -> bool {
        &&& is_identifier(self.name)
        &&& forall|i: int|
            0 <= i < self.methods.len() ==> (#[trigger] self.methods[i]).is_well_formed()
    }
}

impl Statement {
    /// A syntax statement declares a known version; a message or a service
    /// is well formed.
    pub open spec fn is_well_formed(self) -> bool {
        match self {
            Statement::Syntax(version) => !(version is Unknown),
            Statement::Message(m) => m.is_well_formed(),
            Statement::Service(sv) => sv.is_well_formed(),
        }
    }
}

impl File {
    /// Every name in the file is an identifier, and neither the syntax
    /// version nor a label is an unknown one.
    pub open spec fn is_well_formed(self) -> bool {
        &&& self.syntax matches Some(version) ==> !(version is Unknown)
        &&& forall|i: int|
            0 <= i < self.messages.len() ==> (#[trigger] self.messages[i]).is_well_formed()
        &&& forall|i: int|
            0 <= i < self.services.len() ==> (#[trigger] self.services[i]).is_well_formed()
    }
}

/// An identifier: a letter or an underscore, then the longest run of
/// letters, digits and underscores.
pub open spec fn identifier(s: Seq<char>) -> Outcome<Seq<char>> {
    if s.len() > 0 && is_identifier_start(s[0]) {
        let n = run_len(s, |c: char| is_identifier_part(c));
        Ok((s.skip(n as int), s.take(n as int)))
    } else {
        Err(Failure::NoMatch)
    }
}

/// An identifier with whitespace allowed around it.
pub open spec fn spaced_identifier(s: Seq<char>) -> Outcome<Seq<char>> {
    ws(|i: Seq<char>| identifier(i), s)
}

/// The single character `c`.
pub open spec fn character(c: char, s: Seq<char>) -> Outcome<char> {
    if s.len() > 0 && s[0] == c {
        Ok((s.skip(1), c))
    } else {
        Err(Failure::NoMatch)
    }
}

/// The first of two alternatives, or the second where the first fails.
pub open spec fn or_else<T>(first: Outcome<T>, second: Outcome<T>) -> Outcome<T> {
    match first {
        Ok(_) => first,
        Err(_) => second,
    }
}

/// A rule that may be absent: where it fails, nothing of `s` is taken.
pub open spec fn optional<T>(rule: Outcome<T>, s: Seq<char>) -> (Seq<char>, Option<T>) {
    match rule {
        Ok((rest, value)) => (rest, Some(value)),
        Err(_) => (s, None),
    }
}

/// `item` as often as it matches. A failure of `item` other than `NoMatch`
/// is the failure of the whole; an `item` that matches without taking
/// anything is a `NoMatch` of the whole.
pub open spec fn many0<T>(item: spec_fn(Seq<char>) -> Outcome<T>, s: Seq<char>) -> Outcome<Seq<T>>
    decreases s.len(),
{
    match item(s) {
        Ok((rest, value)) => if rest.len() < s.len() {
            match many0(item, rest) {
                Ok((end, values)) => Ok((end, seq![value] + values)),
                Err(e) => Err(e),
            }
        } else {
            Err(Failure::NoMatch)
        },
        Err(Failure::NoMatch) => Ok((s, Seq::empty())),
        Err(e) => Err(e),
    }
}

/// The syntax version between double quotes: `"proto2"` or `"proto3"`, and
/// no other text.
pub open spec fn syntax_literal(s: Seq<char>) -> Outcome<Seq<char>> {
    match character('"', s) {
        Err(e) => Err(e),
        Ok((s1, _)) => match or_else(tag("proto2"@, s1), tag("proto3"@, s1)) {
            Err(e) => Err(e),
            Ok((s2, version)) => match character('"', s2) {
                Err(e) => Err(e),
                Ok((s3, _)) => Ok((s3, version)),
            },
        },
    }
}

/// The syntax version that the text `version` stands for.
pub open spec fn syntax_of(version: Seq<char>) -> Syntax {
    if version == "proto2"@ {
        Syntax::Proto2
    } else if version == "proto3"@ {
        Syntax::Proto3
    } else {
        Syntax::Unknown(version)
    }
}

/// The statement `syntax = "proto2";` or `syntax = "proto3";`.
pub open spec fn syntax(s: Seq<char>) -> Outcome<Syntax> {
    match token("syntax"@, s) {
        Err(e) => Err(e),
        Ok((s1, _)) => match token("="@, s1) {
            Err(e) => Err(e),
            Ok((s2, _)) => match syntax_literal(s2) {
                Err(e) => Err(e),
                Ok((s3, version)) => match token(";"@, s3) {
                    Err(e) => Err(e),
                    Ok((s4, _)) => Ok((s4, syntax_of(version))),
                },
            },
        },
    }
}

/// The label that the text `keyword` stands for.
pub open spec fn label_of(keyword: Seq<char>) -> Label {
    if keyword == "optional"@ {
        Label::Optional
    } else if keyword == "required"@ {
        Label::Required
    } else if keyword == "repeated"@ {
        Label::Repeated
    } else {
        Label::Unknown(keyword)
    }
}

/// One of the keywords `optional`, `required` and `repeated`.
pub open spec fn message_field_label(s: Seq<char>) -> Outcome<Label> {
    match or_else(
        token("optional"@, s),
        or_else(token("required"@, s), token("repeated"@, s)),
    ) {
        Err(e) => Err(e),
        Ok((rest, keyword)) => Ok((rest, label_of(keyword))),
    }
}

/// The type that the identifier `name` stands for.
pub open spec fn type_of(name: Seq<char>) -> Type {
    if name == "string"@ {
        Type::String
    } else {
        Type::Message(name)
    }
}

/// The type of a field: the identifier `string`, or any other identifier as
/// the name of a message.
pub open spec fn message_field_type(s: Seq<char>) -> Outcome<Type> {
    match spaced_identifier(s) {
        Err(e) => Err(e),
        Ok((rest, name)) => Ok((rest, type_of(name))),
    }
}

/// The text of a field's number: the longest run of characters that
/// `char::is_alphanumeric` accepts, which may be empty.
pub open spec fn number_text(s: Seq<char>) -> Outcome<Seq<char>> {
    let n = run_len(s, |c: char| alphanumeric(c));
    Ok((s.skip(n as int), s.take(n as int)))
}

/// The number that a text of decimal digits stands for.
pub open spec fn decimal(text: Seq<char>) -> nat
    decreases text.len(),
{
    if text.len() == 0 {
        0
    } else {
        decimal(text.drop_last()) * 10 + (text.last() as nat - '0' as nat) as nat
    }
}

/// The number of a field, where its text is one: one or more decimal digits
/// whose value fits `u32`.
pub open spec fn field_number(text: Seq<char>) -> Option<u32> {
    if text.len() > 0 && (forall|i: int| 0 <= i < text.len() ==> is_digit(#[trigger] text[i]))
        && decimal(text) <= u32::MAX {
        Some(decimal(text) as u32)
    } else {
        None
    }
}

/// A field: `label? type name = number ;`. The field is recognised by its
/// shape first, through the semicolon; a number that is then no `u32` makes
/// the field malformed.
pub open spec fn message_field(s: Seq<char>) -> Outcome<Field> {
    let (s1, label) = optional(message_field_label(s), s);
    match message_field_type(s1) {
        Err(e) => Err(e),
        Ok((s2, typ)) => match spaced_identifier(s2) {
            Err(e) => Err(e),
            Ok((s3, name)) => match token("="@, s3) {
                Err(e) => Err(e),
                Ok((s4, _)) => match number_text(s4) {
                    Err(e) => Err(e),
                    Ok((s5, digits)) => match token(";"@, s5) {
                        Err(e) => Err(e),
                        Ok((s6, _)) => match field_number(digits) {
                            Some(number) => Ok((s6, Field { label, typ, name, number })),
                            None => Err(Failure::MalformedFieldNumber(digits)),
                        },
                    },
                },
            },
        },
    }
}

/// A message: `message name { field* }`. Text in the braces that is no field
/// keeps the closing brace from matching, so the message does not match.
pub open spec fn message(s: Seq<char>) -> Outcome<Message> {
    match token("message"@, s) {
        Err(e) => Err(e),
        Ok((s1, _)) => match identifier(s1) {
            Err(e) => Err(e),
            Ok((s2, name)) => match token("{"@, s2) {
                Err(e) => Err(e),
                Ok((s3, _)) => match many0(|i: Seq<char>| message_field(i), s3) {
                    Err(e) => Err(e),
                    Ok((s4, fields)) => match token("}"@, s4) {
                        Err(e) => Err(e),
                        Ok((s5, _)) => Ok((s5, Message { name, fields })),
                    },
                },
            },
        },
    }
}

/// The type of a request or a response: `( stream? name )`.
pub open spec fn service_method_type(s: Seq<char>) -> Outcome<(bool, Seq<char>)> {
    match token("("@, s) {
        Err(e) => Err(e),
        Ok((s1, _)) => {
            let (s2, stream) = optional(token("stream"@, s1), s1);
            match spaced_identifier(s2) {
                Err(e) => Err(e),
                Ok((s3, name)) => match token(")"@, s3) {
                    Err(e) => Err(e),
                    Ok((s4, _)) => Ok((s4, (stream is Some, name))),
                },
            }
        },
    }
}

/// A method: `rpc name (request) returns (response) ;`.
pub open spec fn service_method(s: Seq<char>) -> Outcome<Method> {
    match token("rpc"@, s) {
        Err(e) => Err(e),
        Ok((s1, _)) => match spaced_identifier(s1) {
            Err(e) => Err(e),
            Ok((s2, name)) => match service_method_type(s2) {
                Err(e) => Err(e),
                Ok((s3, request)) => match token("returns"@, s3) {
                    Err(e) => Err(e),
                    Ok((s4, _)) => match service_method_type(s4) {
                        Err(e) => Err(e),
                        Ok((s5, response)) => match token(";"@, s5) {
                            Err(e) => Err(e),
                            Ok((s6, _)) => Ok(
                                (
                                    s6,
                                    Method {
                                        name,
                                        input_type: request.1,
                                        output_type: response.1,
                                        client_streaming: request.0,
                                        server_streaming: response.0,
                                    },
                                ),
                            ),
                        },
                    },
                },
            },
        },
    }
}

/// A service: `service name { method* }`.
pub open spec fn service(s: Seq<char>) -> Outcome<Service> {
    match token("service"@, s) {
        Err(e) => Err(e),
        Ok((s1, _)) => match identifier(s1) {
            Err(e) => Err(e),
            Ok((s2, name)) => match token("{"@, s2) {
                Err(e) => Err(e),
                Ok((s3, _)) => match many0(|i: Seq<char>| service_method(i), s3) {
                    Err(e) => Err(e),
                    Ok((s4, methods)) => match token("}"@, s4) {
                        Err(e) => Err(e),
                        Ok((s5, _)) => Ok((s5, Service { name, methods })),
                    },
                },
            },
        },
    }
}

/// The statement at the front of `s`: a syntax statement, else a message,
/// else a service. A malformed field number in a message ends the search;
/// where nothing matches, `s` is unexpected input.
pub open spec fn statement(s: Seq<char>) -> Outcome<Statement> {
    match syntax(s) {
        Ok((rest, version)) => Ok((rest, Statement::Syntax(version))),
        Err(_) => match message(s) {
            Ok((rest, m)) => Ok((rest, Statement::Message(m))),
            Err(Failure::MalformedFieldNumber(text)) => Err(Failure::MalformedFieldNumber(text)),
            Err(_) => match service(s) {
                Ok((rest, sv)) => Ok((rest, Statement::Service(sv))),
                Err(_) => Err(Failure::UnexpectedInput(s)),
            },
        },
    }
}

/// The statements that `s` is made of, from the first character to the last.
pub open spec fn statements(s: Seq<char>) -> Result<Seq<Statement>, Failure>
    decreases s.len(),
{
    if s.len() == 0 {
        Ok(Seq::empty())
    } else {
        match statement(s) {
            Err(e) => Err(e),
            Ok((rest, first)) => if rest.len() < s.len() {
                match statements(rest) {
                    Err(e) => Err(e),
                    Ok(others) => Ok(seq![first] + others),
                }
            } else {
                Err(Failure::UnexpectedInput(s))
            },
        }
    }
}

/// The syntax version that the last syntax statement declares.
pub open spec fn last_syntax(all: Seq<Statement>) -> Option<Syntax>
    decreases all.len(),
{
    if all.len() == 0 {
        None
    } else {
        match all.last() {
            Statement::Syntax(version) => Some(version),
            _ => last_syntax(all.drop_last()),
        }
    }
}

/// The messages among the statements, in their order.
pub open spec fn messages_of(all: Seq<Statement>) -> Seq<Message>
    decreases all.len(),
{
    if all.len() == 0 {
        Seq::empty()
    } else {
        match all.last() {
            Statement::Message(m) => messages_of(all.drop_last()).push(m),
            _ => messages_of(all.drop_last()),
        }
    }
}

/// The services among the statements, in their order.
pub open spec fn services_of(all: Seq<Statement>) -> Seq<Service>
    decreases all.len(),
{
    if all.len() == 0 {
        Seq::empty()
    } else {
        match all.last() {
            Statement::Service(sv) => services_of(all.drop_last()).push(sv),
            _ => services_of(all.drop_last()),
        }
    }
}

/// The file that the source `s` describes, under the name `name`.
pub open spec fn file(name: Seq<char>, s: Seq<char>) -> Result<File, Failure> {
    match statements(s) {
        Err(e) => Err(e),
        Ok(all) => Ok(
            File {
                name,
                syntax: last_syntax(all),
                messages: messages_of(all),
                services: services_of(all),
            },
        ),
    }
}

} // verus!
