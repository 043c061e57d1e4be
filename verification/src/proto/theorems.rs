//! What holds of the grammar as a whole. The parsers return what the grammar
//! says, so each statement here holds of them too.

use vstd::prelude::*;
use super::grammar::{
    file, identifier, is_identifier, is_identifier_part, is_space, last_syntax, many0, message,
    message_field, message_field_label, message_field_type, messages_of, optional, service,
    service_method, service_method_type, services_of, skip_spaces, spaced_identifier, statement,
    statements, syntax, syntax_of, token, Failure, Field, File, Method, Outcome, Statement,
};
use super::lemmas::{
    lemma_identifier, lemma_longest_run, lemma_run_len_bound, lemma_statement, lemma_token,
};
use crate::text::{is_remainder_of, lemma_remainder_of_remainder, lemma_whole_is_remainder};

verus! {

/// An identifier is read whole, and the text that follows it is left as it
/// is: where `name` is an identifier and `following` does not go on with a
/// character of an identifier, reading `name + following` gives `name` and
/// leaves `following`.
pub proof fn lemma_identifier_is_read_exactly(name: Seq<char>, following: Seq<char>)
    requires
        is_identifier(name),
        following.len() > 0 ==> !is_identifier_part(following[0]),
    ensures
        identifier(name + following) == Ok::<_, Failure>((following, name)),
{
    let s = name + following;
    assert(s[0] == name[0]);
    lemma_longest_run(name, following, s, |c: char| is_identifier_part(c));
}

/// What `identifier` reads is an identifier, it stands at the front of the
/// input, and the text left over does not go on with a character of an
/// identifier.
pub proof fn lemma_identifier_reads_an_identifier(s: Seq<char>)
    requires
        identifier(s) is Ok,
    ensures
        identifier(s) matches Ok((rest, name)) && is_identifier(name) && name + rest == s && (
        rest.len() > 0 ==> !is_identifier_part(rest[0])),
{
    lemma_identifier(s);
    lemma_run_len_bound(s, |c: char| is_identifier_part(c));
}

/// The text that is left of `s` when `item` has been read `n` times.
pub open spec fn after_items<T>(
    item: spec_fn(Seq<char>) -> Outcome<T>,
    s: Seq<char>,
    n: nat,
) -> Seq<char>
    decreases n,
{
    if n == 0 {
        s
    } else {
        match item(s) {
            Ok((rest, _)) => after_items(item, rest, (n - 1) as nat),
            Err(_) => s,
        }
    }
}

/// A repetition keeps the order of the source: its value at index `i` is
/// what `item` reads at the place where `i` items have been read, and that
/// place lies before the place where the next item is read.
pub proof fn lemma_many0_keeps_order<T>(
    item: spec_fn(Seq<char>) -> Outcome<T>,
    s: Seq<char>,
    i: nat,
)
    requires
        many0(item, s) matches Ok((_, values)) && i < values.len(),
    ensures
        many0(item, s) matches Ok((_, values)) && item(after_items(item, s, i)) == Ok::<
            _,
            Failure,
        >((after_items(item, s, i + 1), values[i as int])),
        after_items(item, s, i + 1).len() < after_items(item, s, i).len(),
    decreases i,
{
    match item(s) {
        Ok((rest, value)) => {
            if i > 0 {
                lemma_many0_keeps_order(item, rest, (i - 1) as nat);
                assert(after_items(item, s, i + 1) == after_items(item, rest, i));
            } else {
                assert(after_items(item, s, 1) == after_items(item, rest, 0));
            }
        },
        Err(_) => {},
    }
}

/// The text of a message after its opening brace.
pub open spec fn message_body(s: Seq<char>) -> Seq<char> {
    match token("message"@, s) {
        Ok((s1, _)) => match identifier(s1) {
            Ok((s2, _)) => match token("{"@, s2) {
                Ok((s3, _)) => s3,
                Err(_) => s,
            },
            Err(_) => s,
        },
        Err(_) => s,
    }
}

/// The fields of a message stand in the order of their declaration: the
/// field at index `i` is the one declared at the place in the body where `i`
/// fields have been read.
pub proof fn lemma_message_keeps_field_order(s: Seq<char>, i: nat)
    requires
        message(s) matches Ok((_, m)) && i < m.fields.len(),
    ensures
        message(s) matches Ok((_, m)) && message_field(
            after_items(|t: Seq<char>| message_field(t), message_body(s), i),
        ) == Ok::<_, Failure>(
            (
                after_items(|t: Seq<char>| message_field(t), message_body(s), i + 1),
                m.fields[i as int],
            ),
        ),
{
    lemma_many0_keeps_order(|t: Seq<char>| message_field(t), message_body(s), i);
}

/// The text of a service after its opening brace.
pub open spec fn service_body(s: Seq<char>) -> Seq<char> {
    match token("service"@, s) {
        Ok((s1, _)) => match identifier(s1) {
            Ok((s2, _)) => match token("{"@, s2) {
                Ok((s3, _)) => s3,
                Err(_) => s,
            },
            Err(_) => s,
        },
        Err(_) => s,
    }
}

/// The methods of a service stand in the order of their declaration: the
/// method at index `i` is the one declared at the place in the body where
/// `i` methods have been read.
pub proof fn lemma_service_keeps_method_order(s: Seq<char>, i: nat)
    requires
        service(s) matches Ok((_, sv)) && i < sv.methods.len(),
    ensures
        service(s) matches Ok((_, sv)) && service_method(
            after_items(|t: Seq<char>| service_method(t), service_body(s), i),
        ) == Ok::<_, Failure>(
            (
                after_items(|t: Seq<char>| service_method(t), service_body(s), i + 1),
                sv.methods[i as int],
            ),
        ),
{
    lemma_many0_keeps_order(|t: Seq<char>| service_method(t), service_body(s), i);
}

/// The name that is read between whitespace is an identifier.
pub proof fn lemma_spaced_identifier_reads_an_identifier(s: Seq<char>)
    ensures
        spaced_identifier(s) matches Ok((_, name)) ==> is_identifier(name),
{
    if identifier(skip_spaces(s)) is Ok {
        lemma_identifier_reads_an_identifier(skip_spaces(s));
    }
}

/// A syntax statement declares `proto2` or `proto3`, never an unknown
/// version.
pub proof fn lemma_syntax_is_known(s: Seq<char>)
    ensures
        syntax(s) matches Ok((_, version)) ==> !(version is Unknown),
{
}

/// A field that is read is well formed.
pub proof fn lemma_field_is_well_formed(s: Seq<char>)
    ensures
        message_field(s) matches Ok((_, field)) ==> field.is_well_formed(),
{
    lemma_token("optional"@, s);
    lemma_token("required"@, s);
    lemma_token("repeated"@, s);
    let (s1, _) = optional(message_field_label(s), s);
    lemma_spaced_identifier_reads_an_identifier(s1);
    if let Ok((s2, _)) = message_field_type(s1) {
        lemma_spaced_identifier_reads_an_identifier(s2);
    }
}

/// A method that is read is well formed.
pub proof fn lemma_method_is_well_formed(s: Seq<char>)
    ensures
        service_method(s) matches Ok((_, method)) ==> method.is_well_formed(),
{
    if let Ok((s1, _)) = token("rpc"@, s) {
        lemma_spaced_identifier_reads_an_identifier(s1);
        if let Ok((s2, _)) = spaced_identifier(s1) {
            lemma_method_type_names_an_identifier(s2);
            if let Ok((s3, _)) = service_method_type(s2) {
                if let Ok((s4, _)) = token("returns"@, s3) {
                    lemma_method_type_names_an_identifier(s4);
                }
            }
        }
    }
}

/// The name in the type of a request or of a response is an identifier.
proof fn lemma_method_type_names_an_identifier(s: Seq<char>)
    ensures
        service_method_type(s) matches Ok((_, pair)) ==> is_identifier(pair.1),
{
    if let Ok((s1, _)) = token("("@, s) {
        let (s2, _) = optional(token("stream"@, s1), s1);
        lemma_spaced_identifier_reads_an_identifier(s2);
    }
}

/// What holds of every item that is read holds of every value of a
/// repetition.
pub proof fn lemma_many0_all<T>(
    item: spec_fn(Seq<char>) -> Outcome<T>,
    good: spec_fn(T) -> bool,
    s: Seq<char>,
)
    requires
        forall|t: Seq<char>| #[trigger] item(t) matches Ok((_, value)) ==> good(value),
    ensures
        many0(item, s) matches Ok((_, values)) ==> forall|i: int|
            0 <= i < values.len() ==> good(#[trigger] values[i]),
    decreases s.len(),
{
    match item(s) {
        Ok((rest, value)) => {
            if rest.len() < s.len() {
                lemma_many0_all(item, good, rest);
            }
        },
        Err(_) => {},
    }
}

/// A message that is read is well formed.
pub proof fn lemma_message_is_well_formed(s: Seq<char>)
    ensures
        message(s) matches Ok((_, m)) ==> m.is_well_formed(),
{
    if let Ok((s1, _)) = token("message"@, s) {
        if identifier(s1) is Ok {
            lemma_identifier_reads_an_identifier(s1);
        }
        if let Ok((s2, _)) = identifier(s1) {
            if let Ok((s3, _)) = token("{"@, s2) {
                let item = |i: Seq<char>| message_field(i);
                let good = |f: Field| f.is_well_formed();
                assert forall|t: Seq<char>| #[trigger] item(t) is Ok implies good(item(t)->Ok_0.1) by {
                    lemma_field_is_well_formed(t);
                }
                lemma_many0_all(item, good, s3);
            }
        }
    }
}

/// A service that is read is well formed.
pub proof fn lemma_service_is_well_formed(s: Seq<char>)
    ensures
        service(s) matches Ok((_, sv)) ==> sv.is_well_formed(),
{
    if let Ok((s1, _)) = token("service"@, s) {
        if identifier(s1) is Ok {
            lemma_identifier_reads_an_identifier(s1);
        }
        if let Ok((s2, _)) = identifier(s1) {
            if let Ok((s3, _)) = token("{"@, s2) {
                let item = |i: Seq<char>| service_method(i);
                let good = |m: Method| m.is_well_formed();
                assert forall|t: Seq<char>| #[trigger] item(t) is Ok implies good(item(t)->Ok_0.1) by {
                    lemma_method_is_well_formed(t);
                }
                lemma_many0_all(item, good, s3);
            }
        }
    }
}

/// Every statement that is read is well formed.
proof fn lemma_statements_are_well_formed(s: Seq<char>)
    ensures
        statements(s) matches Ok(all) ==> forall|i: int|
            0 <= i < all.len() ==> (#[trigger] all[i]).is_well_formed(),
    decreases s.len(),
{
    if s.len() > 0 {
        lemma_syntax_is_known(s);
        lemma_message_is_well_formed(s);
        lemma_service_is_well_formed(s);
        if let Ok((rest, _)) = statement(s) {
            if rest.len() < s.len() {
                lemma_statements_are_well_formed(rest);
            }
        }
    }
}

/// Of well-formed statements, the last syntax version, the messages and the
/// services are well formed.
proof fn lemma_parts_are_well_formed(all: Seq<Statement>)
    requires
        forall|i: int| 0 <= i < all.len() ==> (#[trigger] all[i]).is_well_formed(),
    ensures
        last_syntax(all) matches Some(version) ==> !(version is Unknown),
        forall|i: int|
            0 <= i < messages_of(all).len() ==> (#[trigger] messages_of(all)[i]).is_well_formed(),
        forall|i: int|
            0 <= i < services_of(all).len() ==> (#[trigger] services_of(all)[i]).is_well_formed(),
    decreases all.len(),
{
    if all.len() > 0 {
        let init = all.drop_last();
        assert forall|i: int| 0 <= i < init.len() implies (#[trigger] init[i]).is_well_formed() by {
            assert(init[i] == all[i]);
        }
        lemma_parts_are_well_formed(init);
        assert(all.last() == all[all.len() - 1]);
        assert(all.last().is_well_formed());
        match all.last() {
            Statement::Message(m) => {
                assert forall|i: int| 0 <= i < messages_of(all).len() implies (
                #[trigger] messages_of(all)[i]).is_well_formed() by {
                    if i < messages_of(init).len() {
                        assert(messages_of(all)[i] == messages_of(init)[i]);
                    }
                }
            },
            Statement::Service(sv) => {
                assert forall|i: int| 0 <= i < services_of(all).len() implies (
                #[trigger] services_of(all)[i]).is_well_formed() by {
                    if i < services_of(init).len() {
                        assert(services_of(all)[i] == services_of(init)[i]);
                    }
                }
            },
            Statement::Syntax(_) => {},
        }
    }
}

/// Every file that is read is well formed: each name of a message, a field,
/// a message type, a service, a method, a request and a response is an
/// identifier, and no syntax version or label is an unknown one.
pub proof fn lemma_file_is_well_formed(name: Seq<char>, s: Seq<char>)
    ensures
        file(name, s) matches Ok(f) ==> f.is_well_formed(),
{
    lemma_statements_are_well_formed(s);
    if let Ok(all) = statements(s) {
        lemma_parts_are_well_formed(all);
    }
}

/// A parse that fails on unexpected input points at a place in the source:
/// the text it reports is what is left of the source from that place on, it
/// is not empty, and neither a syntax statement nor a message nor a service
/// begins with it.
pub proof fn lemma_unexpected_input_is_located(name: Seq<char>, s: Seq<char>)
    ensures
        file(name, s) matches Err(Failure::UnexpectedInput(text)) ==> {
            &&& is_remainder_of(text, s)
            &&& text.len() > 0
            &&& syntax(text) is Err
            &&& message(text) is Err
            &&& service(text) is Err
        },
    decreases s.len(),
{
    broadcast use {lemma_remainder_of_remainder, lemma_whole_is_remainder};

    if s.len() > 0 {
        lemma_statement(s);
        match statement(s) {
            Ok((rest, _)) => {
                lemma_unexpected_input_is_located(name, rest);
            },
            Err(_) => {},
        }
    }
}

/// Where no statement begins at the front of a source that is not empty, the
/// parse fails and reports the whole source.
pub proof fn lemma_unexpected_input_at_the_front(name: Seq<char>, s: Seq<char>)
    requires
        s.len() > 0,
        syntax(s) is Err,
        message(s) matches Err(e) && !(e is MalformedFieldNumber),
        service(s) is Err,
    ensures
        file(name, s) == Err::<File, _>(Failure::UnexpectedInput(s)),
{
}

/// A later syntax statement replaces an earlier one: the syntax version of
/// the statements read so far is that of the statement read last, where that
/// is a syntax statement, and is unchanged by a message or a service.
pub proof fn lemma_last_syntax_wins(all: Seq<Statement>, next: Statement)
    ensures
        last_syntax(all.push(next)) == (match next {
            Statement::Syntax(version) => Some(version),
            _ => last_syntax(all),
        }),
{
    assert(all.push(next).drop_last() =~= all);
}

/// True when `s` is made of whitespace only.
pub open spec fn is_blank(s: Seq<char>) -> bool {
    forall|i: int| 0 <= i < s.len() ==> is_space(#[trigger] s[i])
}

/// True when `s` does not begin with whitespace.
pub open spec fn begins_solid(s: Seq<char>) -> bool {
    s.len() > 0 ==> !is_space(s[0])
}

/// Whitespace in front of a text that does not begin with whitespace is
/// skipped, and no more.
pub proof fn lemma_blank_is_skipped(blank: Seq<char>, rest: Seq<char>)
    requires
        is_blank(blank),
        begins_solid(rest),
    ensures
        skip_spaces(blank + rest) == rest,
{
    lemma_longest_run(blank, rest, blank + rest, |c: char| is_space(c));
}

/// A fixed text is read with the whitespace around it, and the text that
/// follows is left as it is: where `word` does not begin with whitespace,
/// `before` and `after` are whitespace, and `rest` does not begin with
/// whitespace, reading `before + word + after + rest` gives `word` and
/// leaves `rest`.
pub proof fn lemma_token_is_read_exactly(
    word: Seq<char>,
    before: Seq<char>,
    after: Seq<char>,
    rest: Seq<char>,
)
    requires
        is_blank(before),
        is_blank(after),
        begins_solid(word + (after + rest)),
        begins_solid(rest),
    ensures
        token(word, before + (word + (after + rest))) == Ok::<_, Failure>((rest, word)),
{
    let tail = word + (after + rest);
    lemma_blank_is_skipped(before, tail);
    assert(tail.subrange(0, word.len() as int) =~= word);
    assert(tail.skip(word.len() as int) =~= after + rest);
    lemma_blank_is_skipped(after, rest);
}

/// A syntax statement in its written form is read as the version it names:
/// the keyword, the equals sign, the version `proto2` or `proto3` between
/// double quotes and the semicolon, with any whitespace before each of them
/// except between the quotes, and any whitespace after the semicolon.
pub proof fn lemma_syntax_statement_is_read(
    version: Seq<char>,
    w0: Seq<char>,
    w1: Seq<char>,
    w2: Seq<char>,
    w3: Seq<char>,
    w4: Seq<char>,
    rest: Seq<char>,
)
    requires
        version == "proto2"@ || version == "proto3"@,
        is_blank(w0),
        is_blank(w1),
        is_blank(w2),
        is_blank(w3),
        is_blank(w4),
        begins_solid(rest),
    ensures
        syntax(
            w0 + ("syntax"@ + (w1 + ("="@ + (w2 + (seq!['"'] + (version + (seq!['"'] + (w3 + (";"@
                + (w4 + rest)))))))))),
        ) == Ok::<_, Failure>((rest, syntax_of(version))),
{
    reveal_strlit("syntax");
    reveal_strlit("=");
    reveal_strlit(";");
    reveal_strlit("proto2");
    reveal_strlit("proto3");
    let s5 = ";"@ + (w4 + rest);
    let s4 = seq!['"'] + (w3 + s5);
    let s3 = seq!['"'] + (version + s4);
    let s2 = "="@ + (w2 + s3);
    let s1 = "syntax"@ + (w1 + s2);
    lemma_token_is_read_exactly("syntax"@, w0, w1, s2);
    lemma_token_is_read_exactly("="@, Seq::empty(), w2, s3);
    assert(Seq::<char>::empty() + s2 =~= s2);
    assert(s3.skip(1) =~= version + s4);
    assert((version + s4).subrange(0, version.len() as int) =~= version);
    assert((version + s4).skip(version.len() as int) =~= s4);
    if version == "proto3"@ {
        assert(!"proto2"@.is_prefix_of(version + s4)) by {
            assert((version + s4)[5] == '3');
            assert("proto2"@[5] == '2');
        }
    }
    assert(s4.skip(1) =~= w3 + s5);
    lemma_token_is_read_exactly(";"@, w3, w4, rest);
}

} // verus!
