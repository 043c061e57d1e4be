//! Facts about the grammar that the parsers' proofs rest on: how much of the
//! input each rule takes, and how a repetition unfolds.

use vstd::prelude::*;
use super::grammar::{
    identifier, is_identifier_part, is_longest_run, is_space, many0, message,
    message_field, message_field_label, message_field_type, number_text, optional, run_len,
    service, service_method, service_method_type, skip_spaces, spaced_identifier, statement,
    statements, syntax, syntax_literal, tag, token, ws, Failure, Outcome, Statement,
};
use super::scan::alphanumeric;
use crate::text::{
    is_remainder_of, lemma_remainder_of_remainder, lemma_skip_is_remainder,
    lemma_whole_is_remainder,
};

verus! {

broadcast use {
    lemma_remainder_of_remainder,
    lemma_skip_is_remainder,
    lemma_whole_is_remainder,
};

/// `run_len` measures a run: it is no longer than the text, every character
/// in it is a member, and the character after it is none.
pub proof fn lemma_run_len_bound(s: Seq<char>, member: spec_fn(char) -> bool)
    ensures
        run_len(s, member) <= s.len(),
        forall|i: int| 0 <= i < run_len(s, member) ==> member(#[trigger] s[i]),
        run_len(s, member) < s.len() ==> !member(s[run_len(s, member) as int]),
    decreases s.len(),
{
    if s.len() > 0 && member(s[0]) {
        let tail = s.skip(1);
        lemma_run_len_bound(tail, member);
        assert forall|i: int| 0 <= i < run_len(s, member) implies member(#[trigger] s[i]) by {
            if i > 0 {
                assert(s[i] == tail[i - 1]);
            }
        }
        if run_len(s, member) < s.len() {
            assert(s[run_len(s, member) as int] == tail[run_len(tail, member) as int]);
        }
    }
}

/// The longest run is the one that `run_len` measures.
pub proof fn lemma_longest_run(
    found: Seq<char>,
    rest: Seq<char>,
    input: Seq<char>,
    member: spec_fn(char) -> bool,
)
    requires
        is_longest_run(found, rest, input, member),
    ensures
        found.len() == run_len(input, member),
        found == input.take(run_len(input, member) as int),
        rest == input.skip(run_len(input, member) as int),
    decreases found.len(),
{
    if found.len() == 0 {
        assert(found + rest =~= rest);
    } else {
        assert(input[0] == found[0]);
        assert(found.skip(1) + rest =~= input.skip(1));
        assert forall|i: int| 0 <= i < found.skip(1).len() implies member(
            #[trigger] found.skip(1)[i],
        ) by {
            assert(found.skip(1)[i] == found[i + 1]);
        }
        lemma_longest_run(found.skip(1), rest, input.skip(1), member);
    }
    assert(found =~= input.take(found.len() as int));
    assert(rest =~= input.skip(found.len() as int));
}

/// True when what a rule that matched left over is the end of what it was
/// given.
pub open spec fn keeps<T>(r: Outcome<T>, s: Seq<char>) -> bool {
    r matches Ok((rest, _)) ==> is_remainder_of(rest, s)
}

/// True when a rule that matched took at least one character.
pub open spec fn advances<T>(r: Outcome<T>, s: Seq<char>) -> bool {
    r matches Ok((rest, _)) ==> is_remainder_of(rest, s) && rest.len() < s.len()
}

/// Skipping whitespace leaves the end of the text, which does not begin with
/// whitespace.
pub proof fn lemma_skip_spaces(s: Seq<char>)
    ensures
        is_remainder_of(skip_spaces(s), s),
        skip_spaces(s).len() > 0 ==> !is_space(skip_spaces(s)[0]),
{
    lemma_run_len_bound(s, |c: char| is_space(c));
}

/// A rule between whitespace takes at least what the rule takes.
pub proof fn lemma_ws<T>(inner: spec_fn(Seq<char>) -> Outcome<T>, s: Seq<char>)
    ensures
        keeps(inner(skip_spaces(s)), skip_spaces(s)) ==> keeps(ws(inner, s), s),
        advances(inner(skip_spaces(s)), skip_spaces(s)) ==> advances(ws(inner, s), s),
{
    lemma_skip_spaces(s);
    match inner(skip_spaces(s)) {
        Ok((rest, _)) => {
            lemma_skip_spaces(rest);
        },
        Err(_) => {},
    }
}

/// A fixed text that is read is the text asked for; what is left is the end
/// of the input, and a shorter one where the text is not empty.
pub proof fn lemma_token(word: Seq<char>, s: Seq<char>)
    ensures
        keeps(token(word, s), s),
        word.len() > 0 ==> advances(token(word, s), s),
        token(word, s) matches Ok((_, found)) ==> found == word,
{
    lemma_ws(|i: Seq<char>| tag(word, i), s);
}

/// An identifier takes at least one character, and it and what is left make
/// up the input.
pub proof fn lemma_identifier(s: Seq<char>)
    ensures
        advances(identifier(s), s),
        identifier(s) matches Ok((rest, name)) ==> name.len() > 0 && name + rest == s,
{
    lemma_run_len_bound(s, |c: char| is_identifier_part(c));
    if identifier(s) is Ok {
        let n = run_len(s, |c: char| is_identifier_part(c));
        assert(n > 0);
        assert(s.take(n as int) + s.skip(n as int) =~= s);
    }
}

/// An identifier between whitespace takes at least one character.
pub proof fn lemma_spaced_identifier(s: Seq<char>)
    ensures
        advances(spaced_identifier(s), s),
{
    lemma_identifier(skip_spaces(s));
    lemma_ws(|i: Seq<char>| identifier(i), s);
}

/// A label, read or absent, leaves the end of the input.
pub proof fn lemma_message_field_label(s: Seq<char>)
    ensures
        keeps(message_field_label(s), s),
        keeps(Ok::<_, Failure>(optional(message_field_label(s), s)), s),
{
    lemma_token("optional"@, s);
    lemma_token("required"@, s);
    lemma_token("repeated"@, s);
}

/// The type of a field takes at least one character.
pub proof fn lemma_message_field_type(s: Seq<char>)
    ensures
        advances(message_field_type(s), s),
{
    lemma_spaced_identifier(s);
}

/// A field takes at least one character.
pub proof fn lemma_message_field(s: Seq<char>)
    ensures
        advances(message_field(s), s),
{
    lemma_message_field_label(s);
    let (s1, _) = optional(message_field_label(s), s);
    lemma_message_field_type(s1);
    if let Ok((s2, _)) = message_field_type(s1) {
        lemma_spaced_identifier(s2);
        if let Ok((s3, _)) = spaced_identifier(s2) {
            lemma_token("="@, s3);
            if let Ok((s4, _)) = token("="@, s3) {
                lemma_number_text(s4);
                if let Ok((s5, _)) = number_text(s4) {
                    lemma_token(";"@, s5);
                }
            }
        }
    }
}

/// The text of a number always matches, and it and what is left make up the
/// input.
pub proof fn lemma_number_text(s: Seq<char>)
    ensures
        keeps(number_text(s), s),
        number_text(s) matches Ok((rest, text)) && text + rest == s,
{
    let n = run_len(s, |c: char| alphanumeric(c));
    lemma_run_len_bound(s, |c: char| alphanumeric(c));
    assert(s.take(n as int) + s.skip(n as int) =~= s);
}

/// The type of a request or of a response leaves the end of the input.
pub proof fn lemma_service_method_type(s: Seq<char>)
    ensures
        keeps(service_method_type(s), s),
{
    lemma_token("("@, s);
    if let Ok((s1, _)) = token("("@, s) {
        lemma_token("stream"@, s1);
        let (s2, _) = optional(token("stream"@, s1), s1);
        lemma_spaced_identifier(s2);
        if let Ok((s3, _)) = spaced_identifier(s2) {
            lemma_token(")"@, s3);
        }
    }
}

/// A method takes at least one character.
pub proof fn lemma_service_method(s: Seq<char>)
    ensures
        advances(service_method(s), s),
{
    reveal_strlit("rpc");
    lemma_token("rpc"@, s);
    if let Ok((s1, _)) = token("rpc"@, s) {
        lemma_spaced_identifier(s1);
        if let Ok((s2, _)) = spaced_identifier(s1) {
            lemma_service_method_type(s2);
            if let Ok((s3, _)) = service_method_type(s2) {
                lemma_token("returns"@, s3);
                if let Ok((s4, _)) = token("returns"@, s3) {
                    lemma_service_method_type(s4);
                    if let Ok((s5, _)) = service_method_type(s4) {
                        lemma_token(";"@, s5);
                    }
                }
            }
        }
    }
}

/// What a repetition leaves over is the end of what it was given, where that
/// holds of its item.
pub proof fn lemma_many0_keeps<T>(item: spec_fn(Seq<char>) -> Outcome<T>, s: Seq<char>)
    requires
        forall|t: Seq<char>| keeps(#[trigger] item(t), t),
    ensures
        keeps(many0(item, s), s),
    decreases s.len(),
{
    match item(s) {
        Ok((rest, _)) => {
            if rest.len() < s.len() {
                lemma_many0_keeps(item, rest);
            }
        },
        Err(_) => {},
    }
}

/// A syntax statement takes at least one character.
pub proof fn lemma_syntax(s: Seq<char>)
    ensures
        advances(syntax(s), s),
{
    reveal_strlit("syntax");
    lemma_token("syntax"@, s);
    match token("syntax"@, s) {
        Ok((s1, _)) => {
            lemma_token("="@, s1);
            match token("="@, s1) {
                Ok((s2, _)) => {
                    match syntax_literal(s2) {
                        Ok((s3, _)) => {
                            lemma_token(";"@, s3);
                        },
                        Err(_) => {},
                    }
                },
                Err(_) => {},
            }
        },
        Err(_) => {},
    }
}

/// A message takes at least one character.
pub proof fn lemma_message(s: Seq<char>)
    ensures
        advances(message(s), s),
{
    reveal_strlit("message");
    lemma_token("message"@, s);
    match token("message"@, s) {
        Ok((s1, _)) => {
            lemma_identifier(s1);
            match identifier(s1) {
                Ok((s2, _)) => {
                    lemma_token("{"@, s2);
                    match token("{"@, s2) {
                        Ok((s3, _)) => {
                            let item = |i: Seq<char>| message_field(i);
                            assert forall|t: Seq<char>| keeps(#[trigger] item(t), t) by {
                                lemma_message_field(t);
                            }
                            lemma_many0_keeps(item, s3);
                            match many0(|i: Seq<char>| message_field(i), s3) {
                                Ok((s4, _)) => {
                                    lemma_token("}"@, s4);
                                },
                                Err(_) => {},
                            }
                        },
                        Err(_) => {},
                    }
                },
                Err(_) => {},
            }
        },
        Err(_) => {},
    }
}

/// A service takes at least one character.
pub proof fn lemma_service(s: Seq<char>)
    ensures
        advances(service(s), s),
{
    reveal_strlit("service");
    lemma_token("service"@, s);
    match token("service"@, s) {
        Ok((s1, _)) => {
            lemma_identifier(s1);
            match identifier(s1) {
                Ok((s2, _)) => {
                    lemma_token("{"@, s2);
                    match token("{"@, s2) {
                        Ok((s3, _)) => {
                            let item = |i: Seq<char>| service_method(i);
                            assert forall|t: Seq<char>| keeps(#[trigger] item(t), t) by {
                                lemma_service_method(t);
                            }
                            lemma_many0_keeps(item, s3);
                            match many0(|i: Seq<char>| service_method(i), s3) {
                                Ok((s4, _)) => {
                                    lemma_token("}"@, s4);
                                },
                                Err(_) => {},
                            }
                        },
                        Err(_) => {},
                    }
                },
                Err(_) => {},
            }
        },
        Err(_) => {},
    }
}

/// Every statement takes at least one character, so reading statements one
/// after another comes to an end.
pub proof fn lemma_statement(s: Seq<char>)
    ensures
        advances(statement(s), s),
{
    lemma_syntax(s);
    lemma_message(s);
    lemma_service(s);
}

/// The outcome of a repetition of which the items `read` were read before.
pub open spec fn prepend<T>(read: Seq<T>, r: Outcome<Seq<T>>) -> Outcome<Seq<T>> {
    match r {
        Ok((end, more)) => Ok((end, read + more)),
        Err(e) => Err(e),
    }
}

/// Reading one more item leaves the outcome of the repetition as it was.
pub proof fn lemma_many0_step<T>(
    item: spec_fn(Seq<char>) -> Outcome<T>,
    read: Seq<T>,
    s: Seq<char>,
)
    requires
        item(s) matches Ok((rest, _)) && rest.len() < s.len(),
    ensures
        item(s) matches Ok((rest, value)) && prepend(read, many0(item, s)) == prepend(
            read.push(value),
            many0(item, rest),
        ),
{
    match item(s) {
        Ok((rest, value)) => {
            match many0(item, rest) {
                Ok((end, more)) => {
                    assert(read + (seq![value] + more) =~= read.push(value) + more);
                },
                Err(_) => {},
            }
        },
        Err(_) => {},
    }
}

/// The outcome of reading statements of which `read` were read before.
pub open spec fn after<T>(read: Seq<T>, r: Result<Seq<T>, Failure>) -> Result<Seq<T>, Failure> {
    match r {
        Ok(more) => Ok(read + more),
        Err(e) => Err(e),
    }
}

/// Reading one more statement leaves the outcome of the whole as it was.
pub proof fn lemma_statements_step(read: Seq<Statement>, s: Seq<char>)
    requires
        statement(s) is Ok,
    ensures
        statement(s) matches Ok((rest, first)) && rest.len() < s.len() && after(
            read,
            statements(s),
        ) == after(read.push(first), statements(rest)),
{
    lemma_statement(s);
    match statement(s) {
        Ok((rest, first)) => {
            match statements(rest) {
                Ok(others) => {
                    assert(read + (seq![first] + others) =~= read.push(first) + others);
                },
                Err(_) => {},
            }
        },
        Err(_) => {},
    }
}

} // verus!
