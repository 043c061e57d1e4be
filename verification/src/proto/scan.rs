//! The scanners of `nom` that the parsers are built from.
//!
//! Each function here hands one call to `nom`, on `&str` input and with
//! `nom::error::Error` as the error type. Its contract is taken on trust:
//! it restates what the scanner is documented to do. A scanner that does not
//! match gives `None`; one that matches gives the text left over and the
//! text it took, in that order.

use vstd::prelude::*;
use super::grammar::{is_letter, is_letter_or_digit, is_longest_run, is_space};

verus! {

/// What a scanner returns: the text left over and the text taken, or `None`
/// where it does not match.
pub(crate) type Scanned<'a> = Option<(&'a str, &'a str)>;

/// What `char::is_alphanumeric` answers for `c`.
pub uninterp spec fn alphanumeric(c: char) -> bool;

/// `char::is_alphanumeric`: the Unicode test for a letter or a number. The
/// contract only names the answer.
#[verifier::external_body]
pub(crate) fn is_alphanumeric(c: char) -> (b: bool)
    ensures
        b == alphanumeric(c),
{
    c.is_alphanumeric()
}

/// `nom::bytes::complete::tag`: matches when `input` begins with `pattern`,
/// and then takes exactly `pattern`.
#[verifier::external_body]
pub(crate) fn tag<'a>(pattern: &str, input: &'a str) -> (r: Scanned<'a>)
    ensures
        r is Some <==> pattern@.is_prefix_of(input@),
        r matches Some((rest, found)) ==> found@ == pattern@ && rest@ == input@.skip(
            pattern@.len() as int,
        ),
{
    nom::bytes::complete::tag::<&str, &str, nom::error::Error<&str>>(pattern)(input).ok()
}

/// `nom::character::complete::char`: matches when the first character of
/// `input` is `c`, and then takes that character.
#[verifier::external_body]
pub(crate) fn char<'a>(c: char, input: &'a str) -> (r: Option<&'a str>)
    ensures
        r is Some <==> (input@.len() > 0 && input@[0] == c),
        r matches Some(rest) ==> rest@ == input@.skip(1),
{
    match nom::character::complete::char::<&str, nom::error::Error<&str>>(c)(input) {
        Ok((rest, _)) => Some(rest),
        Err(_) => None,
    }
}

/// `nom::character::complete::multispace0`: takes the spaces, tabs, carriage
/// returns and line feeds at the front of `input`; always matches.
#[verifier::external_body]
pub(crate) fn multispace0<'a>(input: &'a str) -> (r: Scanned<'a>)
    ensures
        r is Some,
        r matches Some((rest, found)) ==> is_longest_run(
            found@,
            rest@,
            input@,
            |c: char| is_space(c),
        ),
{
    nom::character::complete::multispace0::<&str, nom::error::Error<&str>>(input).ok()
}

/// `nom::character::complete::alpha1`: takes the ASCII letters at the front
/// of `input`; matches when there is at least one.
#[verifier::external_body]
pub(crate) fn alpha1<'a>(input: &'a str) -> (r: Scanned<'a>)
    ensures
        r is Some <==> (input@.len() > 0 && is_letter(input@[0])),
        r matches Some((rest, found)) ==> is_longest_run(
            found@,
            rest@,
            input@,
            |c: char| is_letter(c),
        ),
{
    nom::character::complete::alpha1::<&str, nom::error::Error<&str>>(input).ok()
}

/// `nom::character::complete::alphanumeric1`: takes the ASCII letters and
/// digits at the front of `input`; matches when there is at least one.
#[verifier::external_body]
pub(crate) fn alphanumeric1<'a>(input: &'a str) -> (r: Scanned<'a>)
    ensures
        r is Some <==> (input@.len() > 0 && is_letter_or_digit(input@[0])),
        r matches Some((rest, found)) ==> is_longest_run(
            found@,
            rest@,
            input@,
            |c: char| is_letter_or_digit(c),
        ),
{
    nom::character::complete::alphanumeric1::<&str, nom::error::Error<&str>>(input).ok()
}

/// `nom::bytes::complete::take_while`: takes the characters at the front of
/// `input` for which `member` answers `true`, up to the first for which it
/// answers `false`; always matches.
#[verifier::external_body]
pub(crate) fn take_while<'a, F: Fn(char) -> bool>(member: F, input: &'a str) -> (r: Scanned<'a>)
    requires
        forall|c: char| call_requires(member, (c,)),
    ensures
        r is Some,
        r matches Some((rest, found)) ==> {
            &&& found@ + rest@ == input@
            &&& forall|i: int|
                0 <= i < found@.len() ==> call_ensures(member, (#[trigger] found@[i],), true)
            &&& rest@.len() > 0 ==> call_ensures(member, (rest@[0],), false)
        },
{
    nom::bytes::complete::take_while::<F, &str, nom::error::Error<&str>>(member)(input).ok()
}

/// `nom::bytes::complete::take_while1`: as `take_while`, but matches only
/// when it takes at least one character.
#[verifier::external_body]
pub(crate) fn take_while1<'a, F: Fn(char) -> bool>(member: F, input: &'a str) -> (r: Scanned<'a>)
    requires
        forall|c: char| call_requires(member, (c,)),
    ensures
        r is None ==> input@.len() == 0 || call_ensures(member, (input@[0],), false),
        r matches Some((rest, found)) ==> {
            &&& found@.len() > 0
            &&& found@ + rest@ == input@
            &&& forall|i: int|
                0 <= i < found@.len() ==> call_ensures(member, (#[trigger] found@[i],), true)
            &&& rest@.len() > 0 ==> call_ensures(member, (rest@[0],), false)
        },
{
    nom::bytes::complete::take_while1::<F, &str, nom::error::Error<&str>>(member)(input).ok()
}

/// `nom::bytes::complete::is_not`: takes the characters at the front of
/// `input` that do not occur in `stops`; matches when there is at least one.
#[verifier::external_body]
pub(crate) fn is_not<'a>(stops: &str, input: &'a str) -> (r: Scanned<'a>)
    ensures
        r is Some <==> (input@.len() > 0 && !stops@.contains(input@[0])),
        r matches Some((rest, found)) ==> is_longest_run(
            found@,
            rest@,
            input@,
            |c: char| !stops@.contains(c),
        ),
{
    nom::bytes::complete::is_not::<&str, &str, nom::error::Error<&str>>(stops)(input).ok()
}

} // verus!
