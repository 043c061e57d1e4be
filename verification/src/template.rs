//! The two transformations of names that templates apply to the texts of a
//! descriptor.

use vstd::prelude::*;

verus! {

/// What `char::is_uppercase` answers for `c`.
pub uninterp spec fn is_uppercase(c: char) -> bool;

/// The first character of what `char::to_uppercase` yields for `c`.
pub uninterp spec fn uppercase_head(c: char) -> char;

/// `c` with an ASCII capital turned into its small letter.
pub open spec fn ascii_lowercase(c: char) -> char {
    if 'A' <= c && c <= 'Z' {
        ((c as u32) + 32) as char
    } else {
        c
    }
}

/// `char::is_uppercase`: whether Unicode counts `c` as an uppercase character.
/// The contract only names the answer.
#[verifier::external_body]
fn char_is_uppercase(c: char) -> (b: bool)
    ensures
        b == is_uppercase(c),
{
    c.is_uppercase()
}

/// `char::to_ascii_lowercase`: maps `A` to `Z` onto `a` to `z` and leaves
/// every other character as it is.
#[verifier::external_body]
fn char_to_ascii_lowercase(c: char) -> (lower: char)
    ensures
        lower == ascii_lowercase(c),
{
    c.to_ascii_lowercase()
}

/// `char::to_uppercase`, of which the first character is taken: the mapping
/// yields one character or more, so there is a first one. The contract only
/// names it.
#[verifier::external_body]
fn char_to_uppercase_head(c: char) -> (head: Option<char>)
    ensures
        head == Some(uppercase_head(c)),
{
    c.to_uppercase().next()
}

/// `String::from_iter` on a vector of characters: the string made of them.
#[verifier::external_body]
fn string_from_chars(chars: Vec<char>) -> (text: String)
    ensures
        text@ == chars@,
{
    String::from_iter(chars)
}

/// The characters of `text`.
fn chars_of(text: &str) -> (chars: Vec<char>)
    ensures
        chars@ == text@,
{
    let mut chars: Vec<char> = Vec::new();
    for c in it: text.chars()
        invariant
            chars@ == it.seq().take(it.index() as int),
    {
        chars.push(c);
    }
    chars
}

/// What `snake_case` writes for the character `c`: an underscore and the
/// small letter for an uppercase character, the character itself for any
/// other.
pub open spec fn snake_piece(c: char) -> Seq<char> {
    if is_uppercase(c) {
        seq!['_', ascii_lowercase(c)]
    } else {
        seq![c]
    }
}

/// `name` with each character replaced by its `snake_piece`.
pub open spec fn snake(name: Seq<char>) -> Seq<char>
    decreases name.len(),
{
    if name.len() == 0 {
        Seq::empty()
    } else {
        snake(name.drop_last()) + snake_piece(name.last())
    }
}

/// `name` with its first character replaced by the first character of that
/// character's uppercase mapping.
pub open spec fn title(name: Seq<char>) -> Seq<char>
    recommends
        name.len() > 0,
{
    name.update(0, uppercase_head(name[0]))
}

/// Turns a name with capitals at its word boundaries into one with
/// underscores: before each uppercase character an underscore is written,
/// and the character itself as a small letter where it is an ASCII capital.
/// `GetUser` becomes `_get_user`.
pub fn snake_case(name: &str) -> (text: String)
    ensures
        text@ == snake(name@),
{
    let chars = chars_of(name);
    let mut result: Vec<char> = Vec::new();
    let mut i: usize = 0;
    while i < chars.len()
        invariant
            i <= chars@.len(),
            result@ == snake(chars@.take(i as int)),
        decreases chars@.len() - i,
    {
        let ch = chars[i];
        proof {
            assert(chars@.take(i + 1).drop_last() =~= chars@.take(i as int));
        }
        if char_is_uppercase(ch) {
            result.push('_');
            result.push(char_to_ascii_lowercase(ch));
            assert(result@ =~= snake(chars@.take(i as int)) + snake_piece(ch));
        } else {
            result.push(ch);
            assert(result@ =~= snake(chars@.take(i as int)) + snake_piece(ch));
        }
        i += 1;
    }
    proof {
        assert(chars@.take(i as int) =~= chars@);
    }
    string_from_chars(result)
}

/// Writes the first character of `name` as a capital: the first character of
/// its uppercase mapping takes its place. The name must not be empty.
pub fn title_case(name: &str) -> (text: String)
    requires
        name@.len() > 0,
    ensures
        text@ == title(name@),
{
    let mut chars = chars_of(name);
    let head = match char_to_uppercase_head(chars[0]) {
        Some(head) => head,
        None => chars[0],
    };
    chars.set(0, head);
    string_from_chars(chars)
}

} // verus!
