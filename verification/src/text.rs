//! Operations on string slices that the parsers need and `std` offers only
//! over bytes: comparing two slices, and cutting the consumed part off the
//! front of an input. Both are proved against the UTF-8 model of `vstd`.

use vstd::prelude::*;
use vstd::utf8::*;

verus! {

/// Encoding distributes over concatenation.
pub proof fn lemma_encode_concat(head: Seq<char>, tail: Seq<char>)
    ensures
        encode_utf8(head + tail) == encode_utf8(head) + encode_utf8(tail),
    decreases head.len(),
{
    if head.len() == 0 {
        assert(head + tail =~= tail);
        assert(encode_utf8(head) + encode_utf8(tail) =~= encode_utf8(tail));
    } else {
        let whole = head + tail;
        assert(whole[0] == head[0]);
        assert(whole.drop_first() =~= head.drop_first() + tail);
        lemma_encode_concat(head.drop_first(), tail);
        assert(encode_utf8(whole) =~= encode_utf8(head) + encode_utf8(tail));
    }
}

/// The encoding of `head + tail` has a character boundary where the encoding
/// of `head` ends.
pub proof fn lemma_boundary_after_prefix(head: Seq<char>, tail: Seq<char>)
    ensures
        is_char_boundary(encode_utf8(head + tail), encode_utf8(head).len() as int),
    decreases head.len(),
{
    let whole = head + tail;
    let bytes = encode_utf8(whole);
    encode_utf8_valid_utf8(whole);
    if head.len() == 0 {
    } else {
        assert(whole[0] == head[0]);
        assert(whole.drop_first() =~= head.drop_first() + tail);
        encode_utf8_first_scalar(whole);
        assert(pop_first_scalar(bytes) =~= encode_utf8(whole.drop_first()));
        lemma_boundary_after_prefix(head.drop_first(), tail);
        lemma_encode_concat(head, tail);
        assert(encode_utf8(head).len() == encode_scalar(head[0] as u32).len() + encode_utf8(
            head.drop_first(),
        ).len());
        assert(encode_scalar(head[0] as u32).len() > 0);
    }
}

/// Two character sequences with the same encoding are the same sequence.
pub proof fn lemma_encode_injective(a: Seq<char>, b: Seq<char>)
    requires
        encode_utf8(a) == encode_utf8(b),
    ensures
        a == b,
{
    encode_utf8_decode_utf8(a);
    encode_utf8_decode_utf8(b);
}

/// True when `rest` is what is left of `input` after some prefix.
pub open spec fn is_remainder_of(rest: Seq<char>, input: Seq<char>) -> bool {
    rest.len() <= input.len() && input.skip(input.len() - rest.len()) == rest
}

/// Where `input` is `found` followed by `rest`, `rest` is what is left of
/// `input` after `found`.
pub proof fn lemma_split(found: Seq<char>, rest: Seq<char>, input: Seq<char>)
    requires
        found + rest == input,
    ensures
        is_remainder_of(rest, input),
        input.len() - rest.len() == found.len(),
        found == input.take(found.len() as int),
        rest == input.skip(found.len() as int),
        forall|i: int| 0 <= i < found.len() ==> #[trigger] input[i] == found[i],
{
    assert(rest =~= input.skip(found.len() as int));
    assert(found =~= input.take(found.len() as int));
}

/// What is left of what is left of `input` is left of `input`, and the
/// characters in between are those that the second step passed over.
pub proof fn lemma_remainder_step(after: Seq<char>, rest: Seq<char>, input: Seq<char>)
    requires
        is_remainder_of(after, rest),
        is_remainder_of(rest, input),
    ensures
        is_remainder_of(after, input),
        forall|i: int|
            input.len() - rest.len() <= i < input.len() - after.len() ==> #[trigger] input[i]
                == rest[i - (input.len() - rest.len())],
{
    let k = input.len() - rest.len();
    let j = rest.len() - after.len();
    assert(input.skip(k + j) =~= input.skip(k).skip(j));
    assert forall|i: int| k <= i < input.len() - after.len() implies #[trigger] input[i] == rest[i
        - k] by {
        assert(input.skip(k)[i - k] == input[i]);
    }
}

/// What is left of what is left of `input` is left of `input`.
pub broadcast proof fn lemma_remainder_of_remainder(
    after: Seq<char>,
    rest: Seq<char>,
    input: Seq<char>,
)
    requires
        #[trigger] is_remainder_of(after, rest),
        #[trigger] is_remainder_of(rest, input),
    ensures
        is_remainder_of(after, input),
{
    lemma_remainder_step(after, rest, input);
}

/// Nothing taken, all is left.
pub broadcast proof fn lemma_whole_is_remainder(input: Seq<char>)
    ensures
        #[trigger] is_remainder_of(input, input),
{
    assert(input.skip(0) =~= input);
}

/// What is left of `input` after its first `n` characters.
pub broadcast proof fn lemma_skip_is_remainder(input: Seq<char>, n: int)
    requires
        0 <= n <= input.len(),
    ensures
        is_remainder_of(#[trigger] input.skip(n), input),
{
}

/// Whether two slices hold the same characters.
pub fn str_eq(a: &str, b: &str) -> (same: bool)
    ensures
        same == (a@ == b@),
{
    let x = a.as_bytes();
    let y = b.as_bytes();
    if x.len() != y.len() {
        return false;
    }
    let mut i: usize = 0;
    while i < x.len()
        invariant
            x@.len() == y@.len(),
            i <= x@.len(),
            x@ == encode_utf8(a@),
            y@ == encode_utf8(b@),
            forall|j: int| 0 <= j < i ==> x@[j] == y@[j],
        decreases x@.len() - i,
    {
        if x[i] != y[i] {
            return false;
        }
        i += 1;
    }
    proof {
        assert(x@ =~= y@);
        lemma_encode_injective(a@, b@);
    }
    true
}

/// The part of `input` that lies before `rest`, where `rest` is what a
/// parser left of `input`.
pub fn span_before<'a>(input: &'a str, rest: &str) -> (span: &'a str)
    requires
        is_remainder_of(rest@, input@),
    ensures
        span@ == input@.take(input@.len() - rest@.len()),
{
    let ghost head = input@.take(input@.len() - rest@.len());
    proof {
        assert(input@ =~= head + rest@);
        lemma_encode_concat(head, rest@);
        lemma_boundary_after_prefix(head, rest@);
    }
    let cut = input.as_bytes().len() - rest.as_bytes().len();
    let (span, _) = input.split_at(cut);
    proof {
        assert(encode_utf8(input@).subrange(0, cut as int) =~= encode_utf8(head));
        lemma_encode_injective(span@, head);
    }
    span
}

} // verus!
