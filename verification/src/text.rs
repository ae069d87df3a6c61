//! The few operations on text that the reader and the evaluator take from the
//! standard library.

use vstd::prelude::*;

verus! {

/// The texts of a sequence of strings, element by element.
pub open spec fn texts(strings: Seq<String>) -> Seq<Seq<char>> {
    strings.map_values(|s: String| s@)
}

/// Whether `c` is white space: whether it has the Unicode property
/// `White_Space`. These are the characters U+0009 to U+000D, U+0020, U+0085,
/// U+00A0, U+1680, U+2000 to U+200A, U+2028, U+2029, U+202F, U+205F and
/// U+3000.
pub open spec fn whitespace(c: char) -> bool {
    let code = c as u32;
    ||| 0x0009 <= code <= 0x000D
    ||| code == 0x0020
    ||| code == 0x0085
    ||| code == 0x00A0
    ||| code == 0x1680
    ||| 0x2000 <= code <= 0x200A
    ||| code == 0x2028
    ||| code == 0x2029
    ||| code == 0x202F
    ||| code == 0x205F
    ||| code == 0x3000
}

/// `char::is_whitespace` of the standard library, which says whether a
/// character has the Unicode property `White_Space`.
#[verifier::external_body]
pub(crate) fn is_whitespace(c: char) -> (r: bool)
    ensures
        r == whitespace(c),
{
    c.is_whitespace()
}

/// `==` on `str` of the standard library: two string slices are equal exactly
/// when they hold the same characters in the same order.
#[verifier::external_body]
pub(crate) fn same_text(a: &str, b: &str) -> (r: bool)
    ensures
        r == (a@ == b@),
{
    a == b
}

/// `String::push` of the standard library: appends one character to the end
/// of the string and leaves the rest as it was.
#[verifier::external_body]
pub(crate) fn push_char(s: &mut String, c: char)
    ensures
        final(s)@ == old(s)@.push(c),
{
    s.push(c)
}

/// The words of `line`: its longest runs of characters that are not white
/// space, in order.
pub open spec fn words(line: Seq<char>) -> Seq<Seq<char>>
    decreases line.len(),
{
    if line.len() == 0 {
        Seq::empty()
    } else if whitespace(line[0]) {
        words(line.skip(1))
    } else if line.len() > 1 && !whitespace(line[1]) {
        let rest = words(line.skip(1));
        seq![seq![line[0]] + rest[0]] + rest.skip(1)
    } else {
        seq![seq![line[0]]] + words(line.skip(1))
    }
}

/// `str::split_whitespace` of the standard library, which cuts a string
/// slice at white space, as the Unicode property `White_Space` defines it,
/// and hands out the parts between, none of them empty.
#[verifier::external_body]
pub(crate) fn split_whitespace(line: &str) -> (parts: Vec<String>)
    ensures
        texts(parts@) == words(line@),
{
    let mut parts = Vec::new();
    for word in line.split_whitespace() {
        parts.push(word.to_string());
    }
    parts
}

} // verus!
