//! Characters and strings: what the standard library decides about a
//! character, and verified helpers that read and build strings.

use vstd::prelude::*;

verus! {

/// Whether `c` has the Unicode property `White_Space`, as
/// `char::is_whitespace` reports it.
pub uninterp spec fn white_space_property(c: char) -> bool;

/// Whether `c` is a whitespace character: the space, the line feed, and every
/// other character with the Unicode property `White_Space`.
pub open spec fn is_white_space(c: char) -> bool {
    c == ' ' || c == '\n' || white_space_property(c)
}

/// `char::is_whitespace`: the result is a property of the character alone.
/// The standard library's documentation counts the space and the line feed
/// among the whitespace characters; of the others this says only that the
/// answer is the same for the same character.
pub assume_specification[ char::is_whitespace ](c: char) -> (b: bool)
    ensures
        b == (c == ' ' || c == '\n' || white_space_property(c)),
;

/// `String::push`: appends the character at the end of the string.
pub assume_specification[ String::push ](s: &mut String, c: char)
    ensures
        final(s)@ == old(s)@.push(c),
;

/// `str`'s `==`: two strings are equal where they hold the same characters in
/// the same order.
#[verifier::external_body]
pub(crate) fn same_text(a: &str, b: &str) -> (same: bool)
    ensures
        same == (a@ == b@),
{
    a == b
}

/// Every character of `text` is whitespace.
pub open spec fn is_blank(text: Seq<char>) -> bool {
    forall|i: int| 0 <= i < text.len() ==> is_white_space(text[i])
}

/// The characters of `s`, in order.
pub fn chars_of(s: &str) -> (chars: Vec<char>)
    ensures
        chars@ == s@,
{
    let mut chars: Vec<char> = Vec::new();
    for c in it: s.chars()
        invariant
            chars@ == it.seq().take(it.index() as int),
            it.seq() == s@,
    {
        chars.push(c);
    }
    chars
}

/// Whether `s` holds whitespace only.
pub fn is_blank_text(s: &str) -> (blank: bool)
    ensures
        blank == is_blank(s@),
{
    let chars = chars_of(s);
    let mut i: usize = 0;
    while i < chars.len()
        invariant
            chars@ == s@,
            i <= chars.len(),
            forall|j: int| 0 <= j < i ==> is_white_space(chars[j]),
        decreases chars.len() - i,
    {
        if !chars[i].is_whitespace() {
            return false;
        }
        i += 1;
    }
    true
}

} // verus!
