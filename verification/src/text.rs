//! Helpers on strings that the utilities share.

use vstd::prelude::*;
use vstd::string::StringSliceAdditionalSpecFns;
use vstd::utf8::encode_utf8;
use vstd::utf8::encode_utf8_decode_utf8;

verus! {

/// The line feed character.
pub open spec fn line_feed() -> char {
    '\n'
}

/// The carriage return character.
pub open spec fn carriage_return() -> char {
    '\r'
}

/// Whether `c` is white space, as the standard library's `char::is_whitespace`
/// tells it: whether the character has the Unicode property `White_Space`.
pub uninterp spec fn white_space(c: char) -> bool;

/// `char::is_whitespace` of the standard library. Its answer depends on the
/// character alone, so it is the value of [`white_space`] for it.
pub assume_specification[ char::is_whitespace ](c: char) -> (white: bool)
    ensures
        white == white_space(c),
;

/// Whether `text` holds nothing but white space.
pub open spec fn is_blank(text: Seq<char>) -> bool {
    forall|i: int| 0 <= i < text.len() ==> white_space(#[trigger] text[i])
}

/// Tells whether `text` holds nothing but white space.
pub fn blank(text: &str) -> (b: bool)
    ensures
        b == is_blank(text@),
{
    for c in it: text.chars()
        invariant
            it.seq() == text@,
            forall|i: int| 0 <= i < it.index() ==> white_space(#[trigger] text@[i]),
    {
        if !c.is_whitespace() {
            return false;
        }
    }
    true
}

/// Two character sequences with the same UTF-8 encoding are the same sequence.
pub proof fn lemma_encoding_is_injective(a: Seq<char>, b: Seq<char>)
    requires
        encode_utf8(a) == encode_utf8(b),
    ensures
        a == b,
{
    encode_utf8_decode_utf8(a);
    encode_utf8_decode_utf8(b);
}

/// Whether `a` and `b` hold the same characters.
pub fn same_text(a: &str, b: &str) -> (same: bool)
    ensures
        same == (a@ == b@),
{
    let x = a.as_bytes();
    let y = b.as_bytes();
    if x.len() != y.len() {
        return false;
    }
    let mut i: usize = 0;
    while i < x.len()
        invariant
            i <= x.len(),
            x.len() == y.len(),
            x@ == a.spec_bytes(),
            y@ == b.spec_bytes(),
            forall|j: int| 0 <= j < i ==> x@[j] == y@[j],
        decreases x.len() - i,
    {
        if x[i] != y[i] {
            return false;
        }
        i += 1;
    }
    proof {
        assert(x@ =~= y@);
        lemma_encoding_is_injective(a@, b@);
    }
    true
}

} // verus!
