//! Plain helpers that move between strings and sequences of characters, and
//! the two facts about `std`'s strings that the rest of the crate relies on.

use vstd::prelude::*;

verus! {

/// The lowercase form that `str::to_lowercase` gives a text. It follows the
/// Unicode rules, which this crate does not spell out.
pub uninterp spec fn lowercase_of(text: Seq<char>) -> Seq<char>;

/// Whether every character of `text` is an ASCII character.
pub open spec fn is_ascii_text(text: Seq<char>) -> bool {
    forall|i: int| 0 <= i < text.len() ==> (#[trigger] text[i] as int) < 128
}

/// A capital ASCII letter as its small letter; any other character unchanged.
pub open spec fn lower_char(c: char) -> char {
    if 65 <= c as int <= 90 {
        ((c as int) + 32) as char
    } else {
        c
    }
}

/// A small ASCII letter as its capital letter; any other character unchanged.
pub open spec fn upper_char(c: char) -> char {
    if 97 <= c as int <= 122 {
        ((c as int) - 32) as char
    } else {
        c
    }
}

/// `text` with each capital ASCII letter made small.
pub open spec fn ascii_lowercase(text: Seq<char>) -> Seq<char> {
    Seq::new(text.len(), |i: int| lower_char(text[i]))
}

/// `text` with each small ASCII letter made capital.
pub open spec fn ascii_uppercase(text: Seq<char>) -> Seq<char> {
    Seq::new(text.len(), |i: int| upper_char(text[i]))
}

/// `String::push` of `std`: the string afterwards is the string before with
/// `c` appended.
pub assume_specification[ String::push ](s: &mut String, c: char)
    ensures
        final(s)@ == old(s)@.push(c),
;

/// Calls `str::to_lowercase` of `std`. The result is named `lowercase_of`;
/// on a text of ASCII characters alone it is the text with its capital
/// letters `A` to `Z` made small and everything else left as it was.
#[verifier::external_body]
pub(crate) fn lowercase(text: &str) -> (r: String)
    ensures
        r@ == lowercase_of(text@),
        is_ascii_text(text@) ==> r@ == ascii_lowercase(text@),
{
    text.to_lowercase()
}

/// The characters of `s`, in order.
pub fn chars_of(s: &str) -> (r: Vec<char>)
    ensures
        r@ == s@,
{
    broadcast use vstd::string::axiom_spec_iter;

    let mut r: Vec<char> = Vec::new();
    for c in it: s.chars()
        invariant
            it.seq() == s@,
            r@ == it.history@,
    {
        r.push(c);
    }
    assert(r@ =~= s@);
    r
}

} // verus!
