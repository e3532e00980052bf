//! Strings as sequences of characters.
//!
//! The text functions of this crate are stated over `Seq<char>`, the view of
//! a string. This module moves between strings and vectors of characters and
//! holds what is taken on trust from the standard library.

use vstd::prelude::*;

verus! {

/// Whether a character is white space in the sense of
/// `char::is_whitespace`.
pub uninterp spec fn white_space(c: char) -> bool;

/// The lowercase form of a text in the sense of `str::to_lowercase`.
pub uninterp spec fn lowercase(s: Seq<char>) -> Seq<char>;

/// `char::is_whitespace`: the answer is a function of the character alone,
/// and is given the name [`white_space`].
pub assume_specification[ char::is_whitespace ](c: char) -> (b: bool)
    ensures
        b == white_space(c),
;

/// `str::to_lowercase`: the result is a function of the text alone, and is
/// given the name [`lowercase`].
pub assume_specification[ str::to_lowercase ](s: &str) -> (r: String)
    ensures
        r@ == lowercase(s@),
;

/// `String::push`: the character is appended to the end of the string.
pub assume_specification[ String::push ](s: &mut String, ch: char)
    ensures
        final(s)@ == old(s)@.push(ch),
;

/// The characters of a string, in order.
pub fn to_chars(s: &str) -> (v: Vec<char>)
    ensures
        v@ == s@,
{
    let mut v: Vec<char> = Vec::new();
    for c in it: s.chars()
        invariant
            v@ == it.seq().take(it.index() as int),
    {
        v.push(c);
    }
    v
}

/// The string made of the given characters, in order.
pub fn from_chars(v: &Vec<char>) -> (s: String)
    ensures
        s@ == v@,
{
    let mut s: String = String::new();
    let mut i: usize = 0;
    while i < v.len()
        invariant
            i <= v.len(),
            s@ == v@.take(i as int),
        decreases v.len() - i,
    {
        s.push(v[i]);
        i += 1;
    }
    s
}

} // verus!
