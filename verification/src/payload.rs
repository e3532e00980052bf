//! Isolation of the structured payload in the raw output of the model.
//!
//! The model may wrap the graph it was asked for in a block of reasoning and
//! in a code fence. The functions here remove both and leave the text that
//! is handed to the parser.

use vstd::prelude::*;
use crate::chars::to_chars;
use crate::error::{CommonError, CommonErrorView};
use crate::text::{leading, slice_to_string, strip, strip_bounds, strip_start, CharClass};

verus! {

/// What `regex::Regex::replace_all` returns for a pattern, a haystack and a
/// replacement, and where `regex::Regex::new` rejects the pattern, the text
/// of its error.
pub uninterp spec fn regex_replaced(
    pattern: Seq<char>,
    haystack: Seq<char>,
    rep: Seq<char>,
) -> Result<Seq<char>, Seq<char>>;

/// The pattern of a block of reasoning: the shortest text from an opening
/// `<think>` to the next closing tag, line feeds included.
pub const REASONING_PATTERN: &'static str = "(?s)<think>.*?</think>";

/// The word that names the language of a fenced payload.
pub open spec fn fence_tag() -> Seq<char> {
    seq!['j', 's', 'o', 'n']
}

/// The payload inside a code fence: the text is trimmed, backticks are taken
/// from both ends, and a leading language tag goes together with the white
/// space that follows it.
pub open spec fn strip_code_fence_spec(s: Seq<char>) -> Seq<char> {
    let inner = strip(strip(s, CharClass::Whitespace), CharClass::Exactly('`'));
    if fence_tag().is_prefix_of(inner) {
        strip_start(inner.skip(4), CharClass::Whitespace)
    } else {
        inner
    }
}

/// The outcome of the removal of all blocks of reasoning from a raw model
/// output.
pub open spec fn strip_reasoning_spec(raw: Seq<char>) -> Result<Seq<char>, Seq<char>> {
    regex_replaced(REASONING_PATTERN@, raw, Seq::empty())
}

/// The payload of a raw model output, given the output without its blocks of
/// reasoning, or the reason why the blocks could not be removed.
pub open spec fn isolate_payload_spec(stripped: Result<Seq<char>, Seq<char>>) -> Result<
    Seq<char>,
    Seq<char>,
> {
    match stripped {
        Ok(t) => Ok(strip_code_fence_spec(t)),
        Err(m) => Err(m),
    }
}

/// Whether an outcome is the given text, or the failure of the pattern with
/// the given message.
pub open spec fn is_outcome(
    outcome: Result<String, CommonError>,
    expected: Result<Seq<char>, Seq<char>>,
) -> bool {
    match expected {
        Ok(t) => outcome matches Ok(s) && s@ == t,
        Err(m) => outcome matches Err(e) && e@ == CommonErrorView::RegexError(m),
    }
}

/// Compiles `pattern` with `regex::Regex::new` and replaces every match in
/// `haystack` with `regex::Regex::replace_all`; where the pattern is
/// rejected, the error is turned into its text. The outcome is a function of
/// the three texts alone and is given the name [`regex_replaced`].
#[verifier::external_body]
fn replace_all(pattern: &str, haystack: &str, rep: &str) -> (r: Result<String, String>)
    ensures
        regex_replaced(pattern@, haystack@, rep@) == (match r {
            Ok(s) => Ok::<Seq<char>, Seq<char>>(s@),
            Err(m) => Err::<Seq<char>, Seq<char>>(m@),
        }),
{
    match regex::Regex::new(pattern) {
        Ok(re) => Ok(re.replace_all(haystack, rep).into_owned()),
        Err(e) => Err(e.to_string()),
    }
}

/// Removes every match of a pattern from a text. A pattern that cannot be
/// compiled is refused.
pub fn remove_matches(pattern: &str, text: &str) -> (r: Result<String, CommonError>)
    ensures
        is_outcome(r, regex_replaced(pattern@, text@, Seq::empty())),
{
    let empty: String = String::new();
    match replace_all(pattern, text, empty.as_str()) {
        Ok(s) => Ok(s),
        Err(m) => Err(CommonError::RegexError(m)),
    }
}

/// Removes every block of reasoning from a raw model output.
pub fn strip_reasoning(raw: &str) -> (r: Result<String, CommonError>)
    ensures
        is_outcome(r, strip_reasoning_spec(raw@)),
{
    remove_matches(REASONING_PATTERN, raw)
}

/// Takes the payload out of its code fence.
pub fn strip_code_fence(text: &str) -> (r: String)
    ensures
        r@ == strip_code_fence_spec(text@),
{
    let v: Vec<char> = to_chars(text);
    assert(v@.subrange(0, v.len() as int) == v@);
    let (a, b) = strip_bounds(&v, 0, v.len(), CharClass::Whitespace);
    let (c, d) = strip_bounds(&v, a, b, CharClass::Exactly('`'));
    let ghost inner = v@.subrange(c as int, d as int);
    if d - c >= 4 && v[c] == 'j' && v[c + 1] == 's' && v[c + 2] == 'o' && v[c + 3] == 'n' {
        proof {
            assert(inner.subrange(0, 4) == fence_tag());
            assert(inner.skip(4) == v@.subrange(c + 4, d as int));
        }
        let e: usize = leading(&v, c + 4, d, CharClass::Whitespace);
        slice_to_string(&v, e, d)
    } else {
        proof {
            if fence_tag().is_prefix_of(inner) {
                assert(inner.subrange(0, 4) == fence_tag());
                assert(inner[0] == 'j' && inner[1] == 's' && inner[2] == 'o' && inner[3] == 'n');
            }
        }
        slice_to_string(&v, c, d)
    }
}

/// Isolates the structured payload of a raw model output: the blocks of
/// reasoning are removed, then the code fence.
pub fn isolate_payload(raw: &str) -> (r: Result<String, CommonError>)
    ensures
        is_outcome(r, isolate_payload_spec(strip_reasoning_spec(raw@))),
{
    match strip_reasoning(raw) {
        Ok(text) => Ok(strip_code_fence(text.as_str())),
        Err(e) => Err(e),
    }
}

} // verus!
