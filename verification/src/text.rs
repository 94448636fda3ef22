//! Operations on text that the library does not carry out itself.

use vstd::prelude::*;
use vstd::utf8::{decode_utf8, valid_utf8};

verus! {

/// The text with every match of `from` replaced by `to`: the matches are
/// taken from the left and do not overlap. `from` is not empty.
pub open spec fn replaced(text: Seq<char>, from: Seq<char>, to: Seq<char>) -> Seq<char>
    decreases text.len(),
{
    if from.len() == 0 || text.len() == 0 {
        text
    } else if from.len() <= text.len() && text.subrange(0, from.len() as int) == from {
        to + replaced(text.skip(from.len() as int), from, to)
    } else {
        seq![text[0]] + replaced(text.drop_first(), from, to)
    }
}

/// Replaces every match of `from` in `text` by `to`, with `str::replace`,
/// which takes the matches from the left, none overlapping another.
#[verifier::external_body]
pub(crate) fn replace(text: &str, from: &str, to: &str) -> (result: String)
    requires
        from@.len() > 0,
    ensures
        result@ == replaced(text@, from@, to@),
{
    text.replace(from, to)
}

/// `pattern` stands somewhere in `text`.
pub open spec fn contains_text(text: Seq<char>, pattern: Seq<char>) -> bool {
    exists|i: int|
        0 <= i && i + pattern.len() <= text.len() && #[trigger] text.subrange(
            i,
            i + pattern.len(),
        ) == pattern
}

/// Decides with `str::contains` whether `pattern` stands somewhere in
/// `text`.
#[verifier::external_body]
pub(crate) fn contains(text: &str, pattern: &str) -> (found: bool)
    ensures
        found == contains_text(text@, pattern@),
{
    text.contains(pattern)
}

/// Reads bytes as text with `String::from_utf8`: the text that the bytes
/// encode in UTF-8, or nothing where they encode none.
#[verifier::external_body]
pub(crate) fn text_of_utf8(bytes: Vec<u8>) -> (text: Option<String>)
    ensures
        match text {
            Some(text) => valid_utf8(bytes@) && text@ == decode_utf8(bytes@),
            None => !valid_utf8(bytes@),
        },
{
    String::from_utf8(bytes).ok()
}

/// What `base64::encode` makes of the bytes of a text: their encoding in
/// the standard alphabet, with padding.
pub uninterp spec fn base64_encoded(text: Seq<char>) -> Seq<char>;

/// Encodes the bytes of a text with `base64::encode`.
#[verifier::external_body]
pub(crate) fn encode_base64(text: &str) -> (encoded: String)
    ensures
        encoded@ == base64_encoded(text@),
{
    base64::encode(text)
}

} // verus!
