//! What this library takes on trust from the crates it calls and from the
//! standard library. Nothing here is proved: each contract restates what the
//! called function documents.

use vstd::prelude::*;

verus! {

/// Whether the `regex` crate accepts `pattern` as a regular expression.
pub uninterp spec fn regex_compiles(pattern: Seq<char>) -> bool;

/// `text` with every non-overlapping match of the regular expression
/// `pattern` replaced by `replacement`, in which `$name` refers to a capture
/// group, as the `regex` crate computes it.
pub uninterp spec fn regex_replaced(
    pattern: Seq<char>,
    text: Seq<char>,
    replacement: Seq<char>,
) -> Seq<char>;

/// The IPA text that the `ipa_translate` crate gives for X-SAMPA text.
pub uninterp spec fn xsampa_ipa(text: Seq<char>) -> Seq<char>;

/// The IPA text that the `ipa_translate` crate gives for Praat text.
pub uninterp spec fn praat_ipa(text: Seq<char>) -> Seq<char>;

/// The IPA text that the `ipa_translate` crate gives for Branner text.
pub uninterp spec fn branner_ipa(text: Seq<char>) -> Seq<char>;

/// Whether `v` is a Unicode scalar value: a code point that is no surrogate.
pub open spec fn is_scalar_value(v: u32) -> bool {
    v <= 0xD7FF || 0xE000 <= v <= 0x10FFFF
}

/// The error of the `regex` crate for a pattern it does not accept.
#[verifier::external_type_specification]
#[verifier::external_body]
pub struct ExRegexError(regex::Error);

/// Compiles `pattern` with `regex::Regex::new` and, where that succeeds,
/// replaces all its matches in `text` with `regex::Regex::replace_all`.
///
/// Trusted: the call fails exactly for the patterns that the crate rejects,
/// which depends on the pattern alone, and otherwise returns the text that
/// `replace_all` computes from the pattern, the text and the replacement.
/// Neither function panics on any input.
#[verifier::external_body]
pub(crate) fn regex_replace_all(pattern: &str, text: &str, replacement: &str) -> (res: Result<
    String,
    regex::Error,
>)
    ensures
        res is Ok <==> regex_compiles(pattern@),
        res matches Ok(out) ==> out@ == regex_replaced(pattern@, text@, replacement@),
{
    let re = regex::Regex::new(pattern)?;
    Ok(re.replace_all(text, replacement).into_owned())
}

/// Calls `ipa_translate::xsampa_to_ipa`.
///
/// Trusted: the crate applies a fixed list of textual replacements to the
/// text, so the result depends on the text alone.
#[verifier::external_body]
pub(crate) fn xsampa_to_ipa(text: &str) -> (out: String)
    ensures
        out@ == xsampa_ipa(text@),
{
    ipa_translate::xsampa_to_ipa(text)
}

/// Calls `ipa_translate::praat_to_ipa`.
///
/// Trusted: the crate applies a fixed list of textual replacements to the
/// text, so the result depends on the text alone.
#[verifier::external_body]
pub(crate) fn praat_to_ipa(text: &str) -> (out: String)
    ensures
        out@ == praat_ipa(text@),
{
    ipa_translate::praat_to_ipa(text)
}

/// Calls `ipa_translate::branner_to_ipa`.
///
/// Trusted: the crate applies a fixed list of textual replacements to the
/// text, so the result depends on the text alone.
#[verifier::external_body]
pub(crate) fn branner_to_ipa(text: &str) -> (out: String)
    ensures
        out@ == branner_ipa(text@),
{
    ipa_translate::branner_to_ipa(text)
}

/// Calls `String::push`.
///
/// Trusted: the standard library documents that the call appends the given
/// character to the end of the string.
#[verifier::external_body]
pub(crate) fn push_char(s: &mut String, c: char)
    ensures
        final(s)@ == old(s)@.push(c),
{
    s.push(c);
}

/// Calls `char::from_u32`.
///
/// Trusted: the standard library documents that the result is the character
/// with the code point `v` where `v` is a Unicode scalar value, and `None`
/// otherwise.
#[verifier::external_body]
pub(crate) fn char_from_u32(v: u32) -> (res: Option<char>)
    ensures
        res is Some <==> is_scalar_value(v),
        res matches Some(c) ==> c as u32 == v,
{
    char::from_u32(v)
}

} // verus!
