//! Postprocessing of rendered HTML for documents that escape with a
//! backslash.

use crate::escape::EscapeScheme;
use crate::text::{to_chars, to_string};
use vstd::prelude::*;

verus! {

/// Turns the protected codes of the backslash scheme back into `{`, `}`,
/// `\` and `.`; a code that stands for nothing is removed.
pub fn deprotect_escape(html: &str) -> (out: String)
    ensures
        out@ == EscapeScheme::Backslash.deprotected(html@),
{
    let chars = to_chars(html);
    to_string(&EscapeScheme::Backslash.deprotect(&chars))
}

/// Postprocesses rendered HTML: deprotects its escape codes.
pub fn postprocess(html: &str) -> (out: String)
    ensures
        out@ == EscapeScheme::Backslash.deprotected(html@),
{
    deprotect_escape(html)
}

} // verus!
