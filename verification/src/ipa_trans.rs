//! Transliteration by an ordered list of pattern and replacement pairs.

use crate::error::{Diagnostic, DiagnosticView, ErrorKind, Fault, FaultView};
use crate::outside::{regex_compiles, regex_replace_all, regex_replaced};
use crate::text::{to_chars, to_string};
use vstd::prelude::*;

verus! {

/// A regular expression and what replaces each of its matches.
#[derive(Clone, Debug, PartialEq, Eq)]
pub struct TransPair(pub String, pub String);

/// `text` after the first `n` of `pairs` have been applied in order, each to
/// the whole text that the pairs before it left. A pattern that is no regular
/// expression is the error, by its index.
pub open spec fn pairs_applied(pairs: Seq<TransPair>, n: nat, text: Seq<char>) -> Result<
    Seq<char>,
    int,
>
    decreases n,
{
    if n == 0 || n > pairs.len() {
        Ok(text)
    } else {
        match pairs_applied(pairs, (n - 1) as nat, text) {
            Err(i) => Err(i),
            Ok(so_far) => if regex_compiles(pairs[n - 1].0@) {
                Ok(regex_replaced(pairs[n - 1].0@, so_far, pairs[n - 1].1@))
            } else {
                Err(n - 1)
            },
        }
    }
}

/// The error for a pattern that is no regular expression.
pub open spec fn invalid_regex(pattern: Seq<char>) -> DiagnosticView {
    DiagnosticView {
        kind: ErrorKind::Directive,
        file: None,
        line: None,
        fault: FaultView::InvalidRegex(pattern),
    }
}

/// A translator from an ASCII notation to IPA.
pub trait IpaTranslate {
    /// The translation of `text`, or the error that stops it.
    spec fn translated(&self, text: Seq<char>) -> Result<Seq<char>, DiagnosticView>;

    /// Translates `text`.
    fn translate(&self, text: &str) -> (res: Result<String, Diagnostic>)
        ensures
            match res {
                Ok(out) => self.translated(text@) == Ok::<Seq<char>, DiagnosticView>(out@),
                Err(e) => self.translated(text@) == Err::<Seq<char>, DiagnosticView>(e@),
            },
    ;
}

impl IpaTranslate for Vec<TransPair> {
    /// The pairs applied strictly in order; the first pattern that is no
    /// regular expression is the error.
    open spec fn translated(&self, text: Seq<char>) -> Result<Seq<char>, DiagnosticView> {
        match pairs_applied(self@, self@.len(), text) {
            Ok(out) => Ok(out),
            Err(i) => Err(invalid_regex(self@[i].0@)),
        }
    }

    fn translate(&self, text: &str) -> (res: Result<String, Diagnostic>) {
        let mut current = to_string(&to_chars(text));
        let mut i: usize = 0;
        while i < self.len()
            invariant
                i <= self.len(),
                pairs_applied(self@, i as nat, text@) == Ok::<Seq<char>, int>(current@),
            decreases self.len() - i,
        {
            match regex_replace_all(self[i].0.as_str(), current.as_str(), self[i].1.as_str()) {
                Ok(next) => {
                    current = next;
                },
                Err(_) => {
                    proof {
                        lemma_pairs_error_stays(self@, (i + 1) as nat, text@);
                    }
                    return Err(
                        Diagnostic {
                            kind: ErrorKind::Directive,
                            file: None,
                            line: None,
                            fault: Fault::InvalidRegex(self[i].0.clone()),
                        },
                    );
                },
            }
            i += 1;
        }
        Ok(current)
    }
}

/// The error of the first pairs is the error of all of them.
proof fn lemma_pairs_error_stays(pairs: Seq<TransPair>, k: nat, text: Seq<char>)
    requires
        k <= pairs.len(),
        pairs_applied(pairs, k, text) is Err,
    ensures
        pairs_applied(pairs, pairs.len(), text) == pairs_applied(pairs, k, text),
    decreases pairs.len() - k,
{
    if k < pairs.len() {
        lemma_pairs_error_stays(pairs, k + 1, text);
    }
}

} // verus!
