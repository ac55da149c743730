//! The transforms of the format directive.

use crate::outside::{
    branner_ipa, branner_to_ipa, praat_ipa, praat_to_ipa, xsampa_ipa, xsampa_to_ipa,
};
use crate::text::{append, append_str, to_chars, to_string};
use std::collections::HashMap;
use vstd::prelude::*;

verus! {

/// What the specifier `c` makes of `text`: the style letters wrap it in
/// their pair of tags, the transcription letters translate it to IPA, and
/// any other character is no specifier.
pub open spec fn styled(c: char, text: Seq<char>) -> Option<Seq<char>> {
    if c == 'b' {
        Some("<b>"@ + text + "</b>"@)
    } else if c == 'i' {
        Some("<i>"@ + text + "</i>"@)
    } else if c == '_' {
        Some("<sub>"@ + text + "</sub>"@)
    } else if c == '^' {
        Some("<sup>"@ + text + "</sup>"@)
    } else if c == 's' {
        Some("<s>"@ + text + "</s>"@)
    } else if c == 'x' {
        Some(xsampa_ipa(text))
    } else if c == 'p' {
        Some(praat_ipa(text))
    } else if c == 'B' {
        Some(branner_ipa(text))
    } else {
        None
    }
}

/// `text` after the specifiers of `spec` have been applied from left to
/// right, each at its first occurrence only; the first character that is no
/// specifier is the error.
pub open spec fn formatted(spec: Seq<char>, text: Seq<char>) -> Result<Seq<char>, char>
    decreases spec.len(),
{
    if spec.len() == 0 {
        Ok(text)
    } else {
        match formatted(spec.drop_last(), text) {
            Err(c) => Err(c),
            Ok(so_far) => if spec.drop_last().contains(spec.last()) {
                Ok(so_far)
            } else {
                match styled(spec.last(), so_far) {
                    Some(next) => Ok(next),
                    None => Err(spec.last()),
                }
            },
        }
    }
}

/// The characters of `spec` that repeat an earlier one, in order.
pub open spec fn repeated(spec: Seq<char>) -> Seq<char>
    decreases spec.len(),
{
    if spec.len() == 0 {
        Seq::empty()
    } else if spec.drop_last().contains(spec.last()) {
        repeated(spec.drop_last()).push(spec.last())
    } else {
        repeated(spec.drop_last())
    }
}

/// A specifier takes effect once: a specification followed by a specifier
/// that it already holds formats every text as the specification alone does.
pub proof fn lemma_repeated_specifier(spec: Seq<char>, c: char, text: Seq<char>)
    requires
        spec.contains(c),
    ensures
        formatted(spec.push(c), text) == formatted(spec, text),
{
    assert(spec.push(c).drop_last() =~= spec);
}

/// The code point of a character.
pub open spec fn code_point(c: char) -> u32 {
    c as u32
}

/// A formatted text and the specifiers that were redundant.
#[derive(Debug)]
pub struct Formatted {
    pub text: Vec<char>,
    pub repeated: Vec<char>,
}

/// Wraps `text` in the tags `open` and `close`.
fn tag_surround(open: &str, close: &str, text: &Vec<char>) -> (out: Vec<char>)
    ensures
        out@ == open@ + text@ + close@,
{
    let mut out: Vec<char> = Vec::new();
    append_str(&mut out, open);
    append(&mut out, text);
    append_str(&mut out, close);
    assert(out@ =~= open@ + text@ + close@);
    out
}

/// Applies one specifier; see [`styled`].
fn style(c: char, text: &Vec<char>) -> (res: Option<Vec<char>>)
    ensures
        match res {
            Some(out) => styled(c, text@) == Some(out@),
            None => styled(c, text@) is None,
        },
{
    if c == 'b' {
        Some(tag_surround("<b>", "</b>", text))
    } else if c == 'i' {
        Some(tag_surround("<i>", "</i>", text))
    } else if c == '_' {
        Some(tag_surround("<sub>", "</sub>", text))
    } else if c == '^' {
        Some(tag_surround("<sup>", "</sup>", text))
    } else if c == 's' {
        Some(tag_surround("<s>", "</s>", text))
    } else if c == 'x' {
        Some(to_chars(xsampa_to_ipa(to_string(text).as_str()).as_str()))
    } else if c == 'p' {
        Some(to_chars(praat_to_ipa(to_string(text).as_str()).as_str()))
    } else if c == 'B' {
        Some(to_chars(branner_to_ipa(to_string(text).as_str()).as_str()))
    } else {
        None
    }
}

/// Applies the specifiers of `spec` to `text` from left to right. A
/// specifier that occurred before changes nothing and is reported as
/// redundant; a character that is no specifier is the error.
pub fn single_fmt(spec: &Vec<char>, text: &Vec<char>) -> (res: Result<Formatted, char>)
    ensures
        match res {
            Ok(done) => formatted(spec@, text@) == Ok::<Seq<char>, char>(done.text@)
                && done.repeated@ == repeated(spec@),
            Err(c) => formatted(spec@, text@) == Err::<Seq<char>, char>(c),
        },
{
    let mut current: Vec<char> = Vec::new();
    append(&mut current, text);
    let mut again: Vec<char> = Vec::new();
    // The specifiers met so far, by their code points.
    let mut seen: HashMap<u32, bool> = HashMap::new();
    let mut i: usize = 0;
    assert(spec@.take(0) =~= Seq::<char>::empty());
    while i < spec.len()
        invariant
            i <= spec.len(),
            formatted(spec@.take(i as int), text@) == Ok::<Seq<char>, char>(current@),
            again@ == repeated(spec@.take(i as int)),
            forall|d: char|
                spec@.take(i as int).contains(d) == #[trigger] seen@.contains_key(code_point(d)),
        decreases spec.len() - i,
    {
        let c = spec[i];
        let ghost before = seen@;
        assert(spec@.take(i + 1).drop_last() =~= spec@.take(i as int));
        assert(spec@.take(i + 1).last() == c);
        assert(before.contains_key(code_point(c)) == spec@.take(i as int).contains(c));
        let met = seen.insert(c as u32, true).is_some();
        assert(seen@ == before.insert(code_point(c), true));
        assert forall|d: char|
            spec@.take(i + 1).contains(d) == #[trigger] seen@.contains_key(code_point(d)) by {
            assert(before.contains_key(code_point(d)) == spec@.take(i as int).contains(d));
            if code_point(d) == code_point(c) {
                vstd::utf8::char_u32_cast(d, code_point(d));
                vstd::utf8::char_u32_cast(c, code_point(c));
                assert(spec@.take(i + 1)[i as int] == c);
            }
            let shorter = spec@.take(i as int);
            let longer = spec@.take(i + 1);
            if shorter.contains(d) {
                let k = choose|k: int| 0 <= k < shorter.len() && #[trigger] shorter[k] == d;
                assert(longer[k] == d);
            }
            if longer.contains(d) && d != c {
                let k = choose|k: int| 0 <= k < longer.len() && #[trigger] longer[k] == d;
                assert(shorter[k] == d);
            }
        }
        if met {
            again.push(c);
        } else {
            match style(c, &current) {
                Some(next) => {
                    current = next;
                },
                None => {
                    proof {
                        lemma_format_error_stays(spec@, i + 1, text@);
                    }
                    return Err(c);
                },
            }
        }
        i += 1;
    }
    assert(spec@.take(spec.len() as int) =~= spec@);
    Ok(Formatted { text: current, repeated: again })
}

/// The error of a prefix of a specification is the error of the whole.
proof fn lemma_format_error_stays(spec: Seq<char>, k: int, text: Seq<char>)
    requires
        0 <= k <= spec.len(),
        formatted(spec.take(k), text) is Err,
    ensures
        formatted(spec, text) == formatted(spec.take(k), text),
    decreases spec.len() - k,
{
    if k < spec.len() {
        assert(spec.take(k + 1).drop_last() =~= spec.take(k));
        lemma_format_error_stays(spec, k + 1, text);
    } else {
        assert(spec.take(k) =~= spec);
    }
}

} // verus!
