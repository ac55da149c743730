//! The staged preprocessor for documents that escape with a backslash: an
//! ordered pipeline of stages, one per family of directives, that is run
//! again and again until the text holds no directive.

use crate::error::{located, Diagnostic, DiagnosticView, ErrorKind, Fault, FaultView};
use crate::escape::EscapeScheme;
use crate::files::SourceFile;
use crate::format::{formatted, repeated, single_fmt};
use crate::lang_util::{
    collapse_whitespace, collapsed, is_space, lemma_collapsed_keeps, lemma_scan_advances, scan,
    skip_space, word_at, Vocabulary,
};
use crate::pipeline::{
    balance_fault, balanced, check_balance, preprocessed_with, run, work_left,
};
use crate::preproc::{
    find_directive, next_directive, run_stage, stage_run, Preprocessed, Stage, Workspace,
    WorkspaceView,
};
use crate::text::{prefixed_at, to_chars, to_string};
use vstd::prelude::*;

verus! {

/// The stages of one pass, in their order.
pub open spec fn stages() -> Seq<Stage> {
    seq![
        Stage::Macros,
        Stage::Includes,
        Stage::Links,
        Stage::Formats,
        Stage::Unicodes,
        Stage::Replacements,
        Stage::Tables,
    ]
}

/// The result of preprocessing `src`: its escapes are protected and its
/// braces counted; then the stages are run in their order, each followed by
/// the same check, and pass after pass until the text holds no directive; at
/// last every run of white space in the text becomes one space. No stage
/// resolves more than `limit` directives at a time and no more than `limit`
/// passes are run. An error names the file `file`.
pub open spec fn preprocessed(
    file: Seq<char>,
    src: Seq<char>,
    files: Seq<SourceFile>,
    limit: nat,
) -> Result<WorkspaceView, DiagnosticView> {
    located(
        match preprocessed_with(EscapeScheme::Backslash, stages(), src, files, limit) {
            Err(e) => Err(e),
            Ok(st) => Ok(WorkspaceView { text: collapsed(st.text), ..st }),
        },
        file,
    )
}

/// Whether a directive keyword stands at offset `at`.
pub open spec fn directive_at(s: Seq<char>, at: int) -> bool {
    word_at(Vocabulary::Directives, s, at) is Some
}

/// Whether a text holds no white space.
pub open spec fn spaceless(w: Seq<char>) -> bool {
    forall|k: int| 0 <= k < w.len() ==> !is_space(#[trigger] w[k])
}

/// No directive keyword holds white space.
proof fn lemma_keywords_spaceless()
    ensures
        spaceless(".define_macro"@),
        spaceless(".macro"@),
        spaceless(".include"@),
        spaceless(".link"@),
        spaceless(".format"@),
        spaceless(".unicode"@),
        spaceless(".replace_all"@),
        spaceless(".external_table"@),
{
    reveal_strlit(".define_macro");
    reveal_strlit(".macro");
    reveal_strlit(".include");
    reveal_strlit(".link");
    reveal_strlit(".format");
    reveal_strlit(".unicode");
    reveal_strlit(".replace_all");
    reveal_strlit(".external_table");
}

/// White space is all that is skipped.
proof fn lemma_skipped_is_space(s: Seq<char>, from: int)
    requires
        0 <= from,
    ensures
        forall|k: int| from <= k < skip_space(s, from) ==> is_space(#[trigger] s[k]),
    decreases s.len() - from,
{
    if from < s.len() && is_space(s[from]) {
        lemma_skipped_is_space(s, from + 1);
    }
}

/// A text in which no directive is found from `from` on holds no directive
/// keyword from there on.
proof fn lemma_no_directive_no_keyword(s: Seq<char>, from: int)
    requires
        0 <= from <= s.len(),
        next_directive(s, from, Stage::Everything) is None,
    ensures
        forall|i: int| from <= i ==> !#[trigger] directive_at(s, i),
    decreases s.len() - from,
{
    reveal_strlit(".define_macro");
    reveal_strlit(".macro");
    reveal_strlit(".include");
    reveal_strlit(".link");
    reveal_strlit(".format");
    reveal_strlit(".unicode");
    reveal_strlit(".replace_all");
    reveal_strlit(".external_table");
    lemma_skipped_is_space(s, from);
    lemma_scan_advances(Vocabulary::Directives, s, from);
    let at = skip_space(s, from);
    if at < s.len() {
        lemma_no_directive_no_keyword(s, at + 1);
    }
    assert forall|i: int| from <= i implies !#[trigger] directive_at(s, i) by {
        if i < at {
            assert(is_space(s[i]));
            if prefixed_at(s, i, ".define_macro"@) {
                assert(s.subrange(i, i + ".define_macro"@.len())[0] == s[i]);
            }
            if prefixed_at(s, i, ".macro"@) {
                assert(s.subrange(i, i + ".macro"@.len())[0] == s[i]);
            }
            if prefixed_at(s, i, ".include"@) {
                assert(s.subrange(i, i + ".include"@.len())[0] == s[i]);
            }
            if prefixed_at(s, i, ".link"@) {
                assert(s.subrange(i, i + ".link"@.len())[0] == s[i]);
            }
            if prefixed_at(s, i, ".format"@) {
                assert(s.subrange(i, i + ".format"@.len())[0] == s[i]);
            }
            if prefixed_at(s, i, ".unicode"@) {
                assert(s.subrange(i, i + ".unicode"@.len())[0] == s[i]);
            }
            if prefixed_at(s, i, ".replace_all"@) {
                assert(s.subrange(i, i + ".replace_all"@.len())[0] == s[i]);
            }
            if prefixed_at(s, i, ".external_table"@) {
                assert(s.subrange(i, i + ".external_table"@.len())[0] == s[i]);
            }
        } else if i == at {
            assert(scan(Vocabulary::Directives, s, from).start == at);
        }
    }
}

/// A text that holds no directive keyword from `from` on is one in which no
/// directive is found from there on.
proof fn lemma_no_keyword_no_directive(s: Seq<char>, from: int)
    requires
        0 <= from <= s.len(),
        forall|i: int| from <= i ==> !#[trigger] directive_at(s, i),
    ensures
        next_directive(s, from, Stage::Everything) is None,
    decreases s.len() - from,
{
    lemma_scan_advances(Vocabulary::Directives, s, from);
    let at = skip_space(s, from);
    if at < s.len() {
        assert(!directive_at(s, at));
        lemma_no_keyword_no_directive(s, at + 1);
    }
}

/// A word without white space that the collapsed text ends with is one
/// that the text ends with.
proof fn lemma_collapsed_suffix(s: Seq<char>, w: Seq<char>)
    requires
        spaceless(w),
        w.len() <= collapsed(s).len(),
        collapsed(s).subrange(collapsed(s).len() - w.len(), collapsed(s).len() as int) == w,
    ensures
        w.len() <= s.len(),
        s.subrange(s.len() - w.len(), s.len() as int) == w,
    decreases s.len(),
{
    if w.len() == 0 {
        assert(s.subrange(s.len() as int, s.len() as int) =~= w);
    } else {
        let c = collapsed(s);
        let before = collapsed(s.drop_last());
        assert(c.last() == w.last());
        assert(!is_space(w[w.len() - 1]));
        if !is_space(s.last()) {
            let shorter = w.drop_last();
            assert(before.subrange(before.len() - shorter.len(), before.len() as int)
                =~= shorter);
            lemma_collapsed_suffix(s.drop_last(), shorter);
            let rest = s.drop_last();
            assert(c.last() == s.last());
            assert(w =~= shorter.push(s.last()));
            assert(s.subrange(s.len() - w.len(), s.len() as int) =~= rest.subrange(
                rest.len() - shorter.len(),
                rest.len() as int,
            ).push(s.last()));
        } else if s.len() >= 2 && is_space(s[s.len() - 2]) {
            assert(c =~= before);
            lemma_collapsed_suffix(s.drop_last(), w);
            assert(s.drop_last().subrange(s.len() - 1 - w.len(), s.len() - 1)[w.len() - 1]
                == s[s.len() - 2]);
        } else {
        }
    }
}

/// A word without white space that stands in the collapsed text stands in
/// the text.
proof fn lemma_collapsed_word(s: Seq<char>, j: int, w: Seq<char>) -> (i: int)
    requires
        spaceless(w),
        w.len() > 0,
        prefixed_at(collapsed(s), j, w),
    ensures
        prefixed_at(s, i, w),
    decreases s.len(),
{
    let c = collapsed(s);
    let before = collapsed(s.drop_last());
    if j + w.len() <= before.len() {
        assert(before.subrange(j, j + w.len()) =~= c.subrange(j, j + w.len()));
        let i = lemma_collapsed_word(s.drop_last(), j, w);
        assert(s.subrange(i, i + w.len()) =~= s.drop_last().subrange(i, i + w.len()));
        i
    } else {
        assert(j + w.len() == c.len());
        lemma_collapsed_suffix(s, w);
        s.len() - w.len()
    }
}

/// A directive keyword that stands in the collapsed text stands in the
/// text.
proof fn lemma_directive_survives(s: Seq<char>, j: int)
    requires
        directive_at(collapsed(s), j),
    ensures
        exists|i: int| directive_at(s, i),
{
    lemma_keywords_spaceless();
    reveal_strlit(".define_macro");
    reveal_strlit(".macro");
    reveal_strlit(".include");
    reveal_strlit(".link");
    reveal_strlit(".format");
    reveal_strlit(".unicode");
    reveal_strlit(".replace_all");
    reveal_strlit(".external_table");
    let c = collapsed(s);
    if prefixed_at(c, j, ".define_macro"@) {
        let i = lemma_collapsed_word(s, j, ".define_macro"@);
        assert(directive_at(s, i));
    } else if prefixed_at(c, j, ".macro"@) {
        let i = lemma_collapsed_word(s, j, ".macro"@);
        assert(directive_at(s, i));
    } else if prefixed_at(c, j, ".include"@) {
        let i = lemma_collapsed_word(s, j, ".include"@);
        assert(directive_at(s, i));
    } else if prefixed_at(c, j, ".link"@) {
        let i = lemma_collapsed_word(s, j, ".link"@);
        assert(directive_at(s, i));
    } else if prefixed_at(c, j, ".format"@) {
        let i = lemma_collapsed_word(s, j, ".format"@);
        assert(directive_at(s, i));
    } else if prefixed_at(c, j, ".unicode"@) {
        let i = lemma_collapsed_word(s, j, ".unicode"@);
        assert(directive_at(s, i));
    } else if prefixed_at(c, j, ".replace_all"@) {
        let i = lemma_collapsed_word(s, j, ".replace_all"@);
        assert(directive_at(s, i));
    } else if prefixed_at(c, j, ".external_table"@) {
        let i = lemma_collapsed_word(s, j, ".external_table"@);
        assert(directive_at(s, i));
    }
}

/// Collapsing white space brings no directive about: where a text holds
/// none, the collapsed text holds none.
pub proof fn lemma_collapsed_no_work(s: Seq<char>)
    requires
        !work_left(s),
    ensures
        !work_left(collapsed(s)),
{
    lemma_no_directive_no_keyword(s, 0);
    let c = collapsed(s);
    assert forall|j: int| 0 <= j implies !#[trigger] directive_at(c, j) by {
        if directive_at(c, j) {
            lemma_directive_survives(s, j);
            let i = choose|i: int| directive_at(s, i);
            assert(0 <= i);
        }
    }
    lemma_no_keyword_no_directive(c, 0);
}

/// Brace balance of the result: every text that preprocessing returns holds
/// as many `{` as `}`, and no directive.
pub proof fn lemma_preprocessed_balanced(
    file: Seq<char>,
    src: Seq<char>,
    files: Seq<SourceFile>,
    limit: nat,
)
    ensures
        preprocessed(file, src, files, limit) is Ok ==> {
            &&& balanced(preprocessed(file, src, files, limit)->Ok_0.text)
            &&& !work_left(preprocessed(file, src, files, limit)->Ok_0.text)
        },
{
    let inner = preprocessed_with(EscapeScheme::Backslash, stages(), src, files, limit);
    if inner is Ok {
        crate::pipeline::lemma_preprocessed_balanced(
            EscapeScheme::Backslash,
            stages(),
            src,
            files,
            limit,
        );
        lemma_collapsed_keeps(inner->Ok_0.text, '{');
        lemma_collapsed_keeps(inner->Ok_0.text, '}');
        lemma_collapsed_no_work(inner->Ok_0.text);
    }
}

/// Protects the escapes that a backslash introduces: `\{`, `\}`, `\\` and
/// `\.` become the codes of their characters. A backslash before anything
/// else, or at the end of the text, is an error.
pub fn protect_escape(src: &str) -> (res: Result<String, Diagnostic>)
    ensures
        match res {
            Ok(out) => EscapeScheme::Backslash.protected(src@) == Ok::<
                Seq<char>,
                DiagnosticView,
            >(out@),
            Err(e) => EscapeScheme::Backslash.protected(src@) == Err::<
                Seq<char>,
                DiagnosticView,
            >(e@),
        },
{
    match EscapeScheme::Backslash.protect(&to_chars(src)) {
        Ok(out) => Ok(to_string(&out)),
        Err(e) => Err(e),
    }
}

/// Succeeds where `src` holds as many `{` as `}`; fails with both counts
/// where it does not.
pub fn verify_brace_balance(src: &str) -> (res: Result<(), Diagnostic>)
    ensures
        res is Ok <==> balanced(src@),
        match res {
            Ok(_) => balance_fault(src@) is None,
            Err(e) => balance_fault(src@) == Some(e@),
        },
{
    check_balance(&to_chars(src))
}

/// Resolves the macro definitions and the macro uses of the text, in the
/// order in which they stand: a use sees the definitions before it only.
pub fn fulfill_macros(st: Workspace, limit: usize) -> (res: Result<Workspace, Diagnostic>)
    ensures
        match res {
            Ok(out) => stage_run(Stage::Macros, st@, Seq::empty(), limit as nat) == Ok::<
                WorkspaceView,
                DiagnosticView,
            >(out@),
            Err(e) => stage_run(Stage::Macros, st@, Seq::empty(), limit as nat) == Err::<
                WorkspaceView,
                DiagnosticView,
            >(e@),
        },
{
    let none: Vec<SourceFile> = Vec::new();
    assert(none@ =~= Seq::<SourceFile>::empty());
    run_stage(Stage::Macros, st, &none, limit)
}

/// Resolves the inclusions of the text: each is replaced by the contents
/// of the file it names.
pub fn fulfill_includes(st: Workspace, files: &Vec<SourceFile>, limit: usize) -> (res: Result<
    Workspace,
    Diagnostic,
>)
    ensures
        match res {
            Ok(out) => stage_run(Stage::Includes, st@, files@, limit as nat) == Ok::<
                WorkspaceView,
                DiagnosticView,
            >(out@),
            Err(e) => stage_run(Stage::Includes, st@, files@, limit as nat) == Err::<
                WorkspaceView,
                DiagnosticView,
            >(e@),
        },
{
    run_stage(Stage::Includes, st, files, limit)
}

/// Resolves the links of the text: each is replaced by its hyperlink.
pub fn fulfill_links(st: Workspace, limit: usize) -> (res: Result<Workspace, Diagnostic>)
    ensures
        match res {
            Ok(out) => stage_run(Stage::Links, st@, Seq::empty(), limit as nat) == Ok::<
                WorkspaceView,
                DiagnosticView,
            >(out@),
            Err(e) => stage_run(Stage::Links, st@, Seq::empty(), limit as nat) == Err::<
                WorkspaceView,
                DiagnosticView,
            >(e@),
        },
{
    let none: Vec<SourceFile> = Vec::new();
    assert(none@ =~= Seq::<SourceFile>::empty());
    run_stage(Stage::Links, st, &none, limit)
}

/// Resolves the format directives of the text: each is replaced by its
/// formatted text.
pub fn fulfill_formats(st: Workspace, limit: usize) -> (res: Result<Workspace, Diagnostic>)
    ensures
        match res {
            Ok(out) => stage_run(Stage::Formats, st@, Seq::empty(), limit as nat) == Ok::<
                WorkspaceView,
                DiagnosticView,
            >(out@),
            Err(e) => stage_run(Stage::Formats, st@, Seq::empty(), limit as nat) == Err::<
                WorkspaceView,
                DiagnosticView,
            >(e@),
        },
{
    let none: Vec<SourceFile> = Vec::new();
    assert(none@ =~= Seq::<SourceFile>::empty());
    run_stage(Stage::Formats, st, &none, limit)
}

/// The error for a character of a format specification that is no
/// specifier.
pub open spec fn invalid_specifier(c: char) -> DiagnosticView {
    DiagnosticView {
        kind: ErrorKind::Directive,
        file: None,
        line: None,
        fault: FaultView::InvalidFormatSpecifier(c),
    }
}

/// A formatted text and the specifiers that were redundant, in the order
/// in which they stood.
#[derive(Debug, PartialEq, Eq)]
pub struct FormattedText {
    pub text: String,
    pub repeated: Vec<char>,
}

/// Applies the specifiers of `spec` to `text` from left to right. A
/// specifier that occurred before changes nothing and is handed back as
/// redundant, for the caller to warn of; a character that is no specifier is
/// an error.
pub fn single_format(spec: &str, text: &str) -> (res: Result<FormattedText, Diagnostic>)
    ensures
        match res {
            Ok(out) => formatted(spec@, text@) == Ok::<Seq<char>, char>(out.text@)
                && out.repeated@ == repeated(spec@),
            Err(e) => formatted(spec@, text@) is Err && e@ == invalid_specifier(
                formatted(spec@, text@)->Err_0,
            ),
        },
{
    match single_fmt(&to_chars(spec), &to_chars(text)) {
        Ok(done) => Ok(FormattedText { text: to_string(&done.text), repeated: done.repeated }),
        Err(c) => Err(
            Diagnostic {
                kind: ErrorKind::Directive,
                file: None,
                line: None,
                fault: Fault::InvalidFormatSpecifier(c),
            },
        ),
    }
}

/// Tests whether `src` holds a directive.
pub fn work_left_to_do(src: &str) -> (res: bool)
    ensures
        res == work_left(src@),
{
    find_directive(&to_chars(src), Stage::Everything).is_some()
}

/// The stages of one pass, in their order.
pub fn pipeline() -> (out: Vec<Stage>)
    ensures
        out@ == stages(),
{
    let mut out: Vec<Stage> = Vec::new();
    out.push(Stage::Macros);
    out.push(Stage::Includes);
    out.push(Stage::Links);
    out.push(Stage::Formats);
    out.push(Stage::Unicodes);
    out.push(Stage::Replacements);
    out.push(Stage::Tables);
    assert(out@ =~= stages());
    out
}

/// Preprocesses the document of the file `file_path`, which escapes with a
/// backslash. Its escapes are protected and its braces counted; then the
/// stages are run in their order, each followed by the same check, and the
/// whole pass is run again until the text holds no directive; at last every
/// run of white space becomes one space. `files` are the files that
/// inclusions and external tables may name. No stage resolves more than
/// `limit` directives at a time and no more than `limit` passes are run:
/// beyond that the result is an error, as it is for the first directive that
/// cannot be resolved, for an escape that is none and for braces that do not
/// balance. The text returned is balanced and holds no directive; an error
/// names the file.
pub fn preprocess(file_path: &str, src: &str, files: &Vec<SourceFile>, limit: usize) -> (res:
    Result<Preprocessed, Diagnostic>)
    ensures
        match res {
            Ok(out) => {
                &&& preprocessed(file_path@, src@, files@, limit as nat) is Ok
                &&& preprocessed(file_path@, src@, files@, limit as nat)->Ok_0.text == out.text@
                &&& preprocessed(file_path@, src@, files@, limit as nat)->Ok_0.warnings
                    == out.warnings@
                &&& balanced(out.text@)
                &&& !work_left(out.text@)
            },
            Err(e) => preprocessed(file_path@, src@, files@, limit as nat) == Err::<
                WorkspaceView,
                DiagnosticView,
            >(e@),
        },
{
    match run(EscapeScheme::Backslash, &pipeline(), src, files, limit) {
        Err(e) => Err(e.in_file(file_path)),
        Ok(done) => {
            let text = collapse_whitespace(&to_chars(done.text.as_str()));
            proof {
                lemma_collapsed_keeps(done.text@, '{');
                lemma_collapsed_keeps(done.text@, '}');
                lemma_collapsed_no_work(done.text@);
            }
            Ok(Preprocessed { text: to_string(&text), warnings: done.warnings })
        },
    }
}

} // verus!
