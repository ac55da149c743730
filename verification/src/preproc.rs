//! Directive resolution, and the preprocessor that resolves the directives
//! of a document in the order in which they stand, with `]]$` as the escape
//! marker.
//!
//! A directive is a keyword followed by one or two block arguments. To
//! resolve it is to replace its whole span by what it stands for.

use crate::error::{located, Diagnostic, DiagnosticView, ErrorKind, Fault, FaultView};
use crate::escape::EscapeScheme;
use crate::files::{file_contents, read_file, SourceFile};
use crate::format::{formatted, repeated, single_fmt};
use crate::lang_util::{
    block_arg, current_line, extract_arg, fault_here, lemma_scan_advances, line_number, scan,
    Directive, Lexer, Token, Vocabulary,
};
use crate::macros::MacroTable;
use crate::outside::{regex_compiles, regex_replace_all, regex_replaced};
use crate::pipeline::{balanced, preprocessed_with, run, work_left};
use crate::special_ffmt::{table_snippet, vvtab_to_vvsml};
use crate::text::{append, append_str, splice, spliced, to_chars, to_string};
use crate::unicode::{decode_codepoint, decoded_codepoint, CodepointError};
use vstd::prelude::*;

verus! {

/// A format specifier that repeated an earlier one, and the line of the
/// specification that held it.
#[derive(Clone, Copy, Debug, PartialEq, Eq, Structural)]
pub struct FormatWarning {
    pub line: usize,
    pub specifier: char,
}

impl FormatWarning {
    /// The text of the warning.
    pub open spec fn text(self) -> Seq<char> {
        "format specifier "@ + seq![self.specifier] + " is redundant"@
    }

    /// The message that describes the warning to a reader.
    pub fn message(&self) -> (out: String)
        ensures
            out@ == self.text(),
    {
        let mut out: Vec<char> = Vec::new();
        append_str(&mut out, "format specifier ");
        out.push(self.specifier);
        append_str(&mut out, " is redundant");
        assert(out@ =~= self.text());
        to_string(&out)
    }
}

/// The state of one preprocessor run: the text as it stands, the macros
/// defined so far, and the warnings given so far.
#[derive(Debug)]
pub struct Workspace {
    pub text: Vec<char>,
    pub macros: MacroTable,
    pub warnings: Vec<FormatWarning>,
}

/// The mathematical value of a [`Workspace`].
pub struct WorkspaceView {
    pub text: Seq<char>,
    pub macros: Map<Seq<char>, Seq<char>>,
    pub warnings: Seq<FormatWarning>,
}

impl View for Workspace {
    type V = WorkspaceView;

    open spec fn view(&self) -> WorkspaceView {
        WorkspaceView { text: self.text@, macros: self.macros@, warnings: self.warnings@ }
    }
}

/// The state at the start of a run over `text`.
pub open spec fn fresh(text: Seq<char>) -> WorkspaceView {
    WorkspaceView { text, macros: Map::empty(), warnings: Seq::empty() }
}

/// A directive error at the line that holds offset `at`.
pub open spec fn directive_error(s: Seq<char>, at: int, fault: FaultView) -> DiagnosticView {
    DiagnosticView { kind: ErrorKind::Directive, file: None, line: Some(line_number(s, at)), fault }
}

/// The error for rewriting that went on beyond the caller's limit.
pub open spec fn limit_reached() -> DiagnosticView {
    DiagnosticView { kind: ErrorKind::Directive, file: None, line: None, fault: FaultView::ExpansionLimit }
}

/// The state with the span from `start` to `end` of its text replaced.
pub open spec fn rewritten(st: WorkspaceView, start: int, end: int, with: Seq<char>)
    -> WorkspaceView {
    WorkspaceView { text: spliced(st.text, start, end, with), ..st }
}

/// A macro definition whose keyword ends at `end`: its name and its body
/// are read, the definition is removed from the text, and the body is stored
/// under the name.
pub open spec fn macro_defined(st: WorkspaceView, start: int, end: int) -> Result<
    WorkspaceView,
    DiagnosticView,
> {
    match block_arg(Vocabulary::Directives, st.text, end) {
        Err(e) => Err(e),
        Ok(name) => match block_arg(Vocabulary::Directives, st.text, name.end) {
            Err(e) => Err(e),
            Ok(body) => Ok(
                WorkspaceView {
                    text: spliced(st.text, start, body.end, Seq::empty()),
                    macros: st.macros.insert(name.text, body.text),
                    warnings: st.warnings,
                },
            ),
        },
    }
}

/// A macro use: replaced by the body stored under its name; a name without
/// a definition so far is an error.
pub open spec fn macro_used(st: WorkspaceView, start: int, end: int) -> Result<
    WorkspaceView,
    DiagnosticView,
> {
    match block_arg(Vocabulary::Directives, st.text, end) {
        Err(e) => Err(e),
        Ok(name) => if st.macros.contains_key(name.text) {
            Ok(rewritten(st, start, name.end, st.macros[name.text]))
        } else {
            Err(directive_error(st.text, name.close, FaultView::UndefinedMacro(name.text)))
        },
    }
}

/// A macro use sees the definition that came last: once `body` is stored
/// under the name that a use names, the use is replaced by `body`, whatever
/// the name stood for before.
pub proof fn lemma_use_after_definition(
    st: WorkspaceView,
    start: int,
    end: int,
    body: Seq<char>,
)
    requires
        block_arg(Vocabulary::Directives, st.text, end) is Ok,
    ensures
        ({
            let name = block_arg(Vocabulary::Directives, st.text, end)->Ok_0;
            let defined = WorkspaceView { macros: st.macros.insert(name.text, body), ..st };
            macro_used(defined, start, end) == Ok::<WorkspaceView, DiagnosticView>(
                rewritten(defined, start, name.end, body),
            )
        }),
{
}

/// A macro use does not see a definition that comes after it: while nothing
/// is stored under the name that a use names, the use is an error that names
/// the macro, at the line where the name ends.
pub proof fn lemma_use_before_definition(st: WorkspaceView, start: int, end: int)
    requires
        block_arg(Vocabulary::Directives, st.text, end) is Ok,
        !st.macros.contains_key(block_arg(Vocabulary::Directives, st.text, end)->Ok_0.text),
    ensures
        ({
            let name = block_arg(Vocabulary::Directives, st.text, end)->Ok_0;
            macro_used(st, start, end) == Err::<WorkspaceView, DiagnosticView>(
                directive_error(st.text, name.close, FaultView::UndefinedMacro(name.text)),
            )
        }),
{
}

/// The hyperlink with the text `text` to the address `url`.
pub open spec fn link_html(text: Seq<char>, url: Seq<char>) -> Seq<char> {
    "<a href=\""@ + url + "\">"@ + text + "</a>"@
}

/// A link: replaced by the hyperlink that its text and its address make.
pub open spec fn link_made(st: WorkspaceView, start: int, end: int) -> Result<
    WorkspaceView,
    DiagnosticView,
> {
    match block_arg(Vocabulary::Directives, st.text, end) {
        Err(e) => Err(e),
        Ok(text) => match block_arg(Vocabulary::Directives, st.text, text.end) {
            Err(e) => Err(e),
            Ok(url) => Ok(rewritten(st, start, url.end, link_html(text.text, url.text))),
        },
    }
}

/// The warning for the specifier `specifier`, at the line `line`.
pub open spec fn warning_at(line: usize, specifier: char) -> FormatWarning {
    FormatWarning { line, specifier }
}

/// The warnings for the specifiers `again`, at the line `line`.
pub open spec fn warnings_for(again: Seq<char>, line: usize) -> Seq<FormatWarning> {
    Seq::new(again.len(), |i: int| warning_at(line, again[i]))
}

/// There is one warning for each of the specifiers, in their order.
pub proof fn lemma_warnings_for(again: Seq<char>, line: usize)
    ensures
        warnings_for(again, line).len() == again.len(),
        forall|k: int|
            0 <= k < again.len() ==> #[trigger] warnings_for(again, line)[k] == warning_at(
                line,
                again[k],
            ),
{
}

/// A format directive: replaced by its text with the specifiers of its
/// specification applied, with a warning for each specifier that repeats an
/// earlier one; a character that is no specifier is an error. Both are
/// reported at the line where the specification ends.
pub open spec fn format_applied(st: WorkspaceView, start: int, end: int) -> Result<
    WorkspaceView,
    DiagnosticView,
> {
    match block_arg(Vocabulary::Directives, st.text, end) {
        Err(e) => Err(e),
        Ok(spec) => match block_arg(Vocabulary::Directives, st.text, spec.end) {
            Err(e) => Err(e),
            Ok(text) => match formatted(spec.text, text.text) {
                Err(c) => Err(
                    directive_error(st.text, spec.close, FaultView::InvalidFormatSpecifier(c)),
                ),
                Ok(out) => Ok(
                    WorkspaceView {
                        text: spliced(st.text, start, text.end, out),
                        macros: st.macros,
                        warnings: st.warnings + warnings_for(
                            repeated(spec.text),
                            line_number(st.text, spec.close),
                        ),
                    },
                ),
            },
        },
    }
}

/// A code point: replaced by the character that its hexadecimal number
/// names.
pub open spec fn unicode_decoded(st: WorkspaceView, start: int, end: int) -> Result<
    WorkspaceView,
    DiagnosticView,
> {
    match block_arg(Vocabulary::Directives, st.text, end) {
        Err(e) => Err(e),
        Ok(number) => match decoded_codepoint(number.text) {
            Ok(c) => Ok(rewritten(st, start, number.end, seq![c])),
            Err(CodepointError::Invalid) => Err(
                directive_error(st.text, number.close, FaultView::InvalidCodepoint(number.text)),
            ),
            Err(CodepointError::Undecodable) => Err(
                directive_error(st.text, number.close, FaultView::UndecodableCodepoint),
            ),
        },
    }
}

/// A replacement: the directive is removed, and in what is left of the text
/// every match of its pattern is replaced; a pattern that is no regular
/// expression is an error.
pub open spec fn all_replaced(st: WorkspaceView, start: int, end: int) -> Result<
    WorkspaceView,
    DiagnosticView,
> {
    match block_arg(Vocabulary::Directives, st.text, end) {
        Err(e) => Err(e),
        Ok(pattern) => match block_arg(Vocabulary::Directives, st.text, pattern.end) {
            Err(e) => Err(e),
            Ok(replacement) => if regex_compiles(pattern.text) {
                Ok(
                    WorkspaceView {
                        text: regex_replaced(
                            pattern.text,
                            spliced(st.text, start, replacement.end, Seq::empty()),
                            replacement.text,
                        ),
                        ..st
                    },
                )
            } else {
                Err(
                    directive_error(
                        st.text,
                        replacement.close,
                        FaultView::InvalidRegex(pattern.text),
                    ),
                )
            },
        },
    }
}

/// An external table: replaced by the markup of the text table at its path;
/// a path that cannot be read is an error.
pub open spec fn table_imported(
    st: WorkspaceView,
    files: Seq<SourceFile>,
    start: int,
    end: int,
) -> Result<WorkspaceView, DiagnosticView> {
    match block_arg(Vocabulary::Directives, st.text, end) {
        Err(e) => Err(e),
        Ok(path) => match file_contents(files, path.text) {
            Some(table) => Ok(rewritten(st, start, path.end, table_snippet(table))),
            None => Err(directive_error(st.text, path.close, FaultView::BadTablePath(path.text))),
        },
    }
}

/// An inclusion: replaced by the contents of the file at its path as they
/// are; a path that cannot be read is an error.
pub open spec fn file_included(
    st: WorkspaceView,
    files: Seq<SourceFile>,
    start: int,
    end: int,
) -> Result<WorkspaceView, DiagnosticView> {
    match block_arg(Vocabulary::Directives, st.text, end) {
        Err(e) => Err(e),
        Ok(path) => match file_contents(files, path.text) {
            Some(contents) => Ok(rewritten(st, start, path.end, contents)),
            None => Err(directive_error(st.text, path.close, FaultView::CannotInclude(path.text))),
        },
    }
}

/// The state after the directive `directive`, whose keyword spans `start` to
/// `end`, has been resolved.
#[verifier::opaque]
pub open spec fn resolved(
    st: WorkspaceView,
    files: Seq<SourceFile>,
    directive: Directive,
    start: int,
    end: int,
) -> Result<WorkspaceView, DiagnosticView> {
    match directive {
        Directive::DefineMacro => macro_defined(st, start, end),
        Directive::Macro => macro_used(st, start, end),
        Directive::Include => file_included(st, files, start, end),
        Directive::Link => link_made(st, start, end),
        Directive::Format => format_applied(st, start, end),
        Directive::Unicode => unicode_decoded(st, start, end),
        Directive::ReplaceAll => all_replaced(st, start, end),
        Directive::ExternalTable => table_imported(st, files, start, end),
    }
}

/// A family of directives that one scan resolves.
#[derive(Clone, Copy, Debug, PartialEq, Eq, Structural)]
pub enum Stage {
    /// Macro definitions and macro uses, in the order in which they stand.
    Macros,
    Includes,
    Links,
    Formats,
    Unicodes,
    Replacements,
    Tables,
    /// Every directive, in the order in which they stand.
    Everything,
}

impl Stage {
    /// Whether the stage resolves the directive `d`.
    pub open spec fn handles(self, d: Directive) -> bool {
        match self {
            Stage::Macros => d == Directive::DefineMacro || d == Directive::Macro,
            Stage::Includes => d == Directive::Include,
            Stage::Links => d == Directive::Link,
            Stage::Formats => d == Directive::Format,
            Stage::Unicodes => d == Directive::Unicode,
            Stage::Replacements => d == Directive::ReplaceAll,
            Stage::Tables => d == Directive::ExternalTable,
            Stage::Everything => true,
        }
    }

    /// Tests whether the stage resolves the directive `d`.
    pub fn resolves(self, d: Directive) -> (res: bool)
        ensures
            res == self.handles(d),
    {
        match self {
            Stage::Macros => match d {
                Directive::DefineMacro | Directive::Macro => true,
                _ => false,
            },
            Stage::Includes => match d {
                Directive::Include => true,
                _ => false,
            },
            Stage::Links => match d {
                Directive::Link => true,
                _ => false,
            },
            Stage::Formats => match d {
                Directive::Format => true,
                _ => false,
            },
            Stage::Unicodes => match d {
                Directive::Unicode => true,
                _ => false,
            },
            Stage::Replacements => match d {
                Directive::ReplaceAll => true,
                _ => false,
            },
            Stage::Tables => match d {
                Directive::ExternalTable => true,
                _ => false,
            },
            Stage::Everything => true,
        }
    }
}

/// A directive found in a text: which one, and the span of its keyword.
pub struct Found {
    pub directive: Directive,
    pub start: int,
    pub end: int,
}

/// The first token at or after offset `from` that is a directive of the
/// stage `stage`. (The test that a token ends after `from` and inside the
/// text always holds; it shows that the definition ends.)
pub open spec fn next_directive(s: Seq<char>, from: int, stage: Stage) -> Option<Found>
    decreases s.len() - from,
{
    let sc = scan(Vocabulary::Directives, s, from);
    match sc.token {
        None => None,
        Some(token) => if token is Directive && stage.handles(token->Directive_0) {
            Some(Found { directive: token->Directive_0, start: sc.start, end: sc.end })
        } else if from < sc.end <= s.len() {
            next_directive(s, sc.end, stage)
        } else {
            None
        },
    }
}

/// The state after the directives of the stage `stage` have been resolved
/// one at a time, each time the first that the text then holds, until none
/// is left; an error once `fuel` of them have been resolved and one is left.
pub open spec fn stage_run(stage: Stage, st: WorkspaceView, files: Seq<SourceFile>, fuel: nat)
    -> Result<WorkspaceView, DiagnosticView>
    decreases fuel,
{
    match next_directive(st.text, 0, stage) {
        None => Ok(st),
        Some(found) => if fuel == 0 {
            Err(limit_reached())
        } else {
            match resolved(st, files, found.directive, found.start, found.end) {
                Err(e) => Err(e),
                Ok(next) => stage_run(stage, next, files, (fuel - 1) as nat),
            }
        },
    }
}

/// The result of preprocessing `src`: its escapes are protected and its
/// braces counted; then every directive is resolved in the order in which
/// they stand, the text is checked in the same way, and all of this is done
/// again until the text holds no directive. No more than `limit` directives
/// are resolved at a time and no more than `limit` times. An error names the
/// file `file`.
pub open spec fn preprocessed(
    file: Seq<char>,
    src: Seq<char>,
    files: Seq<SourceFile>,
    limit: nat,
) -> Result<WorkspaceView, DiagnosticView> {
    located(
        preprocessed_with(EscapeScheme::Bracket, seq![Stage::Everything], src, files, limit),
        file,
    )
}

/// Brace balance of the result: every text that preprocessing returns holds
/// as many `{` as `}`, and no directive.
pub proof fn lemma_preprocessed_balanced(
    file: Seq<char>,
    src: Seq<char>,
    files: Seq<SourceFile>,
    limit: nat,
)
    ensures
        preprocessed(file, src, files, limit) is Ok ==> {
            &&& balanced(preprocessed(file, src, files, limit)->Ok_0.text)
            &&& !work_left(preprocessed(file, src, files, limit)->Ok_0.text)
        },
{
    crate::pipeline::lemma_preprocessed_balanced(
        EscapeScheme::Bracket,
        seq![Stage::Everything],
        src,
        files,
        limit,
    );
}

/// A lexer of directives whose last token spans `start` to `end`.
fn lexer_at(start: usize, end: usize) -> (lex: Lexer)
    ensures
        lex.vocabulary == Vocabulary::Directives,
        lex.start == start,
        lex.end == end,
{
    Lexer { vocabulary: Vocabulary::Directives, start, end }
}

/// Protects the escapes that the marker `]]$` introduces.
pub fn protect_seqs(src: &Vec<char>) -> (res: Result<Vec<char>, Diagnostic>)
    ensures
        match res {
            Ok(out) => EscapeScheme::Bracket.protected(src@) == Ok::<Seq<char>, DiagnosticView>(
                out@,
            ),
            Err(e) => EscapeScheme::Bracket.protected(src@) == Err::<Seq<char>, DiagnosticView>(
                e@,
            ),
        },
{
    EscapeScheme::Bracket.protect(src)
}

/// Resolves the macro definition whose keyword spans `start` to `end`; see
/// [`macro_defined`].
pub fn define_macro(st: Workspace, start: usize, end: usize) -> (res: Result<
    Workspace,
    Diagnostic,
>)
    ensures
        match res {
            Ok(out) => macro_defined(st@, start as int, end as int) == Ok::<
                WorkspaceView,
                DiagnosticView,
            >(out@),
            Err(e) => macro_defined(st@, start as int, end as int) == Err::<
                WorkspaceView,
                DiagnosticView,
            >(e@),
        },
{
    let mut ws = st;
    let mut lex = lexer_at(start, end);
    let name = match extract_arg(&ws.text, &mut lex) {
        Ok(name) => name,
        Err(e) => {
            return Err(e);
        },
    };
    let body = match extract_arg(&ws.text, &mut lex) {
        Ok(body) => body,
        Err(e) => {
            return Err(e);
        },
    };
    let text = splice(&ws.text, start, lex.end, &Vec::new());
    ws.text = text;
    ws.macros.define(name, body);
    Ok(ws)
}

/// Resolves the macro use whose keyword spans `start` to `end`; see
/// [`macro_used`].
pub fn expand_macro(st: Workspace, start: usize, end: usize) -> (res: Result<
    Workspace,
    Diagnostic,
>)
    ensures
        match res {
            Ok(out) => macro_used(st@, start as int, end as int) == Ok::<
                WorkspaceView,
                DiagnosticView,
            >(out@),
            Err(e) => macro_used(st@, start as int, end as int) == Err::<
                WorkspaceView,
                DiagnosticView,
            >(e@),
        },
{
    let mut ws = st;
    let mut lex = lexer_at(start, end);
    let name = match extract_arg(&ws.text, &mut lex) {
        Ok(name) => name,
        Err(e) => {
            return Err(e);
        },
    };
    match ws.macros.lookup(&name) {
        Some(body) => {
            let text = splice(&ws.text, start, lex.end, &body);
            ws.text = text;
            Ok(ws)
        },
        None => Err(fault_here(&ws.text, &lex, Fault::UndefinedMacro(to_string(&name)))),
    }
}

/// Resolves the link whose keyword spans `start` to `end`; see
/// [`link_made`].
pub fn link(st: Workspace, start: usize, end: usize) -> (res: Result<Workspace, Diagnostic>)
    ensures
        match res {
            Ok(out) => link_made(st@, start as int, end as int) == Ok::<
                WorkspaceView,
                DiagnosticView,
            >(out@),
            Err(e) => link_made(st@, start as int, end as int) == Err::<
                WorkspaceView,
                DiagnosticView,
            >(e@),
        },
{
    let mut ws = st;
    let mut lex = lexer_at(start, end);
    let name = match extract_arg(&ws.text, &mut lex) {
        Ok(name) => name,
        Err(e) => {
            return Err(e);
        },
    };
    let url = match extract_arg(&ws.text, &mut lex) {
        Ok(url) => url,
        Err(e) => {
            return Err(e);
        },
    };
    let mut html: Vec<char> = Vec::new();
    append_str(&mut html, "<a href=\"");
    append(&mut html, &url);
    append_str(&mut html, "\">");
    append(&mut html, &name);
    append_str(&mut html, "</a>");
    assert(html@ =~= link_html(name@, url@));
    let text = splice(&ws.text, start, lex.end, &html);
    ws.text = text;
    Ok(ws)
}

/// Resolves the format directive whose keyword spans `start` to `end`; see
/// [`format_applied`].
pub fn format(st: Workspace, start: usize, end: usize) -> (res: Result<Workspace, Diagnostic>)
    ensures
        match res {
            Ok(out) => format_applied(st@, start as int, end as int) == Ok::<
                WorkspaceView,
                DiagnosticView,
            >(out@),
            Err(e) => format_applied(st@, start as int, end as int) == Err::<
                WorkspaceView,
                DiagnosticView,
            >(e@),
        },
{
    let mut ws = st;
    let mut lex = lexer_at(start, end);
    let spec = match extract_arg(&ws.text, &mut lex) {
        Ok(spec) => spec,
        Err(e) => {
            return Err(e);
        },
    };
    let spec_end = lex;
    let body = match extract_arg(&ws.text, &mut lex) {
        Ok(body) => body,
        Err(e) => {
            return Err(e);
        },
    };
    match single_fmt(&spec, &body) {
        Err(c) => Err(fault_here(&ws.text, &spec_end, Fault::InvalidFormatSpecifier(c))),
        Ok(done) => {
            let line = current_line(&ws.text, &spec_end);
            let ghost before = ws.warnings@;
            let ghost added = warnings_for(done.repeated@, line);
            let mut i: usize = 0;
            proof {
                lemma_warnings_for(done.repeated@, line);
            }
            assert(added.take(0) =~= Seq::<FormatWarning>::empty());
            assert(before + Seq::<FormatWarning>::empty() =~= before);
            while i < done.repeated.len()
                invariant
                    i <= done.repeated.len(),
                    added.len() == done.repeated.len(),
                    forall|k: int|
                        0 <= k < added.len() ==> #[trigger] added[k] == warning_at(
                            line,
                            done.repeated@[k],
                        ),
                    ws.warnings@ == before + added.take(i as int),
                    ws.text@ == st.text@,
                    ws.macros@ == st.macros@,
                decreases done.repeated.len() - i,
            {
                ws.warnings.push(FormatWarning { line, specifier: done.repeated[i] });
                assert(ws.warnings@.last() == warning_at(line, done.repeated@[i as int]));
                assert(ws.warnings@ =~= before + added.take(i + 1));
                i += 1;
            }
            assert(added.take(done.repeated.len() as int) =~= added);
            let text = splice(&ws.text, start, lex.end, &done.text);
            ws.text = text;
            Ok(ws)
        },
    }
}

/// Resolves the code point whose keyword spans `start` to `end`; see
/// [`unicode_decoded`].
pub fn unicode(st: Workspace, start: usize, end: usize) -> (res: Result<Workspace, Diagnostic>)
    ensures
        match res {
            Ok(out) => unicode_decoded(st@, start as int, end as int) == Ok::<
                WorkspaceView,
                DiagnosticView,
            >(out@),
            Err(e) => unicode_decoded(st@, start as int, end as int) == Err::<
                WorkspaceView,
                DiagnosticView,
            >(e@),
        },
{
    let mut ws = st;
    let mut lex = lexer_at(start, end);
    let number = match extract_arg(&ws.text, &mut lex) {
        Ok(number) => number,
        Err(e) => {
            return Err(e);
        },
    };
    match decode_codepoint(&number) {
        Ok(c) => {
            let mut one: Vec<char> = Vec::new();
            one.push(c);
            assert(one@ =~= seq![c]);
            let text = splice(&ws.text, start, lex.end, &one);
            ws.text = text;
            Ok(ws)
        },
        Err(CodepointError::Invalid) => Err(
            fault_here(&ws.text, &lex, Fault::InvalidCodepoint(to_string(&number))),
        ),
        Err(CodepointError::Undecodable) => Err(
            fault_here(&ws.text, &lex, Fault::UndecodableCodepoint),
        ),
    }
}

/// Resolves the replacement whose keyword spans `start` to `end`; see
/// [`all_replaced`].
pub fn replace_all(st: Workspace, start: usize, end: usize) -> (res: Result<
    Workspace,
    Diagnostic,
>)
    ensures
        match res {
            Ok(out) => all_replaced(st@, start as int, end as int) == Ok::<
                WorkspaceView,
                DiagnosticView,
            >(out@),
            Err(e) => all_replaced(st@, start as int, end as int) == Err::<
                WorkspaceView,
                DiagnosticView,
            >(e@),
        },
{
    let mut ws = st;
    let mut lex = lexer_at(start, end);
    let pattern = match extract_arg(&ws.text, &mut lex) {
        Ok(pattern) => pattern,
        Err(e) => {
            return Err(e);
        },
    };
    let replacement = match extract_arg(&ws.text, &mut lex) {
        Ok(replacement) => replacement,
        Err(e) => {
            return Err(e);
        },
    };
    let rest = splice(&ws.text, start, lex.end, &Vec::new());
    let pattern_text = to_string(&pattern);
    match regex_replace_all(
        pattern_text.as_str(),
        to_string(&rest).as_str(),
        to_string(&replacement).as_str(),
    ) {
        Ok(text) => {
            ws.text = to_chars(text.as_str());
            Ok(ws)
        },
        Err(_) => Err(fault_here(&ws.text, &lex, Fault::InvalidRegex(pattern_text))),
    }
}

/// Resolves the external table whose keyword spans `start` to `end`; see
/// [`table_imported`].
pub fn external_table(st: Workspace, files: &Vec<SourceFile>, start: usize, end: usize) -> (res:
    Result<Workspace, Diagnostic>)
    ensures
        match res {
            Ok(out) => table_imported(st@, files@, start as int, end as int) == Ok::<
                WorkspaceView,
                DiagnosticView,
            >(out@),
            Err(e) => table_imported(st@, files@, start as int, end as int) == Err::<
                WorkspaceView,
                DiagnosticView,
            >(e@),
        },
{
    let mut ws = st;
    let mut lex = lexer_at(start, end);
    let path = match extract_arg(&ws.text, &mut lex) {
        Ok(path) => path,
        Err(e) => {
            return Err(e);
        },
    };
    match read_file(files, &path) {
        Some(table) => {
            let markup = to_chars(vvtab_to_vvsml(to_string(&table).as_str()).as_str());
            let text = splice(&ws.text, start, lex.end, &markup);
            ws.text = text;
            Ok(ws)
        },
        None => Err(fault_here(&ws.text, &lex, Fault::BadTablePath(to_string(&path)))),
    }
}

/// Resolves the inclusion whose keyword spans `start` to `end`; see
/// [`file_included`].
pub fn include_file(st: Workspace, files: &Vec<SourceFile>, start: usize, end: usize) -> (res:
    Result<Workspace, Diagnostic>)
    ensures
        match res {
            Ok(out) => file_included(st@, files@, start as int, end as int) == Ok::<
                WorkspaceView,
                DiagnosticView,
            >(out@),
            Err(e) => file_included(st@, files@, start as int, end as int) == Err::<
                WorkspaceView,
                DiagnosticView,
            >(e@),
        },
{
    let mut ws = st;
    let mut lex = lexer_at(start, end);
    let path = match extract_arg(&ws.text, &mut lex) {
        Ok(path) => path,
        Err(e) => {
            return Err(e);
        },
    };
    match read_file(files, &path) {
        Some(contents) => {
            let text = splice(&ws.text, start, lex.end, &contents);
            ws.text = text;
            Ok(ws)
        },
        None => Err(fault_here(&ws.text, &lex, Fault::CannotInclude(to_string(&path)))),
    }
}

/// Resolves the directive `directive` whose keyword spans `start` to `end`.
pub fn resolve(
    st: Workspace,
    files: &Vec<SourceFile>,
    directive: Directive,
    start: usize,
    end: usize,
) -> (res: Result<Workspace, Diagnostic>)
    ensures
        match res {
            Ok(out) => resolved(st@, files@, directive, start as int, end as int) == Ok::<
                WorkspaceView,
                DiagnosticView,
            >(out@),
            Err(e) => resolved(st@, files@, directive, start as int, end as int) == Err::<
                WorkspaceView,
                DiagnosticView,
            >(e@),
        },
{
    reveal(resolved);
    match directive {
        Directive::DefineMacro => define_macro(st, start, end),
        Directive::Macro => expand_macro(st, start, end),
        Directive::Include => include_file(st, files, start, end),
        Directive::Link => link(st, start, end),
        Directive::Format => format(st, start, end),
        Directive::Unicode => unicode(st, start, end),
        Directive::ReplaceAll => replace_all(st, start, end),
        Directive::ExternalTable => external_table(st, files, start, end),
    }
}

/// Finds the first directive of the stage `stage` in `text`.
pub fn find_directive(text: &Vec<char>, stage: Stage) -> (res: Option<(Directive, usize, usize)>)
    ensures
        match res {
            Some((directive, start, end)) => next_directive(text@, 0, stage) == Some(
                Found { directive, start: start as int, end: end as int },
            ),
            None => next_directive(text@, 0, stage) is None,
        },
{
    let mut lex = Lexer::new(Vocabulary::Directives);
    loop
        invariant
            lex.vocabulary == Vocabulary::Directives,
            lex.end <= text.len(),
            next_directive(text@, 0, stage) == next_directive(text@, lex.end as int, stage),
        decreases text.len() - lex.end,
    {
        proof {
            lemma_scan_advances(Vocabulary::Directives, text@, lex.end as int);
        }
        match lex.next(text) {
            None => {
                return None;
            },
            Some(Token::Directive(d)) => {
                if stage.resolves(d) {
                    return Some((d, lex.start, lex.end));
                }
            },
            Some(_) => {},
        }
    }
}

/// Resolves the directives of the stage `stage` until the text holds none,
/// and at most `limit` of them; see [`stage_run`].
pub fn run_stage(stage: Stage, st: Workspace, files: &Vec<SourceFile>, limit: usize) -> (res:
    Result<Workspace, Diagnostic>)
    ensures
        match res {
            Ok(out) => stage_run(stage, st@, files@, limit as nat) == Ok::<
                WorkspaceView,
                DiagnosticView,
            >(out@),
            Err(e) => stage_run(stage, st@, files@, limit as nat) == Err::<
                WorkspaceView,
                DiagnosticView,
            >(e@),
        },
{
    let mut ws = st;
    let mut fuel: usize = limit;
    loop
        invariant
            stage_run(stage, st@, files@, limit as nat) == stage_run(
                stage,
                ws@,
                files@,
                fuel as nat,
            ),
        decreases fuel,
    {
        match find_directive(&ws.text, stage) {
            None => {
                return Ok(ws);
            },
            Some((directive, start, end)) => {
                if fuel == 0 {
                    return Err(
                        Diagnostic {
                            kind: ErrorKind::Directive,
                            file: None,
                            line: None,
                            fault: Fault::ExpansionLimit,
                        },
                    );
                }
                match resolve(ws, files, directive, start, end) {
                    Err(e) => {
                        return Err(e);
                    },
                    Ok(next) => {
                        ws = next;
                        fuel -= 1;
                    },
                }
            },
        }
    }
}

/// The text that preprocessing leaves, and the warnings it gave.
#[derive(Debug)]
pub struct Preprocessed {
    pub text: String,
    pub warnings: Vec<FormatWarning>,
}

/// Preprocesses the document of the file `file_path`, which escapes with
/// `]]$`. Its escapes are protected and its braces counted; then its
/// directives are resolved in the order in which they stand, the text is
/// checked in the same way, and all of this is done again until the text
/// holds no directive. `files` are the files that inclusions and external
/// tables may name. No more than `limit` directives are resolved at a time
/// and no more than `limit` times: beyond that the result is an error, as it
/// is for the first directive that cannot be resolved, for an escape that is
/// none and for braces that do not balance. The text returned is balanced
/// and holds no directive; an error names the file.
pub fn preprocess(file_path: &str, src: &str, files: &Vec<SourceFile>, limit: usize) -> (res:
    Result<Preprocessed, Diagnostic>)
    ensures
        match res {
            Ok(out) => {
                &&& preprocessed(file_path@, src@, files@, limit as nat) is Ok
                &&& preprocessed(file_path@, src@, files@, limit as nat)->Ok_0.text == out.text@
                &&& preprocessed(file_path@, src@, files@, limit as nat)->Ok_0.warnings
                    == out.warnings@
                &&& balanced(out.text@)
                &&& !work_left(out.text@)
            },
            Err(e) => preprocessed(file_path@, src@, files@, limit as nat) == Err::<
                WorkspaceView,
                DiagnosticView,
            >(e@),
        },
{
    let mut order: Vec<Stage> = Vec::new();
    order.push(Stage::Everything);
    assert(order@ =~= seq![Stage::Everything]);
    match run(EscapeScheme::Bracket, &order, src, files, limit) {
        Ok(out) => Ok(out),
        Err(e) => Err(e.in_file(file_path)),
    }
}

} // verus!
