//! The whole compilation of a document that escapes with a backslash, and
//! the step that tells a driver what to do next.
//!
//! The library reads no file. A driver hands over the files it has read so
//! far; where the document names one that is not among them, the step asks
//! for it, and the driver reads it and asks again.

use crate::code_gen::{node_to_html, rendered};
use crate::error::{Diagnostic, DiagnosticView, Fault, FaultView};
use crate::escape::EscapeScheme;
use crate::files::{file_contents, read_file, SourceFile};
use crate::parse::{parse, parsed};
use crate::preproc::FormatWarning;
use crate::preprocess::{preprocess, preprocessed};
use crate::text::{to_chars, to_string};
use vstd::prelude::*;

verus! {

/// A compiled document: its HTML and the warnings that compiling it gave.
#[derive(Debug)]
pub struct Compiled {
    pub html: String,
    pub warnings: Vec<FormatWarning>,
}

/// The mathematical value of a [`Compiled`].
pub struct CompiledView {
    pub html: Seq<char>,
    pub warnings: Seq<FormatWarning>,
}

impl View for Compiled {
    type V = CompiledView;

    open spec fn view(&self) -> CompiledView {
        CompiledView { html: self.html@, warnings: self.warnings@ }
    }
}

/// The compiled document of the file `file`: its source is preprocessed,
/// the text that is left is parsed, the tree is rendered, and the rendered
/// HTML is deprotected, in this order. The first error ends it.
pub open spec fn compiled(file: Seq<char>, src: Seq<char>, files: Seq<SourceFile>, limit: nat)
    -> Result<CompiledView, DiagnosticView> {
    match preprocessed(file, src, files, limit) {
        Err(e) => Err(e),
        Ok(st) => match parsed(file, st.text) {
            Err(e) => Err(e),
            Ok(tree) => Ok(
                CompiledView {
                    html: EscapeScheme::Backslash.deprotected(rendered(tree)),
                    warnings: st.warnings,
                },
            ),
        },
    }
}

/// Compiles the document of the file `file_path` to HTML; see
/// [`compiled`]. `files` are the files that inclusions and external tables
/// may name, and `limit` bounds the rewriting.
pub fn compile(file_path: &str, src: &str, files: &Vec<SourceFile>, limit: usize) -> (res: Result<
    Compiled,
    Diagnostic,
>)
    ensures
        match res {
            Ok(out) => compiled(file_path@, src@, files@, limit as nat) == Ok::<
                CompiledView,
                DiagnosticView,
            >(out@),
            Err(e) => compiled(file_path@, src@, files@, limit as nat) == Err::<
                CompiledView,
                DiagnosticView,
            >(e@),
        },
{
    let text = match preprocess(file_path, src, files, limit) {
        Ok(text) => text,
        Err(e) => {
            return Err(e);
        },
    };
    let tree = match parse(file_path, text.text.as_str()) {
        Ok(tree) => tree,
        Err(e) => {
            return Err(e);
        },
    };
    let html = node_to_html(&tree, Vec::new());
    assert(Seq::<char>::empty() + rendered(tree@) =~= rendered(tree@));
    Ok(
        Compiled {
            html: to_string(&EscapeScheme::Backslash.deprotect(&html)),
            warnings: text.warnings,
        },
    )
}

/// What a driver does next.
#[derive(Debug)]
pub enum Action {
    /// Write the compiled document.
    Write(Compiled),
    /// Read the file at `path` and compile again with it; if it cannot be
    /// read, report `otherwise`.
    Read { path: String, otherwise: Diagnostic },
    /// Report the error.
    Fail(Diagnostic),
}

/// The path that the error `e` asks for: the path of an inclusion or of an
/// external table that is not among `files`.
pub open spec fn wanted_path(e: DiagnosticView, files: Seq<SourceFile>) -> Option<Seq<char>> {
    match e.fault {
        FaultView::CannotInclude(path) => if file_contents(files, path) is None {
            Some(path)
        } else {
            None
        },
        FaultView::BadTablePath(path) => if file_contents(files, path) is None {
            Some(path)
        } else {
            None
        },
        _ => None,
    }
}

/// Whether `action` is what follows the outcome `outcome` of a compilation
/// with the files `files`: a compiled document is written, an error that
/// asks for a file has it read, and any other error is reported.
pub open spec fn follows(
    action: Action,
    outcome: Result<CompiledView, DiagnosticView>,
    files: Seq<SourceFile>,
) -> bool {
    match outcome {
        Ok(done) => action matches Action::Write(out) && out@ == done,
        Err(e) => match wanted_path(e, files) {
            Some(wanted) => action matches Action::Read { path, otherwise } && path@ == wanted
                && otherwise@ == e,
            None => action matches Action::Fail(failure) && failure@ == e,
        },
    }
}

/// Compiles the document of the file `file_path` with the files read so
/// far, and says what the driver does next; see [`follows`].
pub fn step(file_path: &str, src: &str, files: &Vec<SourceFile>, limit: usize) -> (action: Action)
    ensures
        follows(action, compiled(file_path@, src@, files@, limit as nat), files@),
{
    match compile(file_path, src, files, limit) {
        Ok(out) => Action::Write(out),
        Err(e) => {
            let asked = match &e.fault {
                Fault::CannotInclude(path) => Some(path.clone()),
                Fault::BadTablePath(path) => Some(path.clone()),
                _ => None,
            };
            match asked {
                Some(path) => {
                    if read_file(files, &to_chars(path.as_str())).is_none() {
                        Action::Read { path, otherwise: e }
                    } else {
                        Action::Fail(e)
                    }
                },
                None => Action::Fail(e),
            }
        },
    }
}

} // verus!
