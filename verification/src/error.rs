//! The structured result of a failed compilation.

use crate::lang_util::Token;
use crate::text::{append, append_str, decimal, decimal_digits, to_chars, to_string};
use vstd::prelude::*;

verus! {

/// The class of an error.
#[derive(Clone, Copy, Debug, PartialEq, Eq, Structural)]
pub enum ErrorKind {
    /// A directive that preprocessing could not resolve.
    Directive,
    /// A token that the document grammar does not allow where it stands.
    Parse,
    /// A tree that cannot be rendered.
    CodeGen,
}

/// What went wrong.
#[derive(Clone, Debug, PartialEq, Eq)]
#[allow(inconsistent_fields)]
pub enum Fault {
    /// An escape marker with nothing after it.
    InescapableEnd,
    /// An escape marker before a character that has no protected code.
    CannotEscape(char),
    /// One token was required and another, or the end of the text, was found.
    ExpectedToken { expected: Token, found: Option<Token> },
    /// A token that is none of those the production accepts.
    UnexpectedToken { expected: Vec<Token>, found: Token },
    /// A macro used before any definition of its name.
    UndefinedMacro(String),
    /// An included path that could not be read.
    CannotInclude(String),
    /// The path of an external text table that could not be read.
    BadTablePath(String),
    /// A character of a format specification that names no transform.
    InvalidFormatSpecifier(char),
    /// A codepoint that is not a hexadecimal number of 32 bits.
    InvalidCodepoint(String),
    /// A number that is no Unicode scalar value.
    UndecodableCodepoint,
    /// A pattern that is no regular expression.
    InvalidRegex(String),
    /// A text whose counts of `{` and of `}` differ.
    UnbalancedBraces { left: usize, right: usize },
    /// More rewriting than the caller allowed.
    ExpansionLimit,
    /// A tree whose top node is not the root.
    NonRootNode,
}

/// The mathematical value of a [`Fault`].
#[allow(inconsistent_fields)]
pub enum FaultView {
    InescapableEnd,
    CannotEscape(char),
    ExpectedToken { expected: Token, found: Option<Token> },
    UnexpectedToken { expected: Seq<Token>, found: Token },
    UndefinedMacro(Seq<char>),
    CannotInclude(Seq<char>),
    BadTablePath(Seq<char>),
    InvalidFormatSpecifier(char),
    InvalidCodepoint(Seq<char>),
    UndecodableCodepoint,
    InvalidRegex(Seq<char>),
    UnbalancedBraces { left: usize, right: usize },
    ExpansionLimit,
    NonRootNode,
}

impl View for Fault {
    type V = FaultView;

    open spec fn view(&self) -> FaultView {
        match *self {
            Fault::InescapableEnd => FaultView::InescapableEnd,
            Fault::CannotEscape(c) => FaultView::CannotEscape(c),
            Fault::ExpectedToken { expected, found } => FaultView::ExpectedToken {
                expected,
                found,
            },
            Fault::UnexpectedToken { expected, found } => FaultView::UnexpectedToken {
                expected: expected@,
                found,
            },
            Fault::UndefinedMacro(name) => FaultView::UndefinedMacro(name@),
            Fault::CannotInclude(path) => FaultView::CannotInclude(path@),
            Fault::BadTablePath(path) => FaultView::BadTablePath(path@),
            Fault::InvalidFormatSpecifier(c) => FaultView::InvalidFormatSpecifier(c),
            Fault::InvalidCodepoint(text) => FaultView::InvalidCodepoint(text@),
            Fault::UndecodableCodepoint => FaultView::UndecodableCodepoint,
            Fault::InvalidRegex(text) => FaultView::InvalidRegex(text@),
            Fault::UnbalancedBraces { left, right } => FaultView::UnbalancedBraces { left, right },
            Fault::ExpansionLimit => FaultView::ExpansionLimit,
            Fault::NonRootNode => FaultView::NonRootNode,
        }
    }
}

/// A fatal error: its class, the file it was found in once that is known,
/// the line it was found at where one is known, and what went wrong.
#[derive(Clone, Debug, PartialEq, Eq)]
pub struct Diagnostic {
    pub kind: ErrorKind,
    /// The file that was compiled, once an entry point has named it.
    pub file: Option<String>,
    pub line: Option<usize>,
    pub fault: Fault,
}

/// The mathematical value of a [`Diagnostic`].
pub struct DiagnosticView {
    pub kind: ErrorKind,
    pub file: Option<Seq<char>>,
    pub line: Option<usize>,
    pub fault: FaultView,
}

impl View for Diagnostic {
    type V = DiagnosticView;

    open spec fn view(&self) -> DiagnosticView {
        DiagnosticView {
            kind: self.kind,
            file: match self.file {
                Some(file) => Some(file@),
                None => None,
            },
            line: self.line,
            fault: self.fault@,
        }
    }
}

/// The names of the first `n` of `tokens`, separated by a comma and a space.
pub open spec fn labels(tokens: Seq<Token>, n: nat) -> Seq<char>
    decreases n,
{
    if n == 0 || n > tokens.len() {
        Seq::empty()
    } else if n == 1 {
        tokens[0].label()
    } else {
        labels(tokens, (n - 1) as nat) + ", "@ + tokens[n - 1].label()
    }
}

impl FaultView {
    /// The message that describes the fault to a reader.
    pub open spec fn text(self) -> Seq<char> {
        match self {
            FaultView::InescapableEnd => "escaping inescapable character"@,
            FaultView::CannotEscape(c) => seq![c] + " cannot be escaped"@,
            FaultView::ExpectedToken { expected, found } => "expected token "@ + expected.label()
                + " but found "@ + match found {
                Some(token) => token.label(),
                None => "nothing"@,
            },
            FaultView::UnexpectedToken { expected, found } => "expected one of ["@ + labels(
                expected,
                expected.len(),
            ) + "], found "@ + found.label(),
            FaultView::UndefinedMacro(name) => "macro not defined: "@ + name,
            FaultView::CannotInclude(path) => "cannot include "@ + path,
            FaultView::BadTablePath(path) => "bad external text table path: "@ + path,
            FaultView::InvalidFormatSpecifier(c) => "invalid format specifier: "@ + seq![c],
            FaultView::InvalidCodepoint(text) => "invalid unicode codepoint: "@ + text,
            FaultView::UndecodableCodepoint => "cannot decode unicode codepoint"@,
            FaultView::InvalidRegex(text) => "invalid regex: "@ + text,
            FaultView::UnbalancedBraces { left, right } => "unbalanced braces! "@ + decimal_digits(
                left as nat,
            ) + " {'s and "@ + decimal_digits(right as nat) + " }'s found"@,
            FaultView::ExpansionLimit => "expansion limit reached"@,
            FaultView::NonRootNode => "tried to generate html from non-root node"@,
        }
    }
}

/// Writes the names of `tokens`, separated by a comma and a space.
fn push_labels(out: &mut Vec<char>, tokens: &Vec<Token>)
    ensures
        final(out)@ == old(out)@ + labels(tokens@, tokens@.len()),
{
    let mut i: usize = 0;
    assert(out@ =~= old(out)@ + labels(tokens@, 0));
    while i < tokens.len()
        invariant
            i <= tokens.len(),
            out@ == old(out)@ + labels(tokens@, i as nat),
        decreases tokens.len() - i,
    {
        if i > 0 {
            append_str(out, ", ");
        }
        append_str(out, tokens[i].name());
        assert(out@ =~= old(out)@ + labels(tokens@, (i + 1) as nat));
        i += 1;
    }
}

impl Fault {
    /// The message that describes the fault to a reader.
    pub fn message(&self) -> (out: String)
        ensures
            out@ == self@.text(),
    {
        let mut out: Vec<char> = Vec::new();
        match self {
            Fault::InescapableEnd => {
                append_str(&mut out, "escaping inescapable character");
            },
            Fault::CannotEscape(c) => {
                out.push(*c);
                append_str(&mut out, " cannot be escaped");
            },
            Fault::ExpectedToken { expected, found } => {
                append_str(&mut out, "expected token ");
                append_str(&mut out, expected.name());
                append_str(&mut out, " but found ");
                match found {
                    Some(token) => {
                        append_str(&mut out, token.name());
                    },
                    None => {
                        append_str(&mut out, "nothing");
                    },
                }
            },
            Fault::UnexpectedToken { expected, found } => {
                append_str(&mut out, "expected one of [");
                push_labels(&mut out, expected);
                append_str(&mut out, "], found ");
                append_str(&mut out, found.name());
            },
            Fault::UndefinedMacro(name) => {
                append_str(&mut out, "macro not defined: ");
                append_str(&mut out, name.as_str());
            },
            Fault::CannotInclude(path) => {
                append_str(&mut out, "cannot include ");
                append_str(&mut out, path.as_str());
            },
            Fault::BadTablePath(path) => {
                append_str(&mut out, "bad external text table path: ");
                append_str(&mut out, path.as_str());
            },
            Fault::InvalidFormatSpecifier(c) => {
                append_str(&mut out, "invalid format specifier: ");
                out.push(*c);
            },
            Fault::InvalidCodepoint(text) => {
                append_str(&mut out, "invalid unicode codepoint: ");
                append_str(&mut out, text.as_str());
            },
            Fault::UndecodableCodepoint => {
                append_str(&mut out, "cannot decode unicode codepoint");
            },
            Fault::InvalidRegex(text) => {
                append_str(&mut out, "invalid regex: ");
                append_str(&mut out, text.as_str());
            },
            Fault::UnbalancedBraces { left, right } => {
                append_str(&mut out, "unbalanced braces! ");
                append(&mut out, &decimal(*left));
                append_str(&mut out, " {'s and ");
                append(&mut out, &decimal(*right));
                append_str(&mut out, " }'s found");
            },
            Fault::ExpansionLimit => {
                append_str(&mut out, "expansion limit reached");
            },
            Fault::NonRootNode => {
                append_str(&mut out, "tried to generate html from non-root node");
            },
        }
        assert(out@ =~= self@.text());
        to_string(&out)
    }
}

impl DiagnosticView {
    /// The error, found in the file `file`.
    pub open spec fn in_file(self, file: Seq<char>) -> DiagnosticView {
        DiagnosticView { file: Some(file), ..self }
    }
}

/// The result `r`, with its error found in the file `file`.
pub open spec fn located<T>(r: Result<T, DiagnosticView>, file: Seq<char>) -> Result<
    T,
    DiagnosticView,
> {
    match r {
        Ok(value) => Ok(value),
        Err(e) => Err(e.in_file(file)),
    }
}

impl Diagnostic {
    /// Names the file that the error was found in.
    pub fn in_file(self, file_path: &str) -> (out: Diagnostic)
        ensures
            out@ == self@.in_file(file_path@),
    {
        let mut out = self;
        out.file = Some(to_string(&to_chars(file_path)));
        out
    }

    /// The message that describes the error to a reader.
    pub fn message(&self) -> (out: String)
        ensures
            out@ == self@.fault.text(),
    {
        self.fault.message()
    }
}

} // verus!
