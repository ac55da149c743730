//! Escape protection: a literal character that a later stage would take
//! for syntax is replaced by a fixed code of ten characters, and turned back
//! once the document is rendered.

use crate::error::{Diagnostic, DiagnosticView, ErrorKind, Fault, FaultView};
use crate::lang_util::{line_number, line_of};
use vstd::prelude::*;

verus! {

/// How a literal character is marked in the source.
#[derive(Clone, Copy, Debug, PartialEq, Eq, Structural)]
pub enum EscapeScheme {
    /// A backslash before one of `{`, `}`, `\`, `.`; before anything else,
    /// or at the end of the text, it is an error.
    Backslash,
    /// The marker `]]$` before one of `{`, `}`, `]`, `.`, `@`; before
    /// anything else, or at the end of the text, it is an error.
    Bracket,
    /// A backslash before `&` or `$`; any other backslash stands for itself.
    Tabular,
}

/// Whether `c` is one of the capital letters `A` to `Z`.
pub open spec fn is_capital(c: char) -> bool {
    'A' as u32 <= c as u32 <= 'Z' as u32
}

/// Tests whether `c` is a capital letter.
pub fn capital(c: char) -> (res: bool)
    ensures
        res == is_capital(c),
{
    let u: u32 = c as u32;
    'A' as u32 <= u && u <= 'Z' as u32
}

/// The protected code with the letters `x` and `y`.
pub open spec fn code(x: char, y: char) -> Seq<char> {
    seq!['@', '#', '\'', ':', '[', ';', ':', x, y, ']']
}

impl EscapeScheme {
    /// The length of the escape marker.
    pub open spec fn marker_len(self) -> int {
        match self {
            EscapeScheme::Bracket => 3,
            _ => 1,
        }
    }

    /// Whether the escape marker stands at offset `at`.
    pub open spec fn marker_at(self, s: Seq<char>, at: int) -> bool {
        match self {
            EscapeScheme::Bracket => {
                &&& 0 <= at
                &&& at + 3 <= s.len()
                &&& s[at] == ']'
                &&& s[at + 1] == ']'
                &&& s[at + 2] == '$'
            },
            _ => 0 <= at < s.len() && s[at] == '\\',
        }
    }

    /// The two letters of the code that protects `c`, if `c` can be escaped.
    pub open spec fn letters(self, c: char) -> Option<(char, char)> {
        match self {
            EscapeScheme::Backslash => {
                if c == '{' {
                    Some(('L', 'B'))
                } else if c == '}' {
                    Some(('R', 'B'))
                } else if c == '\\' {
                    Some(('B', 'S'))
                } else if c == '.' {
                    Some(('P', '_'))
                } else {
                    None
                }
            },
            EscapeScheme::Bracket => {
                if c == '{' {
                    Some(('L', 'B'))
                } else if c == '}' {
                    Some(('R', 'B'))
                } else if c == ']' {
                    Some(('E', 'C'))
                } else if c == '.' {
                    Some(('P', '_'))
                } else if c == '@' {
                    Some(('A', '_'))
                } else {
                    None
                }
            },
            EscapeScheme::Tabular => {
                if c == '&' {
                    Some(('A', 'S'))
                } else if c == '$' {
                    Some(('D', 'S'))
                } else {
                    None
                }
            },
        }
    }

    /// The character that the code with the letters `x` and `y` stands for,
    /// if the scheme knows the code.
    pub open spec fn decoded(self, x: char, y: char) -> Option<char> {
        match self {
            EscapeScheme::Backslash => {
                if x == 'L' && y == 'B' {
                    Some('{')
                } else if x == 'R' && y == 'B' {
                    Some('}')
                } else if x == 'B' && y == 'S' {
                    Some('\\')
                } else if x == 'P' && y == '_' {
                    Some('.')
                } else {
                    None
                }
            },
            EscapeScheme::Bracket => {
                if x == 'L' && y == 'B' {
                    Some('{')
                } else if x == 'R' && y == 'B' {
                    Some('}')
                } else if x == 'E' && y == 'C' {
                    Some(']')
                } else if x == 'P' && y == '_' {
                    Some('.')
                } else if x == 'A' && y == '_' {
                    Some('@')
                } else {
                    None
                }
            },
            EscapeScheme::Tabular => {
                if x == 'A' && y == 'S' {
                    Some('&')
                } else if x == 'D' && y == 'S' {
                    Some('$')
                } else {
                    None
                }
            },
        }
    }

    /// Whether `c` can be the second letter of a code: a capital letter or
    /// an underscore, and but for the backslash scheme a digit.
    pub open spec fn second_letter(self, c: char) -> bool {
        ||| is_capital(c)
        ||| c == '_'
        ||| (self != EscapeScheme::Backslash && '0' as u32 <= c as u32 <= '9' as u32)
    }

    /// Whether an escape starts at offset `at`.
    pub open spec fn escape_at(self, s: Seq<char>, at: int) -> bool {
        &&& self.marker_at(s, at)
        &&& self == EscapeScheme::Tabular ==> at + 1 < s.len() && (s[at + 1] == '&' || s[at + 1]
            == '$')
    }

    /// What is wrong with the escape that starts at offset `at`, if anything.
    pub open spec fn fault_at(self, s: Seq<char>, at: int) -> Option<FaultView> {
        let next = at + self.marker_len();
        if next >= s.len() {
            Some(FaultView::InescapableEnd)
        } else if self.letters(s[next]) is None {
            Some(FaultView::CannotEscape(s[next]))
        } else {
            None
        }
    }

    /// Whether a protected code stands at offset `at`.
    pub open spec fn code_at(self, s: Seq<char>, at: int) -> bool {
        &&& 0 <= at
        &&& at + 10 <= s.len()
        &&& s[at] == '@'
        &&& s[at + 1] == '#'
        &&& s[at + 2] == '\''
        &&& s[at + 3] == ':'
        &&& s[at + 4] == '['
        &&& s[at + 5] == ';'
        &&& s[at + 6] == ':'
        &&& is_capital(s[at + 7])
        &&& self.second_letter(s[at + 8])
        &&& s[at + 9] == ']'
    }

    /// The text from offset `from` on with every escape replaced by its
    /// code. An escape that is an error leaves nothing.
    pub open spec fn protected_from(self, s: Seq<char>, from: int) -> Seq<char>
        decreases s.len() - from,
    {
        if from < 0 || from >= s.len() {
            Seq::empty()
        } else if self.escape_at(s, from) {
            let next = from + self.marker_len();
            if next >= s.len() {
                Seq::empty()
            } else {
                (match self.letters(s[next]) {
                    Some((x, y)) => code(x, y),
                    None => Seq::empty(),
                }) + self.protected_from(s, next + 1)
            }
        } else {
            seq![s[from]] + self.protected_from(s, from + 1)
        }
    }

    /// The error of the last escape at or after offset `from` that is one.
    pub open spec fn last_fault_from(self, s: Seq<char>, from: int) -> Option<DiagnosticView>
        decreases s.len() - from,
    {
        if from < 0 || from >= s.len() {
            None
        } else if self.escape_at(s, from) {
            let next = from + self.marker_len();
            let later = if next >= s.len() {
                None
            } else {
                self.last_fault_from(s, next + 1)
            };
            if later is Some {
                later
            } else {
                match self.fault_at(s, from) {
                    Some(fault) => Some(
                        DiagnosticView {
                            kind: ErrorKind::Directive,
                            file: None,
                            line: Some(line_number(s, from)),
                            fault,
                        },
                    ),
                    None => None,
                }
            }
        } else {
            self.last_fault_from(s, from + 1)
        }
    }

    /// The protected text: every escape replaced by the code of the
    /// character it marks. Where escapes are errors, the error of the last
    /// of them.
    pub open spec fn protected(self, s: Seq<char>) -> Result<Seq<char>, DiagnosticView> {
        match self.last_fault_from(s, 0) {
            Some(e) => Err(e),
            None => Ok(self.protected_from(s, 0)),
        }
    }

    /// The text from offset `from` on with every code replaced by the
    /// character it stands for, and every unknown code removed.
    pub open spec fn deprotected_from(self, s: Seq<char>, from: int) -> Seq<char>
        decreases s.len() - from,
    {
        if from < 0 || from >= s.len() {
            Seq::empty()
        } else if self.code_at(s, from) {
            (match self.decoded(s[from + 7], s[from + 8]) {
                Some(c) => seq![c],
                None => Seq::empty(),
            }) + self.deprotected_from(s, from + 10)
        } else {
            seq![s[from]] + self.deprotected_from(s, from + 1)
        }
    }

    /// The deprotected text; see [`Self::deprotected_from`].
    pub open spec fn deprotected(self, s: Seq<char>) -> Seq<char> {
        self.deprotected_from(s, 0)
    }

    /// The text from offset `from` on with every escape marker removed and
    /// the character it marks kept.
    pub open spec fn unescaped_from(self, s: Seq<char>, from: int) -> Seq<char>
        decreases s.len() - from,
    {
        if from < 0 || from >= s.len() {
            Seq::empty()
        } else if self.escape_at(s, from) {
            let next = from + self.marker_len();
            if next >= s.len() {
                Seq::empty()
            } else {
                seq![s[next]] + self.unescaped_from(s, next + 1)
            }
        } else {
            seq![s[from]] + self.unescaped_from(s, from + 1)
        }
    }

    /// The length of the escape marker.
    pub fn marker_size(self) -> (n: usize)
        ensures
            n == self.marker_len(),
    {
        match self {
            EscapeScheme::Bracket => 3,
            _ => 1,
        }
    }

    /// Tests whether an escape starts at offset `at`.
    pub fn escape_here(self, v: &Vec<char>, at: usize) -> (res: bool)
        ensures
            res == self.escape_at(v@, at as int),
    {
        let n = v.len();
        match self {
            EscapeScheme::Bracket => n >= 3 && at <= n - 3 && v[at] == ']' && v[at + 1] == ']'
                && v[at + 2] == '$',
            EscapeScheme::Backslash => at < n && v[at] == '\\',
            EscapeScheme::Tabular => n >= 2 && at < n - 1 && v[at] == '\\' && (v[at + 1] == '&'
                || v[at + 1] == '$'),
        }
    }

    /// The two letters of the code that protects `c`.
    pub fn code_letters(self, c: char) -> (res: Option<(char, char)>)
        ensures
            res == self.letters(c),
    {
        match self {
            EscapeScheme::Backslash => {
                if c == '{' {
                    Some(('L', 'B'))
                } else if c == '}' {
                    Some(('R', 'B'))
                } else if c == '\\' {
                    Some(('B', 'S'))
                } else if c == '.' {
                    Some(('P', '_'))
                } else {
                    None
                }
            },
            EscapeScheme::Bracket => {
                if c == '{' {
                    Some(('L', 'B'))
                } else if c == '}' {
                    Some(('R', 'B'))
                } else if c == ']' {
                    Some(('E', 'C'))
                } else if c == '.' {
                    Some(('P', '_'))
                } else if c == '@' {
                    Some(('A', '_'))
                } else {
                    None
                }
            },
            EscapeScheme::Tabular => {
                if c == '&' {
                    Some(('A', 'S'))
                } else if c == '$' {
                    Some(('D', 'S'))
                } else {
                    None
                }
            },
        }
    }

    /// The character that a code stands for.
    pub fn decode(self, x: char, y: char) -> (res: Option<char>)
        ensures
            res == self.decoded(x, y),
    {
        match self {
            EscapeScheme::Backslash => {
                if x == 'L' && y == 'B' {
                    Some('{')
                } else if x == 'R' && y == 'B' {
                    Some('}')
                } else if x == 'B' && y == 'S' {
                    Some('\\')
                } else if x == 'P' && y == '_' {
                    Some('.')
                } else {
                    None
                }
            },
            EscapeScheme::Bracket => {
                if x == 'L' && y == 'B' {
                    Some('{')
                } else if x == 'R' && y == 'B' {
                    Some('}')
                } else if x == 'E' && y == 'C' {
                    Some(']')
                } else if x == 'P' && y == '_' {
                    Some('.')
                } else if x == 'A' && y == '_' {
                    Some('@')
                } else {
                    None
                }
            },
            EscapeScheme::Tabular => {
                if x == 'A' && y == 'S' {
                    Some('&')
                } else if x == 'D' && y == 'S' {
                    Some('$')
                } else {
                    None
                }
            },
        }
    }

    /// Tests whether a protected code stands at offset `at`.
    pub fn code_here(self, v: &Vec<char>, at: usize) -> (res: bool)
        ensures
            res == self.code_at(v@, at as int),
    {
        let n = v.len();
        if n < 10 || at > n - 10 {
            return false;
        }
        let y = v[at + 8];
        let second = capital(y) || y == '_' || (match self {
            EscapeScheme::Backslash => false,
            _ => '0' as u32 <= y as u32 && y as u32 <= '9' as u32,
        });
        v[at] == '@' && v[at + 1] == '#' && v[at + 2] == '\'' && v[at + 3] == ':' && v[at + 4]
            == '[' && v[at + 5] == ';' && v[at + 6] == ':' && capital(v[at + 7]) && second && v[at
            + 9] == ']'
    }

    /// Replaces every escape of `src` by the code of the character it marks.
    /// Fails with the error of the last escape that is one.
    pub fn protect(self, src: &Vec<char>) -> (res: Result<Vec<char>, Diagnostic>)
        ensures
            match res {
                Ok(out) => self.protected(src@) == Ok::<Seq<char>, DiagnosticView>(out@),
                Err(e) => self.protected(src@) == Err::<Seq<char>, DiagnosticView>(e@),
            },
    {
        let n = src.len();
        let m = self.marker_size();
        let mut out: Vec<char> = Vec::new();
        let mut fault: Option<Diagnostic> = None;
        let mut at: usize = 0;
        while at < n
            invariant
                n == src.len(),
                m == self.marker_len(),
                at <= n,
                self.protected_from(src@, 0) == out@ + self.protected_from(src@, at as int),
                self.last_fault_from(src@, 0) == if self.last_fault_from(src@, at as int) is Some {
                    self.last_fault_from(src@, at as int)
                } else {
                    match fault {
                        Some(e) => Some(e@),
                        None => None,
                    }
                },
            decreases n - at,
        {
            if self.escape_here(src, at) {
                let next: usize = at + m;
                let found = if next >= n {
                    Some(Fault::InescapableEnd)
                } else {
                    match self.code_letters(src[next]) {
                        Some((x, y)) => {
                            let ghost before = out@;
                            out.push('@');
                            out.push('#');
                            out.push('\'');
                            out.push(':');
                            out.push('[');
                            out.push(';');
                            out.push(':');
                            out.push(x);
                            out.push(y);
                            out.push(']');
                            assert(out@ =~= before + code(x, y));
                            None
                        },
                        None => Some(Fault::CannotEscape(src[next])),
                    }
                };
                match found {
                    Some(f) => {
                        fault = Some(
                            Diagnostic {
                                kind: ErrorKind::Directive,
                                file: None,
                                line: Some(line_of(src, at)),
                                fault: f,
                            },
                        );
                    },
                    None => {},
                }
                assert(self.protected_from(src@, 0) =~= out@ + self.protected_from(
                    src@,
                    if next >= n {
                        n as int
                    } else {
                        next + 1
                    },
                ));
                at = if next >= n { n } else { next + 1 };
            } else {
                assert(self.protected_from(src@, 0) =~= out@.push(src@[at as int])
                    + self.protected_from(src@, at + 1));
                out.push(src[at]);
                at += 1;
            }
        }
        match fault {
            Some(e) => Err(e),
            None => {
                assert(out@ + Seq::<char>::empty() =~= out@);
                Ok(out)
            },
        }
    }

    /// Replaces every protected code of `src` by the character it stands
    /// for, and removes the codes that the scheme does not know.
    pub fn deprotect(self, src: &Vec<char>) -> (out: Vec<char>)
        ensures
            out@ == self.deprotected(src@),
    {
        let n = src.len();
        let mut out: Vec<char> = Vec::new();
        let mut at: usize = 0;
        while at < n
            invariant
                n == src.len(),
                at <= n,
                self.deprotected_from(src@, 0) == out@ + self.deprotected_from(src@, at as int),
            decreases n - at,
        {
            if self.code_here(src, at) {
                match self.decode(src[at + 7], src[at + 8]) {
                    Some(c) => {
                        assert(self.deprotected_from(src@, 0) =~= out@.push(c)
                            + self.deprotected_from(src@, at + 10));
                        out.push(c);
                    },
                    None => {
                        assert(self.deprotected_from(src@, 0) =~= out@ + self.deprotected_from(
                            src@,
                            at + 10,
                        ));
                    },
                }
                at += 10;
            } else {
                assert(self.deprotected_from(src@, 0) =~= out@.push(src@[at as int])
                    + self.deprotected_from(src@, at + 1));
                out.push(src[at]);
                at += 1;
            }
        }
        assert(out@ + Seq::<char>::empty() =~= out@);
        out
    }
}

/// The code of an escapable character has a capital first letter and a
/// second letter of the scheme's class, and decodes to that character.
pub proof fn lemma_code_decodes(scheme: EscapeScheme, c: char)
    requires
        scheme.letters(c) is Some,
    ensures
        is_capital(scheme.letters(c)->Some_0.0),
        scheme.second_letter(scheme.letters(c)->Some_0.1),
        scheme.decoded(scheme.letters(c)->Some_0.0, scheme.letters(c)->Some_0.1) == Some(c),
{
}

/// Deprotecting from an offset on reads only the text after that offset.
pub proof fn lemma_deprotect_suffix(scheme: EscapeScheme, a: Seq<char>, b: Seq<char>, from: int)
    requires
        0 <= from <= b.len(),
    ensures
        scheme.deprotected_from(a + b, a.len() + from) == scheme.deprotected_from(b, from),
    decreases b.len() - from,
{
    let ab = a + b;
    if from < b.len() {
        assert(forall|k: int| 0 <= k < b.len() ==> ab[a.len() + k] == b[k]);
        if scheme.code_at(b, from) {
            assert(scheme.code_at(ab, a.len() + from));
            lemma_deprotect_suffix(scheme, a, b, from + 10);
        } else {
            assert(!scheme.code_at(ab, a.len() + from));
            lemma_deprotect_suffix(scheme, a, b, from + 1);
        }
    }
}

/// Over a stretch without escapes, protecting and unescaping copy the text
/// and no error arises.
pub proof fn lemma_literal_run(scheme: EscapeScheme, s: Seq<char>, from: int, k: int)
    requires
        0 <= from,
        0 <= k,
        from + k <= s.len(),
        forall|j: int| from <= j < from + k ==> !scheme.escape_at(s, j),
    ensures
        scheme.protected_from(s, from) == s.subrange(from, from + k) + scheme.protected_from(
            s,
            from + k,
        ),
        scheme.unescaped_from(s, from) == s.subrange(from, from + k) + scheme.unescaped_from(
            s,
            from + k,
        ),
        scheme.last_fault_from(s, from) == scheme.last_fault_from(s, from + k),
    decreases k,
{
    if k == 0 {
        assert(s.subrange(from, from) + scheme.protected_from(s, from) =~= scheme.protected_from(
            s,
            from,
        ));
        assert(s.subrange(from, from) + scheme.unescaped_from(s, from) =~= scheme.unescaped_from(
            s,
            from,
        ));
    } else {
        lemma_literal_run(scheme, s, from + 1, k - 1);
        assert(seq![s[from]] + (s.subrange(from + 1, from + k) + scheme.protected_from(
            s,
            from + k,
        )) =~= s.subrange(from, from + k) + scheme.protected_from(s, from + k));
        assert(seq![s[from]] + (s.subrange(from + 1, from + k) + scheme.unescaped_from(
            s,
            from + k,
        )) =~= s.subrange(from, from + k) + scheme.unescaped_from(s, from + k));
    }
}

/// Where the source holds no code and a stretch of it holds no escape, the
/// protected text holds no code at the start of that stretch.
proof fn lemma_literal_is_no_code(scheme: EscapeScheme, s: Seq<char>, from: int, k: int)
    requires
        0 <= from,
        1 <= k <= 10,
        from + k <= s.len(),
        forall|j: int| from <= j < from + k ==> !scheme.escape_at(s, j),
        !scheme.code_at(s, from),
        scheme.last_fault_from(s, from) is None,
    ensures
        !scheme.code_at(scheme.protected_from(s, from), 0),
    decreases 10 - k,
{
    lemma_literal_run(scheme, s, from, k);
    let p = scheme.protected_from(s, from);
    let rest = scheme.protected_from(s, from + k);
    assert(forall|j: int| 0 <= j < k ==> p[j] == s[from + j]);
    if k == 10 {
    } else if from + k == s.len() {
        assert(rest.len() == 0);
    } else if scheme.escape_at(s, from + k) {
        let next = from + k + scheme.marker_len();
        assert(next < s.len() && scheme.letters(s[next]) is Some);
        assert(rest[0] == '@');
        assert(p[k] == '@');
    } else {
        lemma_literal_is_no_code(scheme, s, from, k + 1);
    }
}

/// Protecting and then deprotecting a text that holds no code from offset
/// `from` on leaves that part of the text without its escape markers.
proof fn lemma_round_trip_from(scheme: EscapeScheme, s: Seq<char>, from: int)
    requires
        0 <= from <= s.len(),
        forall|i: int| !scheme.code_at(s, i),
        scheme.last_fault_from(s, from) is None,
    ensures
        scheme.deprotected(scheme.protected_from(s, from)) == scheme.unescaped_from(s, from),
    decreases s.len() - from,
{
    let p = scheme.protected_from(s, from);
    if from >= s.len() {
    } else if scheme.escape_at(s, from) {
        let next = from + scheme.marker_len();
        assert(next < s.len() && scheme.letters(s[next]) is Some);
        let (x, y) = scheme.letters(s[next])->Some_0;
        lemma_code_decodes(scheme, s[next]);
        let rest = scheme.protected_from(s, next + 1);
        assert(p == code(x, y) + rest);
        assert(scheme.code_at(p, 0));
        lemma_deprotect_suffix(scheme, code(x, y), rest, 0);
        lemma_round_trip_from(scheme, s, next + 1);
    } else {
        let rest = scheme.protected_from(s, from + 1);
        assert(p == seq![s[from]] + rest);
        lemma_literal_is_no_code(scheme, s, from, 1);
        lemma_deprotect_suffix(scheme, seq![s[from]], rest, 0);
        lemma_round_trip_from(scheme, s, from + 1);
    }
}

/// Round trip: where a text holds nothing in the shape of a protected code
/// and its escapes are all valid, deprotecting the protected text gives the
/// text with each escape marker removed and the escaped character in its
/// place, each exactly once.
pub proof fn lemma_round_trip(scheme: EscapeScheme, s: Seq<char>)
    requires
        forall|i: int| !scheme.code_at(s, i),
        scheme.protected(s) is Ok,
    ensures
        scheme.deprotected(scheme.protected(s)->Ok_0) == scheme.unescaped_from(s, 0),
{
    lemma_round_trip_from(scheme, s, 0);
}

/// Round trip without escapes: a text that holds neither an escape nor
/// anything in the shape of a protected code is protected to itself and
/// deprotected to itself.
pub proof fn lemma_plain_round_trip(scheme: EscapeScheme, s: Seq<char>)
    requires
        forall|i: int| !scheme.code_at(s, i),
        forall|i: int| !scheme.escape_at(s, i),
    ensures
        scheme.protected(s) == Ok::<Seq<char>, DiagnosticView>(s),
        scheme.deprotected(s) == s,
{
    lemma_literal_run(scheme, s, 0, s.len() as int);
    assert(s.subrange(0, s.len() as int) + Seq::<char>::empty() =~= s);
    lemma_round_trip_from(scheme, s, 0);
}

} // verus!
