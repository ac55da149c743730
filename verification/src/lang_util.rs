//! The two token vocabularies, the lexer over them, line counting and the
//! nested-block argument reader that both grammars use.

use crate::error::{Diagnostic, DiagnosticView, ErrorKind, Fault, FaultView};
use crate::text::{
    count_char, has_prefix_at, lemma_occurrences_concat, occurrences, part, prefixed_at, slice,
    to_chars,
};
use core::ops::Range;
use vstd::prelude::*;

verus! {

/// The directives that preprocessing resolves.
#[derive(Clone, Copy, Debug, PartialEq, Eq, Structural)]
pub enum Directive {
    DefineMacro,
    Macro,
    Include,
    Link,
    Format,
    Unicode,
    ReplaceAll,
    ExternalTable,
}

/// The tags of the document grammar.
#[derive(Clone, Copy, Debug, PartialEq, Eq, Structural)]
pub enum Tag {
    Contents,
    Chapter,
    Section,
    Subsection,
    Text,
    List,
    OrderedList,
    Table,
    Row,
}

/// A lexical unit: a keyword of one of the two vocabularies, a block
/// delimiter, or any other single character.
#[derive(Clone, Copy, Debug, PartialEq, Eq, Structural)]
pub enum Token {
    Directive(Directive),
    Tag(Tag),
    BlockStart,
    BlockEnd,
    Other,
}

/// Which keywords a lexer recognises.
#[derive(Clone, Copy, Debug, PartialEq, Eq, Structural)]
pub enum Vocabulary {
    Directives,
    Document,
}

impl Directive {
    /// The keyword that introduces the directive.
    pub open spec fn keyword(self) -> Seq<char> {
        match self {
            Directive::DefineMacro => ".define_macro"@,
            Directive::Macro => ".macro"@,
            Directive::Include => ".include"@,
            Directive::Link => ".link"@,
            Directive::Format => ".format"@,
            Directive::Unicode => ".unicode"@,
            Directive::ReplaceAll => ".replace_all"@,
            Directive::ExternalTable => ".external_table"@,
        }
    }

    /// What a diagnostic calls the directive.
    pub open spec fn label(self) -> Seq<char> {
        match self {
            Directive::DefineMacro => "macro definition"@,
            Directive::Macro => "macro substitution"@,
            Directive::Include => "file inclusion"@,
            Directive::Link => "link"@,
            Directive::Format => "formatting statement"@,
            Directive::Unicode => "unicode codepoint"@,
            Directive::ReplaceAll => "regex replacement"@,
            Directive::ExternalTable => "external text table"@,
        }
    }

    /// The keyword that introduces the directive.
    pub fn keyword_str(self) -> (s: &'static str)
        ensures
            s@ == self.keyword(),
    {
        match self {
            Directive::DefineMacro => ".define_macro",
            Directive::Macro => ".macro",
            Directive::Include => ".include",
            Directive::Link => ".link",
            Directive::Format => ".format",
            Directive::Unicode => ".unicode",
            Directive::ReplaceAll => ".replace_all",
            Directive::ExternalTable => ".external_table",
        }
    }
}

impl Tag {
    /// What a diagnostic calls the tag.
    pub open spec fn label(self) -> Seq<char> {
        match self {
            Tag::Contents => "contents"@,
            Tag::Chapter => "chapter"@,
            Tag::Section => "section"@,
            Tag::Subsection => "subsection"@,
            Tag::Text => "text"@,
            Tag::List => "list"@,
            Tag::OrderedList => "ordered list"@,
            Tag::Table => "table"@,
            Tag::Row => "table row"@,
        }
    }
}

impl Token {
    /// What a diagnostic calls the token.
    pub open spec fn label(self) -> Seq<char> {
        match self {
            Token::Directive(d) => d.label(),
            Token::Tag(t) => t.label(),
            Token::BlockStart => "block start"@,
            Token::BlockEnd => "block end"@,
            Token::Other => "other"@,
        }
    }

    /// What a diagnostic calls the token.
    pub fn name(self) -> (s: &'static str)
        ensures
            s@ == self.label(),
    {
        match self {
            Token::Directive(Directive::DefineMacro) => "macro definition",
            Token::Directive(Directive::Macro) => "macro substitution",
            Token::Directive(Directive::Include) => "file inclusion",
            Token::Directive(Directive::Link) => "link",
            Token::Directive(Directive::Format) => "formatting statement",
            Token::Directive(Directive::Unicode) => "unicode codepoint",
            Token::Directive(Directive::ReplaceAll) => "regex replacement",
            Token::Directive(Directive::ExternalTable) => "external text table",
            Token::Tag(Tag::Contents) => "contents",
            Token::Tag(Tag::Chapter) => "chapter",
            Token::Tag(Tag::Section) => "section",
            Token::Tag(Tag::Subsection) => "subsection",
            Token::Tag(Tag::Text) => "text",
            Token::Tag(Tag::List) => "list",
            Token::Tag(Tag::OrderedList) => "ordered list",
            Token::Tag(Tag::Table) => "table",
            Token::Tag(Tag::Row) => "table row",
            Token::BlockStart => "block start",
            Token::BlockEnd => "block end",
            Token::Other => "other",
        }
    }
}

impl Vocabulary {
    /// The class of the errors raised while reading this vocabulary.
    pub open spec fn error_kind(self) -> ErrorKind {
        match self {
            Vocabulary::Directives => ErrorKind::Directive,
            Vocabulary::Document => ErrorKind::Parse,
        }
    }

    /// The class of the errors raised while reading this vocabulary.
    pub fn kind_of_errors(self) -> (k: ErrorKind)
        ensures
            k == self.error_kind(),
    {
        match self {
            Vocabulary::Directives => ErrorKind::Directive,
            Vocabulary::Document => ErrorKind::Parse,
        }
    }
}

/// Whether `c` is white space: the characters with the Unicode property
/// `White_Space`.
pub open spec fn is_space(c: char) -> bool {
    let u = c as u32;
    ||| 0x09 <= u <= 0x0D
    ||| u == 0x20
    ||| u == 0x85
    ||| u == 0xA0
    ||| u == 0x1680
    ||| 0x2000 <= u <= 0x200A
    ||| u == 0x2028
    ||| u == 0x2029
    ||| u == 0x202F
    ||| u == 0x205F
    ||| u == 0x3000
}

/// Tests whether `c` is white space.
pub fn space(c: char) -> (res: bool)
    ensures
        res == is_space(c),
{
    let u: u32 = c as u32;
    (0x09 <= u && u <= 0x0D) || u == 0x20 || u == 0x85 || u == 0xA0 || u == 0x1680 || (0x2000 <= u
        && u <= 0x200A) || u == 0x2028 || u == 0x2029 || u == 0x202F || u == 0x205F || u == 0x3000
}

/// The text with every run of white space replaced by one space.
pub open spec fn collapsed(s: Seq<char>) -> Seq<char>
    decreases s.len(),
{
    if s.len() == 0 {
        Seq::empty()
    } else {
        collapsed(s.drop_last()) + if !is_space(s.last()) {
            seq![s.last()]
        } else if s.len() >= 2 && is_space(s[s.len() - 2]) {
            Seq::empty()
        } else {
            seq![' ']
        }
    }
}

/// Replaces every run of white space by one space; see [`collapsed`].
pub fn collapse_whitespace(v: &Vec<char>) -> (out: Vec<char>)
    ensures
        out@ == collapsed(v@),
{
    let mut out: Vec<char> = Vec::new();
    let mut at: usize = 0;
    while at < v.len()
        invariant
            at <= v.len(),
            out@ == collapsed(v@.take(at as int)),
        decreases v.len() - at,
    {
        assert(v@.take(at + 1).drop_last() =~= v@.take(at as int));
        let c = v[at];
        if !space(c) {
            out.push(c);
        } else if at == 0 || !space(v[at - 1]) {
            out.push(' ');
        }
        at += 1;
    }
    assert(v@.take(v.len() as int) =~= v@);
    out
}

/// Collapsing white space keeps every character that is none: a text holds
/// each of them as often after it as before.
pub proof fn lemma_collapsed_keeps(s: Seq<char>, c: char)
    requires
        !is_space(c),
    ensures
        occurrences(collapsed(s), c) == occurrences(s, c),
    decreases s.len(),
{
    if s.len() > 0 {
        lemma_collapsed_keeps(s.drop_last(), c);
        let piece = if !is_space(s.last()) {
            seq![s.last()]
        } else if s.len() >= 2 && is_space(s[s.len() - 2]) {
            Seq::<char>::empty()
        } else {
            seq![' ']
        };
        lemma_occurrences_concat(collapsed(s.drop_last()), piece, c);
        assert(occurrences(piece, c) == if s.last() == c { 1nat } else { 0nat }) by {
            reveal_with_fuel(occurrences, 2);
            if piece.len() > 0 {
                assert(piece.drop_last() =~= Seq::<char>::empty());
            }
        }
    }
}

/// The first offset at or after `from` that holds no white space.
pub open spec fn skip_space(s: Seq<char>, from: int) -> int
    decreases s.len() - from,
{
    if 0 <= from < s.len() && is_space(s[from]) {
        skip_space(s, from + 1)
    } else {
        from
    }
}

/// The keyword of `vocabulary` that starts at offset `at`, with its length.
/// No two keywords of one vocabulary can start at the same offset.
pub open spec fn word_at(vocabulary: Vocabulary, s: Seq<char>, at: int) -> Option<(Token, int)> {
    match vocabulary {
        Vocabulary::Directives => {
            if prefixed_at(s, at, ".define_macro"@) {
                Some((Token::Directive(Directive::DefineMacro), 13))
            } else if prefixed_at(s, at, ".macro"@) {
                Some((Token::Directive(Directive::Macro), 6))
            } else if prefixed_at(s, at, ".include"@) {
                Some((Token::Directive(Directive::Include), 8))
            } else if prefixed_at(s, at, ".link"@) {
                Some((Token::Directive(Directive::Link), 5))
            } else if prefixed_at(s, at, ".format"@) {
                Some((Token::Directive(Directive::Format), 7))
            } else if prefixed_at(s, at, ".unicode"@) {
                Some((Token::Directive(Directive::Unicode), 8))
            } else if prefixed_at(s, at, ".replace_all"@) {
                Some((Token::Directive(Directive::ReplaceAll), 12))
            } else if prefixed_at(s, at, ".external_table"@) {
                Some((Token::Directive(Directive::ExternalTable), 15))
            } else {
                None
            }
        },
        Vocabulary::Document => {
            if prefixed_at(s, at, "contents"@) {
                Some((Token::Tag(Tag::Contents), 8))
            } else if prefixed_at(s, at, "main"@) {
                Some((Token::Tag(Tag::Contents), 4))
            } else if prefixed_at(s, at, "chapter"@) {
                Some((Token::Tag(Tag::Chapter), 7))
            } else if prefixed_at(s, at, "section"@) {
                Some((Token::Tag(Tag::Section), 7))
            } else if prefixed_at(s, at, "subsection"@) {
                Some((Token::Tag(Tag::Subsection), 10))
            } else if prefixed_at(s, at, "text"@) {
                Some((Token::Tag(Tag::Text), 4))
            } else if prefixed_at(s, at, "list"@) {
                Some((Token::Tag(Tag::List), 4))
            } else if prefixed_at(s, at, "ordered_list"@) {
                Some((Token::Tag(Tag::OrderedList), 12))
            } else if prefixed_at(s, at, "table"@) {
                Some((Token::Tag(Tag::Table), 5))
            } else if prefixed_at(s, at, "row"@) {
                Some((Token::Tag(Tag::Row), 3))
            } else {
                None
            }
        },
    }
}

/// One step of lexing: the token found, and the offsets where it starts
/// and ends.
pub struct Scan {
    pub token: Option<Token>,
    pub start: int,
    pub end: int,
}

/// The token that follows offset `from`: white space is skipped, then the
/// longest keyword wins, then a brace, and any other character is a token of
/// its own. At the end of the text there is no token and the span is empty.
pub open spec fn scan(vocabulary: Vocabulary, s: Seq<char>, from: int) -> Scan {
    let at = skip_space(s, from);
    if at < 0 || at >= s.len() {
        Scan { token: None, start: at, end: at }
    } else {
        match word_at(vocabulary, s, at) {
            Some((token, n)) => Scan { token: Some(token), start: at, end: at + n },
            None => Scan {
                token: Some(
                    if s[at] == '{' {
                        Token::BlockStart
                    } else if s[at] == '}' {
                        Token::BlockEnd
                    } else {
                        Token::Other
                    },
                ),
                start: at,
                end: at + 1,
            },
        }
    }
}

/// Skipping white space never moves backwards nor past the end.
pub proof fn lemma_skip_space_bounds(s: Seq<char>, from: int)
    ensures
        from <= skip_space(s, from),
        from <= s.len() ==> skip_space(s, from) <= s.len(),
    decreases s.len() - from,
{
    if 0 <= from < s.len() && is_space(s[from]) {
        lemma_skip_space_bounds(s, from + 1);
    }
}

/// A token is never empty and ends inside the text.
pub proof fn lemma_scan_advances(vocabulary: Vocabulary, s: Seq<char>, from: int)
    requires
        0 <= from,
    ensures
        from <= scan(vocabulary, s, from).start <= scan(vocabulary, s, from).end,
        scan(vocabulary, s, from).token is Some ==> {
            &&& scan(vocabulary, s, from).start < scan(vocabulary, s, from).end
            &&& scan(vocabulary, s, from).end <= s.len()
        },
        scan(vocabulary, s, from).token is None ==> scan(vocabulary, s, from).start == scan(
            vocabulary,
            s,
            from,
        ).end,
        from <= s.len() ==> scan(vocabulary, s, from).end <= s.len(),
{
    lemma_skip_space_bounds(s, from);
    let at = skip_space(s, from);
    if at < s.len() {
        match word_at(vocabulary, s, at) {
            Some((token, n)) => {
                reveal_strlit(".define_macro");
                reveal_strlit(".macro");
                reveal_strlit(".include");
                reveal_strlit(".link");
                reveal_strlit(".format");
                reveal_strlit(".unicode");
                reveal_strlit(".replace_all");
                reveal_strlit(".external_table");
                reveal_strlit("contents");
                reveal_strlit("main");
                reveal_strlit("chapter");
                reveal_strlit("section");
                reveal_strlit("subsection");
                reveal_strlit("text");
                reveal_strlit("list");
                reveal_strlit("ordered_list");
                reveal_strlit("table");
                reveal_strlit("row");
            },
            None => {},
        }
    }
}

/// A lexer's position in a text: the span of the token it returned last.
/// The text itself is handed to each call.
#[derive(Clone, Copy, Debug)]
pub struct Lexer {
    pub vocabulary: Vocabulary,
    pub start: usize,
    pub end: usize,
}

impl Lexer {
    /// A lexer at the start of a text.
    pub fn new(vocabulary: Vocabulary) -> (lex: Lexer)
        ensures
            lex.vocabulary == vocabulary,
            lex.start == 0,
            lex.end == 0,
    {
        Lexer { vocabulary, start: 0, end: 0 }
    }

    /// Reads the next token of `src`; see [`scan`].
    pub fn next(&mut self, src: &Vec<char>) -> (token: Option<Token>)
        ensures
            final(self).vocabulary == old(self).vocabulary,
            token == scan(old(self).vocabulary, src@, old(self).end as int).token,
            final(self).start == scan(old(self).vocabulary, src@, old(self).end as int).start,
            final(self).end == scan(old(self).vocabulary, src@, old(self).end as int).end,
    {
        let n = src.len();
        let mut at: usize = self.end;
        while at < n && space(src[at])
            invariant
                n == src.len(),
                self.end <= at,
                skip_space(src@, self.end as int) == skip_space(src@, at as int),
            decreases n - at,
        {
            at += 1;
        }
        if at >= n {
            self.start = at;
            self.end = at;
            return None;
        }
        proof {
            lemma_scan_advances(self.vocabulary, src@, old(self).end as int);
        }
        let (token, len) = match self.vocabulary {
            Vocabulary::Directives => {
                if has_prefix_at(src, at, ".define_macro") {
                    (Token::Directive(Directive::DefineMacro), 13usize)
                } else if has_prefix_at(src, at, ".macro") {
                    (Token::Directive(Directive::Macro), 6usize)
                } else if has_prefix_at(src, at, ".include") {
                    (Token::Directive(Directive::Include), 8usize)
                } else if has_prefix_at(src, at, ".link") {
                    (Token::Directive(Directive::Link), 5usize)
                } else if has_prefix_at(src, at, ".format") {
                    (Token::Directive(Directive::Format), 7usize)
                } else if has_prefix_at(src, at, ".unicode") {
                    (Token::Directive(Directive::Unicode), 8usize)
                } else if has_prefix_at(src, at, ".replace_all") {
                    (Token::Directive(Directive::ReplaceAll), 12usize)
                } else if has_prefix_at(src, at, ".external_table") {
                    (Token::Directive(Directive::ExternalTable), 15usize)
                } else {
                    (single(src[at]), 1usize)
                }
            },
            Vocabulary::Document => {
                if has_prefix_at(src, at, "contents") {
                    (Token::Tag(Tag::Contents), 8usize)
                } else if has_prefix_at(src, at, "main") {
                    (Token::Tag(Tag::Contents), 4usize)
                } else if has_prefix_at(src, at, "chapter") {
                    (Token::Tag(Tag::Chapter), 7usize)
                } else if has_prefix_at(src, at, "section") {
                    (Token::Tag(Tag::Section), 7usize)
                } else if has_prefix_at(src, at, "subsection") {
                    (Token::Tag(Tag::Subsection), 10usize)
                } else if has_prefix_at(src, at, "text") {
                    (Token::Tag(Tag::Text), 4usize)
                } else if has_prefix_at(src, at, "list") {
                    (Token::Tag(Tag::List), 4usize)
                } else if has_prefix_at(src, at, "ordered_list") {
                    (Token::Tag(Tag::OrderedList), 12usize)
                } else if has_prefix_at(src, at, "table") {
                    (Token::Tag(Tag::Table), 5usize)
                } else if has_prefix_at(src, at, "row") {
                    (Token::Tag(Tag::Row), 3usize)
                } else {
                    (single(src[at]), 1usize)
                }
            },
        };
        self.start = at;
        self.end = at + len;
        Some(token)
    }
}

/// The token that a character outside every keyword makes.
fn single(c: char) -> (token: Token)
    ensures
        token == if c == '{' {
            Token::BlockStart
        } else if c == '}' {
            Token::BlockEnd
        } else {
            Token::Other
        },
{
    if c == '{' {
        Token::BlockStart
    } else if c == '}' {
        Token::BlockEnd
    } else {
        Token::Other
    }
}

/// The number of line breaks in `s`.
pub open spec fn line_breaks(s: Seq<char>) -> nat {
    occurrences(s, '\n')
}

/// The 1-based number of the line that holds offset `at`: one more than the
/// line breaks before it, as far as a `usize` can tell.
pub open spec fn line_number(s: Seq<char>, at: int) -> usize {
    let n = 1 + line_breaks(part(s, 0, at));
    if n > usize::MAX {
        usize::MAX
    } else {
        n as usize
    }
}

/// Counting the line breaks of a text, whole or in a range of offsets.
pub trait CountLines {
    /// The characters of the text.
    spec fn characters(&self) -> Seq<char>;

    /// The number of line breaks in the text.
    fn count_lines(&self) -> (n: usize)
        ensures
            n == line_breaks(self.characters()),
    ;

    /// The number of line breaks at the offsets of `range` that the text has.
    fn count_lines_in(&self, range: Range<usize>) -> (n: usize)
        ensures
            n == line_breaks(part(self.characters(), range.start as int, range.end as int)),
    ;
}

impl CountLines for Vec<char> {
    open spec fn characters(&self) -> Seq<char> {
        self@
    }

    fn count_lines(&self) -> (n: usize) {
        count_char(self, '\n')
    }

    fn count_lines_in(&self, range: Range<usize>) -> (n: usize) {
        let piece = slice(self, range.start, range.end);
        count_char(&piece, '\n')
    }
}

impl CountLines for String {
    open spec fn characters(&self) -> Seq<char> {
        self@
    }

    fn count_lines(&self) -> (n: usize) {
        let chars = to_chars(self.as_str());
        count_char(&chars, '\n')
    }

    fn count_lines_in(&self, range: Range<usize>) -> (n: usize) {
        let chars = to_chars(self.as_str());
        let piece = slice(&chars, range.start, range.end);
        count_char(&piece, '\n')
    }
}

/// The 1-based line that holds offset `at` of `src`.
pub fn line_of(src: &Vec<char>, at: usize) -> (line: usize)
    ensures
        line == line_number(src@, at as int),
{
    let n = src.count_lines_in(0..at);
    if n == usize::MAX {
        n
    } else {
        n + 1
    }
}

/// The 1-based line of the token that `lex` returned last.
pub fn current_line(src: &Vec<char>, lex: &Lexer) -> (line: usize)
    ensures
        line == line_number(src@, lex.start as int),
{
    line_of(src, lex.start)
}

/// An error of the class that `lex` raises, at the line of its last token.
pub fn fault_here(src: &Vec<char>, lex: &Lexer, fault: Fault) -> (e: Diagnostic)
    ensures
        e@ == (DiagnosticView {
            kind: lex.vocabulary.error_kind(),
            file: None,
            line: Some(line_number(src@, lex.start as int)),
            fault: fault@,
        }),
{
    Diagnostic {
        kind: lex.vocabulary.kind_of_errors(),
        file: None,
        line: Some(current_line(src, lex)),
        fault,
    }
}

/// What [`expect_tok`] does from offset `from`: the offset after the token
/// if it is `expected`, else the error.
pub open spec fn expected_at(vocabulary: Vocabulary, s: Seq<char>, from: int, expected: Token)
    -> Result<int, DiagnosticView> {
    let sc = scan(vocabulary, s, from);
    if sc.token == Some(expected) {
        Ok(sc.end)
    } else {
        Err(
            DiagnosticView {
                kind: vocabulary.error_kind(),
                file: None,
                line: Some(line_number(s, sc.start)),
                fault: FaultView::ExpectedToken { expected, found: sc.token },
            },
        )
    }
}

/// Reads the next token and fails unless it is `expected`.
pub fn expect_tok(src: &Vec<char>, lex: &mut Lexer, expected: Token) -> (res: Result<
    (),
    Diagnostic,
>)
    ensures
        final(lex).vocabulary == old(lex).vocabulary,
        final(lex).start == scan(old(lex).vocabulary, src@, old(lex).end as int).start,
        final(lex).end == scan(old(lex).vocabulary, src@, old(lex).end as int).end,
        match res {
            Ok(_) => expected_at(old(lex).vocabulary, src@, old(lex).end as int, expected) == Ok::<
                int,
                DiagnosticView,
            >(final(lex).end as int),
            Err(e) => expected_at(old(lex).vocabulary, src@, old(lex).end as int, expected)
                == Err::<int, DiagnosticView>(e@),
        },
{
    let found = lex.next(src);
    let hit = match found {
        Some(token) => token == expected,
        None => false,
    };
    if hit {
        Ok(())
    } else {
        Err(fault_here(src, lex, Fault::ExpectedToken { expected, found }))
    }
}

/// The offset of the `}` that closes the block entered before `from`, where
/// `depth` further blocks are open; the end of the text if none closes it.
pub open spec fn block_close(s: Seq<char>, from: int, depth: nat) -> int
    decreases s.len() - from,
{
    if from < 0 || from >= s.len() {
        from
    } else if s[from] == '{' {
        block_close(s, from + 1, depth + 1)
    } else if s[from] == '}' {
        if depth == 0 {
            from
        } else {
            block_close(s, from + 1, (depth - 1) as nat)
        }
    } else {
        block_close(s, from + 1, depth)
    }
}

/// The closing brace is never before the search and never past the end.
pub proof fn lemma_block_close_bounds(s: Seq<char>, from: int, depth: nat)
    ensures
        from <= block_close(s, from, depth),
        from <= s.len() ==> block_close(s, from, depth) <= s.len(),
    decreases s.len() - from,
{
    if from < 0 || from >= s.len() {
    } else if s[from] == '{' {
        lemma_block_close_bounds(s, from + 1, depth + 1);
    } else if s[from] == '}' {
        if depth != 0 {
            lemma_block_close_bounds(s, from + 1, (depth - 1) as nat);
        }
    } else {
        lemma_block_close_bounds(s, from + 1, depth);
    }
}

/// The closing brace matches: where the search from `from` finds one, it is
/// a `}`, and the text before it holds as many `{` more than the `depth`
/// blocks that were open leave it `}` to close.
pub proof fn lemma_block_close_matches(s: Seq<char>, from: int, depth: nat)
    requires
        0 <= from <= s.len(),
        block_close(s, from, depth) < s.len(),
    ensures
        s[block_close(s, from, depth)] == '}',
        occurrences(s.subrange(from, block_close(s, from, depth)), '{') + depth == occurrences(
            s.subrange(from, block_close(s, from, depth)),
            '}',
        ),
    decreases s.len() - from,
{
    lemma_block_close_bounds(s, from, depth);
    let close = block_close(s, from, depth);
    if s[from] == '}' && depth == 0 {
        assert(s.subrange(from, from) =~= Seq::<char>::empty());
    } else {
        let inner: nat = if s[from] == '{' {
            depth + 1
        } else if s[from] == '}' {
            (depth - 1) as nat
        } else {
            depth
        };
        lemma_block_close_bounds(s, from + 1, inner);
        lemma_block_close_matches(s, from + 1, inner);
        assert(s.subrange(from, close) =~= seq![s[from]] + s.subrange(from + 1, close));
        lemma_occurrences_concat(seq![s[from]], s.subrange(from + 1, close), '{');
        lemma_occurrences_concat(seq![s[from]], s.subrange(from + 1, close), '}');
        let first = seq![s[from]];
        assert(first.drop_last() =~= Seq::<char>::empty());
        assert(first.last() == s[from]);
        assert(occurrences(first, '{') == if s[from] == '{' { 1nat } else { 0nat }) by {
            reveal_with_fuel(occurrences, 2);
        }
        assert(occurrences(first, '}') == if s[from] == '}' { 1nat } else { 0nat }) by {
            reveal_with_fuel(occurrences, 2);
        }
    }
}

/// A closed block argument is balanced: it ends at a `}` and its text holds
/// as many `{` as `}`.
pub proof fn lemma_block_arg_balanced(vocabulary: Vocabulary, s: Seq<char>, from: int)
    requires
        0 <= from <= s.len(),
        block_arg(vocabulary, s, from) is Ok,
        block_arg(vocabulary, s, from)->Ok_0.close < s.len(),
    ensures
        s[block_arg(vocabulary, s, from)->Ok_0.close] == '}',
        occurrences(block_arg(vocabulary, s, from)->Ok_0.text, '{') == occurrences(
            block_arg(vocabulary, s, from)->Ok_0.text,
            '}',
        ),
{
    lemma_scan_advances(vocabulary, s, from);
    let inside = scan(vocabulary, s, from).end;
    lemma_block_close_bounds(s, inside, 0);
    lemma_block_close_matches(s, inside, 0);
}

/// Moves `lex` to the `}` that closes the block it has just entered, with
/// nested blocks passed over; to the end of the text if nothing closes it.
pub fn skip_block(src: &Vec<char>, lex: &mut Lexer)
    ensures
        final(lex).vocabulary == old(lex).vocabulary,
        final(lex).start == block_close(src@, old(lex).end as int, 0),
        final(lex).end == if final(lex).start < src.len() {
            final(lex).start + 1
        } else {
            final(lex).start as int
        },
{
    let n = src.len();
    let mut at: usize = lex.end;
    let mut depth: usize = 0;
    let mut found = false;
    while at < n && !found
        invariant
            n == src.len(),
            lex.end <= at,
            at < n ==> depth <= at,
            found ==> at < n && block_close(src@, lex.end as int, 0) == at,
            !found ==> block_close(src@, lex.end as int, 0) == block_close(
                src@,
                at as int,
                depth as nat,
            ),
        decreases n - at + if found { 0int } else { 1int },
    {
        let c = src[at];
        if c == '}' && depth == 0 {
            found = true;
        } else {
            if c == '{' {
                depth += 1;
            } else if c == '}' {
                depth -= 1;
            }
            at += 1;
        }
    }
    lex.start = at;
    lex.end = if at < n { at + 1 } else { at };
}

/// A block argument: its text, the offset of its closing brace and the
/// offset after it.
pub struct Block {
    pub text: Seq<char>,
    pub close: int,
    pub end: int,
}

/// The block that must follow offset `from`: white space, a `{`, and the raw
/// text up to the `}` of the same depth. A block that nothing closes runs to
/// the end of the text.
pub open spec fn block_arg(vocabulary: Vocabulary, s: Seq<char>, from: int) -> Result<
    Block,
    DiagnosticView,
> {
    match expected_at(vocabulary, s, from, Token::BlockStart) {
        Err(e) => Err(e),
        Ok(open_end) => {
            let close = block_close(s, open_end, 0);
            Ok(
                Block {
                    text: part(s, open_end, close),
                    close,
                    end: if close < s.len() {
                        close + 1
                    } else {
                        close
                    },
                },
            )
        },
    }
}

/// A block argument ends after the offset it was read from, inside the text.
pub proof fn lemma_block_arg_bounds(vocabulary: Vocabulary, s: Seq<char>, from: int)
    requires
        0 <= from <= s.len(),
        block_arg(vocabulary, s, from) is Ok,
    ensures
        from < block_arg(vocabulary, s, from)->Ok_0.close,
        from < block_arg(vocabulary, s, from)->Ok_0.end <= s.len(),
        block_arg(vocabulary, s, from)->Ok_0.close <= block_arg(vocabulary, s, from)->Ok_0.end,
{
    lemma_scan_advances(vocabulary, s, from);
    let sc = scan(vocabulary, s, from);
    lemma_block_close_bounds(s, sc.end, 0);
}

/// Reads the block argument that follows the lexer's position.
pub fn extract_arg(src: &Vec<char>, lex: &mut Lexer) -> (res: Result<Vec<char>, Diagnostic>)
    ensures
        final(lex).vocabulary == old(lex).vocabulary,
        match res {
            Ok(text) => {
                &&& block_arg(old(lex).vocabulary, src@, old(lex).end as int) is Ok
                &&& text@ == block_arg(old(lex).vocabulary, src@, old(lex).end as int)->Ok_0.text
                &&& final(lex).start == block_arg(
                    old(lex).vocabulary,
                    src@,
                    old(lex).end as int,
                )->Ok_0.close
                &&& final(lex).end == block_arg(
                    old(lex).vocabulary,
                    src@,
                    old(lex).end as int,
                )->Ok_0.end
            },
            Err(e) => block_arg(old(lex).vocabulary, src@, old(lex).end as int) == Err::<
                Block,
                DiagnosticView,
            >(e@),
        },
{
    match expect_tok(src, lex, Token::BlockStart) {
        Err(e) => Err(e),
        Ok(_) => {
            let arg_start = lex.end;
            skip_block(src, lex);
            let arg_end = lex.start;
            Ok(slice(src, arg_start, arg_end))
        },
    }
}

} // verus!
