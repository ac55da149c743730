use vvsml::error::{ErrorKind, Fault};
use vvsml::lang_util::{
    current_line, expect_tok, extract_arg, skip_block, CountLines, Directive, Lexer, Tag, Token,
    Vocabulary,
};
use vvsml::text::{to_chars, to_string};

fn tokens(vocabulary: Vocabulary, src: &str) -> Vec<(Token, usize, usize)> {
    let text = to_chars(src);
    let mut lex = Lexer::new(vocabulary);
    let mut out = Vec::new();
    while let Some(token) = lex.next(&text) {
        out.push((token, lex.start, lex.end));
    }
    out
}

#[test]
fn directive_keywords_are_tokens() {
    let found = tokens(
        Vocabulary::Directives,
        ".define_macro .macro .include .link .format .unicode .replace_all .external_table",
    );
    let kinds: Vec<Token> = found.iter().map(|t| t.0).collect();
    assert_eq!(
        kinds,
        vec![
            Token::Directive(Directive::DefineMacro),
            Token::Directive(Directive::Macro),
            Token::Directive(Directive::Include),
            Token::Directive(Directive::Link),
            Token::Directive(Directive::Format),
            Token::Directive(Directive::Unicode),
            Token::Directive(Directive::ReplaceAll),
            Token::Directive(Directive::ExternalTable),
        ]
    );
    assert_eq!(found[0].1, 0);
    assert_eq!(found[0].2, 13);
    assert_eq!(found[1].1, 14);
    assert_eq!(found[1].2, 20);
}

#[test]
fn document_tags_are_tokens() {
    let found = tokens(
        Vocabulary::Document,
        "contents main chapter section subsection text list ordered_list table row",
    );
    let kinds: Vec<Token> = found.iter().map(|t| t.0).collect();
    assert_eq!(
        kinds,
        vec![
            Token::Tag(Tag::Contents),
            Token::Tag(Tag::Contents),
            Token::Tag(Tag::Chapter),
            Token::Tag(Tag::Section),
            Token::Tag(Tag::Subsection),
            Token::Tag(Tag::Text),
            Token::Tag(Tag::List),
            Token::Tag(Tag::OrderedList),
            Token::Tag(Tag::Table),
            Token::Tag(Tag::Row),
        ]
    );
}

#[test]
fn braces_and_other_characters_are_single_tokens() {
    let found = tokens(Vocabulary::Document, "{ }x é");
    assert_eq!(
        found,
        vec![
            (Token::BlockStart, 0, 1),
            (Token::BlockEnd, 2, 3),
            (Token::Other, 3, 4),
            (Token::Other, 5, 6),
        ]
    );
}

#[test]
fn a_failed_keyword_costs_one_character() {
    let found = tokens(Vocabulary::Document, "orow");
    assert_eq!(found, vec![(Token::Other, 0, 1), (Token::Tag(Tag::Row), 1, 4)]);
    let found = tokens(Vocabulary::Directives, ".mac.macro");
    assert_eq!(found.len(), 5);
    assert_eq!(found[4], (Token::Directive(Directive::Macro), 4, 10));
}

#[test]
fn each_vocabulary_ignores_the_other() {
    let found = tokens(Vocabulary::Document, ".macro");
    assert!(found.iter().all(|t| t.0 == Token::Other));
    assert_eq!(found.len(), 6);
    let found = tokens(Vocabulary::Directives, "text");
    assert!(found.iter().all(|t| t.0 == Token::Other));
}

#[test]
fn white_space_is_skipped() {
    let found = tokens(Vocabulary::Document, " \t\n\u{a0}\u{2003}text\u{3000}");
    assert_eq!(found, vec![(Token::Tag(Tag::Text), 5, 9)]);
    assert!(tokens(Vocabulary::Document, "  \n ").is_empty());
    assert!(tokens(Vocabulary::Directives, "").is_empty());
}

#[test]
fn at_the_end_the_span_is_empty() {
    let text = to_chars("ab  ");
    let mut lex = Lexer::new(Vocabulary::Document);
    assert_eq!(lex.next(&text), Some(Token::Other));
    assert_eq!(lex.next(&text), Some(Token::Other));
    assert_eq!(lex.next(&text), None);
    assert_eq!((lex.start, lex.end), (4, 4));
    assert_eq!(lex.next(&text), None);
    assert_eq!((lex.start, lex.end), (4, 4));
}

#[test]
fn lines_are_counted() {
    assert_eq!(String::from("a\nb\nc").count_lines(), 2);
    assert_eq!(String::from("").count_lines(), 0);
    assert_eq!(to_chars("\n\n\n").count_lines(), 3);
    assert_eq!(String::from("a\nb\nc").count_lines_in(0..2), 1);
    assert_eq!(String::from("a\nb\nc").count_lines_in(2..4), 1);
    assert_eq!(String::from("a\nb\nc").count_lines_in(0..100), 2);
    assert_eq!(to_chars("a\nb\nc").count_lines_in(2..3), 0);
    assert_eq!(to_chars("a\nb\nc").count_lines_in(4..1), 0);
}

#[test]
fn current_line_is_the_line_of_the_last_token() {
    let text = to_chars("text\n\n  list");
    let mut lex = Lexer::new(Vocabulary::Document);
    assert_eq!(current_line(&text, &lex), 1);
    lex.next(&text);
    assert_eq!(current_line(&text, &lex), 1);
    lex.next(&text);
    assert_eq!(current_line(&text, &lex), 3);
}

#[test]
fn expect_tok_accepts_the_expected_token() {
    let text = to_chars("  {x");
    let mut lex = Lexer::new(Vocabulary::Directives);
    assert_eq!(expect_tok(&text, &mut lex, Token::BlockStart), Ok(()));
    assert_eq!((lex.start, lex.end), (2, 3));
}

#[test]
fn expect_tok_reports_what_it_found() {
    let text = to_chars("\nx{");
    let mut lex = Lexer::new(Vocabulary::Directives);
    let e = expect_tok(&text, &mut lex, Token::BlockStart).unwrap_err();
    assert_eq!(
        e.fault,
        Fault::ExpectedToken { expected: Token::BlockStart, found: Some(Token::Other) }
    );
    assert_eq!(e.kind, ErrorKind::Directive);
    assert_eq!(e.line, Some(2));
    assert_eq!(e.message(), "expected token block start but found other");

    let text = to_chars("  ");
    let mut lex = Lexer::new(Vocabulary::Document);
    let e = expect_tok(&text, &mut lex, Token::BlockStart).unwrap_err();
    assert_eq!(e.fault, Fault::ExpectedToken { expected: Token::BlockStart, found: None });
    assert_eq!(e.kind, ErrorKind::Parse);
    assert_eq!(e.message(), "expected token block start but found nothing");
}

#[test]
fn skip_block_finds_the_matching_brace() {
    let text = to_chars("{a{b}{c{d}}e}f");
    let mut lex = Lexer::new(Vocabulary::Document);
    lex.next(&text);
    skip_block(&text, &mut lex);
    assert_eq!((lex.start, lex.end), (12, 13));
}

#[test]
fn skip_block_stops_at_the_end_of_an_open_block() {
    let text = to_chars("{a{b}");
    let mut lex = Lexer::new(Vocabulary::Document);
    lex.next(&text);
    skip_block(&text, &mut lex);
    assert_eq!((lex.start, lex.end), (5, 5));
}

#[test]
fn extract_arg_returns_the_raw_text_of_the_block() {
    let text = to_chars(".link {a {nested} b}{second}");
    let mut lex = Lexer::new(Vocabulary::Directives);
    lex.next(&text);
    let first = extract_arg(&text, &mut lex).unwrap();
    assert_eq!(to_string(&first), "a {nested} b");
    let second = extract_arg(&text, &mut lex).unwrap();
    assert_eq!(to_string(&second), "second");
    assert_eq!(lex.end, text.len());
}

#[test]
fn extract_arg_of_an_empty_block_is_empty() {
    let text = to_chars("{}");
    let mut lex = Lexer::new(Vocabulary::Document);
    assert_eq!(extract_arg(&text, &mut lex).unwrap(), Vec::<char>::new());
}

#[test]
fn extract_arg_of_an_open_block_runs_to_the_end() {
    let text = to_chars("{abc{d}");
    let mut lex = Lexer::new(Vocabulary::Document);
    assert_eq!(to_string(&extract_arg(&text, &mut lex).unwrap()), "abc{d}");
    assert_eq!((lex.start, lex.end), (7, 7));
}

#[test]
fn extract_arg_needs_a_block_start() {
    let text = to_chars("}x");
    let mut lex = Lexer::new(Vocabulary::Document);
    let e = extract_arg(&text, &mut lex).unwrap_err();
    assert_eq!(
        e.fault,
        Fault::ExpectedToken { expected: Token::BlockStart, found: Some(Token::BlockEnd) }
    );
    assert_eq!(e.message(), "expected token block start but found block end");
}

#[test]
fn tokens_have_names() {
    assert_eq!(Token::Tag(Tag::OrderedList).name(), "ordered list");
    assert_eq!(Token::Tag(Tag::Row).name(), "table row");
    assert_eq!(Token::Directive(Directive::DefineMacro).name(), "macro definition");
    assert_eq!(Token::Directive(Directive::ReplaceAll).name(), "regex replacement");
    assert_eq!(Token::Other.name(), "other");
    assert_eq!(Directive::ExternalTable.keyword_str(), ".external_table");
}
