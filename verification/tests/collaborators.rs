use vvsml::error::{Diagnostic, ErrorKind, Fault};
use vvsml::files::{read_file, SourceFile};
use vvsml::format::single_fmt;
use vvsml::ipa_trans::{IpaTranslate, TransPair};
use vvsml::lang_util::{Tag, Token};
use vvsml::macros::MacroTable;
use vvsml::text::{
    append, append_str, count_char, decimal, has_prefix_at, same_text, slice, splice, to_chars,
    to_string,
};
use vvsml::unicode::{decode_codepoint, parse_hex, CodepointError};

fn pair(pattern: &str, replacement: &str) -> TransPair {
    TransPair(pattern.to_string(), replacement.to_string())
}

#[test]
fn pairs_are_applied_in_order() {
    let pairs = vec![pair("a", "b"), pair("b+", "c")];
    assert_eq!(pairs.translate("aab").unwrap(), "c");
    let pairs = vec![pair("b+", "c"), pair("a", "b")];
    assert_eq!(pairs.translate("aab").unwrap(), "bbc");
}

#[test]
fn longer_patterns_must_come_first() {
    let pairs = vec![pair("_B_L", "1"), pair("_B", "2")];
    assert_eq!(pairs.translate("_B_L_B").unwrap(), "12");
    let pairs = vec![pair("_B", "2"), pair("_B_L", "1")];
    assert_eq!(pairs.translate("_B_L_B").unwrap(), "2_L2");
}

#[test]
fn no_pairs_leave_the_text() {
    let pairs: Vec<TransPair> = Vec::new();
    assert_eq!(pairs.translate("abc").unwrap(), "abc");
}

#[test]
fn a_pattern_that_is_no_regex_is_an_error() {
    let pairs = vec![pair("a", "b"), pair("(", "c"), pair("[", "d")];
    let e = pairs.translate("aab").unwrap_err();
    assert_eq!(e.fault, Fault::InvalidRegex("(".to_string()));
    assert_eq!(e.kind, ErrorKind::Directive);
    assert_eq!(e.line, None);
}

#[test]
fn hexadecimal_numbers() {
    assert_eq!(parse_hex(&to_chars("48")), Some(0x48));
    assert_eq!(parse_hex(&to_chars("0")), Some(0));
    assert_eq!(parse_hex(&to_chars("+ff")), Some(255));
    assert_eq!(parse_hex(&to_chars("aBcDeF")), Some(0xABCDEF));
    assert_eq!(parse_hex(&to_chars("FFFFFFFF")), Some(u32::MAX));
    assert_eq!(parse_hex(&to_chars("000000000000FFFFFFFF")), Some(u32::MAX));
    assert_eq!(parse_hex(&to_chars("100000000")), None);
    assert_eq!(parse_hex(&to_chars("FFFFFFFFF")), None);
    assert_eq!(parse_hex(&to_chars("")), None);
    assert_eq!(parse_hex(&to_chars("+")), None);
    assert_eq!(parse_hex(&to_chars("++1")), None);
    assert_eq!(parse_hex(&to_chars("1+")), None);
    assert_eq!(parse_hex(&to_chars("0x48")), None);
    assert_eq!(parse_hex(&to_chars("4_8")), None);
    assert_eq!(parse_hex(&to_chars("g")), None);
    assert_eq!(parse_hex(&to_chars("FFFFFFFFFg")), None);
}

#[test]
fn codepoints() {
    assert_eq!(decode_codepoint(&to_chars("48")), Ok('H'));
    assert_eq!(decode_codepoint(&to_chars("D7FF")), Ok('\u{D7FF}'));
    assert_eq!(decode_codepoint(&to_chars("E000")), Ok('\u{E000}'));
    assert_eq!(decode_codepoint(&to_chars("DFFF")), Err(CodepointError::Undecodable));
    assert_eq!(decode_codepoint(&to_chars("ZZZ")), Err(CodepointError::Invalid));
}

#[test]
fn files_are_found_by_their_path() {
    let files = vec![
        SourceFile { path: "a".to_string(), contents: "1".to_string() },
        SourceFile { path: "b".to_string(), contents: "2".to_string() },
        SourceFile { path: "a".to_string(), contents: "3".to_string() },
    ];
    assert_eq!(read_file(&files, &to_chars("a")), Some(vec!['1']));
    assert_eq!(read_file(&files, &to_chars("b")), Some(vec!['2']));
    assert_eq!(read_file(&files, &to_chars("c")), None);
    assert_eq!(read_file(&Vec::new(), &to_chars("a")), None);
}

#[test]
fn macro_table_keeps_the_last_definition() {
    let mut table = MacroTable::new();
    assert_eq!(table.lookup(&to_chars("a")), None);
    table.define(to_chars("a"), to_chars("1"));
    table.define(to_chars("b"), to_chars("2"));
    table.define(to_chars("a"), to_chars("3"));
    assert_eq!(table.lookup(&to_chars("a")), Some(vec!['3']));
    assert_eq!(table.lookup(&to_chars("b")), Some(vec!['2']));
    assert_eq!(table.lookup(&to_chars("")), None);
}

#[test]
fn single_fmt_reports_repeated_specifiers() {
    let done = single_fmt(&to_chars("bib"), &to_chars("x")).unwrap();
    assert_eq!(to_string(&done.text), "<i><b>x</b></i>");
    assert_eq!(done.repeated, vec!['b']);
    let done = single_fmt(&to_chars("^_^\u{e9}_^"), &to_chars("x"));
    assert_eq!(done.unwrap_err(), '\u{e9}');
    let done = single_fmt(&to_chars("^_^_^"), &to_chars("x")).unwrap();
    assert_eq!(done.repeated, vec!['^', '_', '^']);
    assert_eq!(single_fmt(&to_chars("bz"), &to_chars("x")).unwrap_err(), 'z');
}

#[test]
fn text_helpers() {
    let v = to_chars("hello");
    assert_eq!(to_string(&slice(&v, 1, 3)), "el");
    assert_eq!(to_string(&slice(&v, 3, 1)), "");
    assert_eq!(to_string(&slice(&v, 2, 99)), "llo");
    assert_eq!(to_string(&slice(&v, 9, 99)), "");
    assert_eq!(to_string(&splice(&v, 1, 4, &to_chars("EY"))), "hEYo");
    assert_eq!(to_string(&splice(&v, 5, 5, &to_chars("!"))), "hello!");
    assert_eq!(to_string(&splice(&v, 3, 1, &to_chars("-"))), "hel-lo");
    assert!(has_prefix_at(&v, 2, "llo"));
    assert!(has_prefix_at(&v, 5, ""));
    assert!(!has_prefix_at(&v, 3, "llo"));
    assert!(!has_prefix_at(&v, 6, ""));
    assert!(same_text(&v, &to_chars("hello")));
    assert!(!same_text(&v, &to_chars("hellp")));
    assert!(!same_text(&v, &to_chars("hell")));
    assert_eq!(count_char(&v, 'l'), 2);
    assert_eq!(count_char(&v, 'z'), 0);
    let mut out = to_chars("a");
    append(&mut out, &to_chars("bc"));
    append_str(&mut out, "dé");
    assert_eq!(to_string(&out), "abcdé");
}

#[test]
fn decimal_numbers() {
    assert_eq!(to_string(&decimal(0)), "0");
    assert_eq!(to_string(&decimal(7)), "7");
    assert_eq!(to_string(&decimal(10)), "10");
    assert_eq!(to_string(&decimal(1234567890)), "1234567890");
    assert_eq!(to_string(&decimal(usize::MAX)), usize::MAX.to_string());
}

#[test]
fn every_fault_has_its_message() {
    let cases: Vec<(Fault, &str)> = vec![
        (Fault::InescapableEnd, "escaping inescapable character"),
        (Fault::CannotEscape('%'), "% cannot be escaped"),
        (
            Fault::ExpectedToken { expected: Token::BlockStart, found: Some(Token::Tag(Tag::List)) },
            "expected token block start but found list",
        ),
        (
            Fault::ExpectedToken { expected: Token::BlockStart, found: None },
            "expected token block start but found nothing",
        ),
        (
            Fault::UnexpectedToken { expected: vec![], found: Token::Other },
            "expected one of [], found other",
        ),
        (
            Fault::UnexpectedToken {
                expected: vec![Token::Tag(Tag::Row), Token::BlockEnd],
                found: Token::BlockStart,
            },
            "expected one of [table row, block end], found block start",
        ),
        (Fault::UndefinedMacro("m".to_string()), "macro not defined: m"),
        (Fault::CannotInclude("p".to_string()), "cannot include p"),
        (Fault::BadTablePath("p".to_string()), "bad external text table path: p"),
        (Fault::InvalidFormatSpecifier('q'), "invalid format specifier: q"),
        (Fault::InvalidCodepoint("zz".to_string()), "invalid unicode codepoint: zz"),
        (Fault::UndecodableCodepoint, "cannot decode unicode codepoint"),
        (Fault::InvalidRegex("(".to_string()), "invalid regex: ("),
        (
            Fault::UnbalancedBraces { left: 10, right: 9 },
            "unbalanced braces! 10 {'s and 9 }'s found",
        ),
        (Fault::ExpansionLimit, "expansion limit reached"),
        (Fault::NonRootNode, "tried to generate html from non-root node"),
    ];
    for (fault, text) in cases {
        assert_eq!(fault.message(), text);
        let e = Diagnostic { kind: ErrorKind::Directive, file: None, line: None, fault };
        assert_eq!(e.message(), text);
    }
}
