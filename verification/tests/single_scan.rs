use vvsml::error::{ErrorKind, Fault};
use vvsml::files::SourceFile;
use vvsml::lang_util::{Directive, Token};
use vvsml::macros::MacroTable;
use vvsml::preproc::{
    define_macro, expand_macro, find_directive, link, preprocess, protect_seqs, resolve, run_stage,
    FormatWarning, Stage, Workspace,
};
use vvsml::text::{to_chars, to_string};

fn run(src: &str) -> String {
    preprocess("doc.vv", src, &Vec::new(), 1000).unwrap().text
}

fn fails(src: &str) -> vvsml::error::Diagnostic {
    preprocess("doc.vv", src, &Vec::new(), 1000).unwrap_err()
}

fn file(path: &str, contents: &str) -> SourceFile {
    SourceFile { path: path.to_string(), contents: contents.to_string() }
}

fn workspace(src: &str) -> Workspace {
    Workspace { text: to_chars(src), macros: MacroTable::new(), warnings: Vec::new() }
}

#[test]
fn text_without_directives_is_unchanged() {
    assert_eq!(run("contents{text{hello}}"), "contents{text{hello}}");
    assert_eq!(run(""), "");
}

#[test]
fn macro_defined_before_its_use() {
    assert_eq!(run(".define_macro{greet}{Hello}.macro{greet}"), "Hello");
    assert_eq!(run(".define_macro{greet}{Hello}\ntext{.macro{greet}, .macro{greet}!}"), "\ntext{Hello, Hello!}");
}

#[test]
fn macro_used_before_its_definition() {
    let e = fails(".macro{greet}.define_macro{greet}{Hello}");
    assert_eq!(e.fault, Fault::UndefinedMacro("greet".to_string()));
    assert_eq!(e.message(), "macro not defined: greet");
    assert_eq!(e.kind, ErrorKind::Directive);
    assert_eq!(e.file, Some("doc.vv".to_string()));
    assert_eq!(e.line, Some(1));
}

#[test]
fn undefined_macro_is_reported_at_its_closing_brace() {
    let e = fails("a\n.macro\n{x\n}");
    assert_eq!(e.fault, Fault::UndefinedMacro("x\n".to_string()));
    assert_eq!(e.line, Some(4));
}

#[test]
fn later_definition_overrides_the_earlier() {
    assert_eq!(run(".define_macro{a}{1}.define_macro{a}{2}.macro{a}"), "2");
    assert_eq!(run(".define_macro{a}{1}.macro{a}.define_macro{a}{2}.macro{a}"), "12");
}

#[test]
fn macro_body_may_hold_directives() {
    assert_eq!(run(".define_macro{a}{.macro{b}}.define_macro{b}{B}.macro{a}"), "B");
    assert_eq!(run(".define_macro{l}{.link{x}{y}}.macro{l}"), "<a href=\"y\">x</a>");
}

#[test]
fn names_and_bodies_are_raw_text() {
    assert_eq!(run(".define_macro{a b}{x {y} z}[.macro{a b}]"), "[x {y} z]");
    assert_eq!(run(".define_macro {a} {b} .macro {a}"), " b");
}

#[test]
fn self_reference_runs_into_the_limit() {
    let e = preprocess("doc.vv", ".define_macro{a}{.macro{a}}.macro{a}", &Vec::new(), 50).unwrap_err();
    assert_eq!(e.fault, Fault::ExpansionLimit);
    assert_eq!(e.line, None);
    assert_eq!(e.message(), "expansion limit reached");
}

#[test]
fn the_limit_counts_resolved_directives() {
    let src = ".define_macro{a}{x}.macro{a}.macro{a}";
    assert_eq!(preprocess("doc.vv", src, &Vec::new(), 3).unwrap().text, "xx");
    assert_eq!(preprocess("doc.vv", src, &Vec::new(), 2).unwrap_err().fault, Fault::ExpansionLimit);
    assert_eq!(preprocess("doc.vv", "plain", &Vec::new(), 0).unwrap().text, "plain");
}

#[test]
fn link_becomes_a_hyperlink() {
    assert_eq!(run("see .link{the site}{http://example}!"), "see <a href=\"http://example\">the site</a>!");
}

#[test]
fn format_wraps_in_tags() {
    assert_eq!(run(".format{b}{x}"), "<b>x</b>");
    assert_eq!(run(".format{i}{x}"), "<i>x</i>");
    assert_eq!(run(".format{_}{x}"), "<sub>x</sub>");
    assert_eq!(run(".format{^}{x}"), "<sup>x</sup>");
    assert_eq!(run(".format{s}{x}"), "<s>x</s>");
    assert_eq!(run(".format{bi}{x}"), "<i><b>x</b></i>");
    assert_eq!(run(".format{}{x}"), "x");
}

#[test]
fn repeated_specifier_wraps_once_and_warns() {
    let out = preprocess("doc.vv", "a\n.format{bb}\n{x}", &Vec::new(), 10).unwrap();
    assert_eq!(out.text, "a\n<b>x</b>");
    assert_eq!(out.warnings, vec![FormatWarning { line: 2, specifier: 'b' }]);
    assert_eq!(out.warnings[0].message(), "format specifier b is redundant");
    let out = preprocess("doc.vv", ".format{bibbi}{x}", &Vec::new(), 10).unwrap();
    assert_eq!(out.text, "<i><b>x</b></i>");
    assert_eq!(
        out.warnings,
        vec![
            FormatWarning { line: 1, specifier: 'b' },
            FormatWarning { line: 1, specifier: 'b' },
            FormatWarning { line: 1, specifier: 'i' },
        ]
    );
    assert!(preprocess("doc.vv", ".format{bi}{x}", &Vec::new(), 10).unwrap().warnings.is_empty());
}

#[test]
fn invalid_specifier_is_fatal() {
    let e = fails("\n.format{bq}{x}");
    assert_eq!(e.fault, Fault::InvalidFormatSpecifier('q'));
    assert_eq!(e.line, Some(2));
    assert_eq!(e.message(), "invalid format specifier: q");
}

#[test]
fn transcription_specifiers_translate() {
    assert_eq!(run(".format{x}{mnN}"), "mnŋ");
    assert_eq!(run(".format{p}{mn\\ng}"), "mnŋ");
    assert_eq!(run(".format{B}{mnng)}"), "mnŋ");
    assert_eq!(run(".format{xb}{mnN}"), "<b>mnŋ</b>");
}

#[test]
fn unicode_decodes_a_codepoint() {
    assert_eq!(run(".unicode{48}"), "H");
    assert_eq!(run(".unicode{e9}.unicode{E9}.unicode{+263A}.unicode{0000041}"), "éé☺A");
    assert_eq!(run(".unicode{10FFFF}"), "\u{10FFFF}");
}

#[test]
fn unicode_rejects_what_is_no_hexadecimal_number() {
    let e = fails(".unicode{ZZZ}");
    assert_eq!(e.fault, Fault::InvalidCodepoint("ZZZ".to_string()));
    assert_eq!(e.message(), "invalid unicode codepoint: ZZZ");
    assert_eq!(e.line, Some(1));
    assert_eq!(fails(".unicode{}").fault, Fault::InvalidCodepoint("".to_string()));
    assert_eq!(fails(".unicode{+}").fault, Fault::InvalidCodepoint("+".to_string()));
    assert_eq!(fails(".unicode{ 48}").fault, Fault::InvalidCodepoint(" 48".to_string()));
    assert_eq!(fails(".unicode{-48}").fault, Fault::InvalidCodepoint("-48".to_string()));
    assert_eq!(fails(".unicode{100000000}").fault, Fault::InvalidCodepoint("100000000".to_string()));
}

#[test]
fn unicode_rejects_what_is_no_scalar_value() {
    let e = fails(".unicode{D800}");
    assert_eq!(e.fault, Fault::UndecodableCodepoint);
    assert_eq!(e.message(), "cannot decode unicode codepoint");
    assert_eq!(fails(".unicode{110000}").fault, Fault::UndecodableCodepoint);
    assert_eq!(fails(".unicode{FFFFFFFF}").fault, Fault::UndecodableCodepoint);
}

#[test]
fn replace_all_rewrites_the_rest_of_the_text() {
    assert_eq!(run("foo .replace_all{o}{0}boo"), "f00 b00");
    assert_eq!(run(".replace_all{a+}{b}xaay"), "xby");
    assert_eq!(run(".replace_all{(\\w+)=(\\w+)}{$2=$1}k=v"), "v=k");
}

#[test]
fn replace_all_rejects_an_invalid_pattern() {
    let e = fails("\n.replace_all{(}{x}");
    assert_eq!(e.fault, Fault::InvalidRegex("(".to_string()));
    assert_eq!(e.message(), "invalid regex: (");
    assert_eq!(e.line, Some(2));
}

#[test]
fn external_table_is_converted() {
    let files = vec![file("t.vvtab", "a&b$c&d")];
    let out = preprocess("doc.vv", "contents{.external_table{t.vvtab}}", &files, 10).unwrap();
    assert_eq!(out.text, "contents{table{row{text{a}text{b}}row{text{c}text{d}}}}");
}

#[test]
fn external_table_needs_its_file() {
    let files = vec![file("other", "a")];
    let e = preprocess("doc.vv", ".external_table{t.vvtab}", &files, 10).unwrap_err();
    assert_eq!(e.fault, Fault::BadTablePath("t.vvtab".to_string()));
    assert_eq!(e.message(), "bad external text table path: t.vvtab");
}

#[test]
fn include_is_replaced_by_the_file() {
    let files = vec![file("a.txt", "first"), file("b.txt", ".include{a.txt}!"), file("a.txt", "second")];
    assert_eq!(preprocess("doc.vv", "[.include{b.txt}]", &files, 10).unwrap().text, "[first!]");
}

#[test]
fn include_needs_its_file() {
    let e = fails(".include{nowhere}");
    assert_eq!(e.fault, Fault::CannotInclude("nowhere".to_string()));
    assert_eq!(e.message(), "cannot include nowhere");
}

#[test]
fn a_directive_needs_its_blocks() {
    let e = fails(".macro x");
    assert_eq!(
        e.fault,
        Fault::ExpectedToken { expected: Token::BlockStart, found: Some(Token::Other) }
    );
    let e = fails(".link{a}");
    assert_eq!(e.fault, Fault::ExpectedToken { expected: Token::BlockStart, found: None });
    assert_eq!(e.kind, ErrorKind::Directive);
    let e = fails(".define_macro{a}.macro{a}");
    assert_eq!(
        e.fault,
        Fault::ExpectedToken {
            expected: Token::BlockStart,
            found: Some(Token::Directive(Directive::Macro))
        }
    );
    assert_eq!(e.message(), "expected token block start but found macro substitution");
}

#[test]
fn bracket_escapes_hide_directives() {
    assert_eq!(run("]]$.macro{a}"), "@#':[;:P_]macro{a}");
    assert_eq!(run("]]${ ]]$}"), "@#':[;:LB] @#':[;:RB]");
    assert_eq!(fails("]]$x").fault, Fault::CannotEscape('x'));
}

#[test]
fn protect_seqs_uses_the_bracket_marker() {
    assert_eq!(to_string(&protect_seqs(&to_chars(r"\{]]${")).unwrap()), r"\{@#':[;:LB]");
}

#[test]
fn directives_are_resolved_in_document_order() {
    assert_eq!(run(".define_macro{a}{x}.format{b}{.macro{a}}"), "<b>x</b>");
    let e = fails(".format{b}{.macro{a}}.define_macro{a}{x}");
    assert_eq!(e.fault, Fault::UndefinedMacro("a".to_string()));
    let e = fails(".macro{a}.format{q}{x}");
    assert_eq!(e.fault, Fault::UndefinedMacro("a".to_string()));
}

#[test]
fn find_directive_returns_the_first_of_the_stage() {
    let text = to_chars("x .link{a}{b} .macro{c}");
    assert_eq!(find_directive(&text, Stage::Everything), Some((Directive::Link, 2, 7)));
    assert_eq!(find_directive(&text, Stage::Macros), Some((Directive::Macro, 14, 20)));
    assert_eq!(find_directive(&text, Stage::Formats), None);
    assert_eq!(find_directive(&to_chars(""), Stage::Everything), None);
}

#[test]
fn run_stage_leaves_other_directives() {
    let out = run_stage(Stage::Links, workspace(".link{a}{b}.unicode{41}.link{c}{d}"), &Vec::new(), 10).unwrap();
    assert_eq!(to_string(&out.text), "<a href=\"b\">a</a>.unicode{41}<a href=\"d\">c</a>");
}

#[test]
fn single_directives_can_be_resolved_by_their_span() {
    let out = define_macro(workspace("ab.define_macro{n}{body}cd"), 2, 15).unwrap();
    assert_eq!(to_string(&out.text), "abcd");
    assert_eq!(out.macros.lookup(&to_chars("n")), Some(to_chars("body")));
    assert_eq!(out.macros.lookup(&to_chars("m")), None);
    let out = expand_macro(out, 0, 0);
    assert!(out.is_err());
    let out = resolve(workspace(".unicode{41}"), &Vec::new(), Directive::Unicode, 0, 8).unwrap();
    assert_eq!(to_string(&out.text), "A");
}

#[test]
fn an_open_block_runs_to_the_end_of_the_text() {
    let out = link(workspace("a .link{x}{y"), 2, 7).unwrap();
    assert_eq!(to_string(&out.text), "a <a href=\"y\">x</a>");
}

#[test]
fn unbalanced_braces_are_fatal() {
    let e = fails("a .link{x}{y");
    assert_eq!(e.fault, Fault::UnbalancedBraces { left: 2, right: 1 });
    assert_eq!(e.message(), "unbalanced braces! 2 {'s and 1 }'s found");
    let e = fails(".unicode{7B}");
    assert_eq!(e.fault, Fault::UnbalancedBraces { left: 1, right: 0 });
    assert_eq!(run("]]${"), "@#':[;:LB]");
}

#[test]
fn preprocessed_text_is_balanced_and_free_of_directives() {
    let src = ".define_macro{m}{text{.unicode{41}}}contents{.macro{m}.macro{m}}";
    let out = run(src);
    assert_eq!(out, "contents{text{A}text{A}}");
    assert_eq!(find_directive(&to_chars(&out), Stage::Everything), None);
    assert_eq!(out.matches('{').count(), out.matches('}').count());
}
