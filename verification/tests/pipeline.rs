use vvsml::code_gen::generate_html;
use vvsml::error::{ErrorKind, Fault};
use vvsml::files::SourceFile;
use vvsml::macros::MacroTable;
use vvsml::parse::parse;
use vvsml::preproc::{FormatWarning, Stage, Workspace};
use vvsml::escape::EscapeScheme;
use vvsml::pipeline::{check, check_balance, checked_stage, run_pass};
use vvsml::preprocess::{
    fulfill_formats, fulfill_includes, fulfill_links, fulfill_macros, pipeline, preprocess,
    single_format, verify_brace_balance, work_left_to_do,
};
use vvsml::text::{to_chars, to_string};

fn run(src: &str) -> String {
    preprocess("doc.vv", src, &Vec::new(), 1000).unwrap().text
}

fn fails(src: &str) -> vvsml::error::Diagnostic {
    preprocess("doc.vv", src, &Vec::new(), 1000).unwrap_err()
}

fn workspace(src: &str) -> Workspace {
    Workspace { text: to_chars(src), macros: MacroTable::new(), warnings: Vec::new() }
}

fn balanced(s: &str) -> bool {
    s.chars().filter(|c| *c == '{').count() == s.chars().filter(|c| *c == '}').count()
}

#[test]
fn end_to_end_round_trip() {
    let text = run(r"main{chapter{Intro}text{Hi \{there\}}}");
    assert_eq!(text, "main{chapter{Intro}text{Hi @#':[;:LB]there@#':[;:RB]}}");
    let tree = parse("doc.vv", &text).unwrap();
    assert_eq!(
        generate_html("doc.vv", &tree).unwrap(),
        "<html><body><h1>Intro</h1><p>Hi {there}</p></body></html>"
    );
}

#[test]
fn end_to_end_with_directives() {
    let src = ".define_macro{who}{.format{b}{world}}\ncontents{\n  chapter{Hello}\n  text{Hello, .macro{who}\\. See .link{this}{http://x}.}\n}";
    let out = preprocess("doc.vv", src, &Vec::new(), 100).unwrap();
    assert!(balanced(&out.text));
    assert!(!work_left_to_do(&out.text));
    let tree = parse("doc.vv", &out.text).unwrap();
    assert_eq!(
        generate_html("doc.vv", &tree).unwrap(),
        "<html><body><h1>Hello</h1><p>Hello, <b>world</b>. See <a href=\"http://x\">this</a>.</p></body></html>"
    );
}

#[test]
fn missing_closing_brace_reports_both_counts() {
    let e = fails("contents{text{a}");
    assert_eq!(e.fault, Fault::UnbalancedBraces { left: 2, right: 1 });
    assert_eq!(e.kind, ErrorKind::Directive);
    assert_eq!(e.file, Some("doc.vv".to_string()));
    assert_eq!(e.line, None);
    assert_eq!(e.message(), "unbalanced braces! 2 {'s and 1 }'s found");
}

#[test]
fn escaped_braces_do_not_count() {
    assert_eq!(run(r"text{\{}"), "text{@#':[;:LB]}");
    let e = fails(r"text{\}");
    assert_eq!(e.fault, Fault::UnbalancedBraces { left: 1, right: 0 });
}

#[test]
fn substituted_text_is_counted_too() {
    let files = vec![SourceFile { path: "f".to_string(), contents: "text{x".to_string() }];
    let e = preprocess("doc.vv", ".include{f}", &files, 10).unwrap_err();
    assert_eq!(e.fault, Fault::UnbalancedBraces { left: 1, right: 0 });
    let e = fails(".unicode{7B}");
    assert_eq!(e.fault, Fault::UnbalancedBraces { left: 1, right: 0 });
}

#[test]
fn substituted_text_is_protected_after_its_stage() {
    let files = vec![SourceFile { path: "f".to_string(), contents: r"a\{b".to_string() }];
    assert_eq!(preprocess("doc.vv", ".include{f}", &files, 10).unwrap().text, "a@#':[;:LB]b");
    let files = vec![SourceFile { path: "f".to_string(), contents: r"a\qb".to_string() }];
    assert_eq!(preprocess("doc.vv", ".include{f}", &files, 10).unwrap_err().fault, Fault::CannotEscape('q'));
}

#[test]
fn verify_brace_balance_counts_braces() {
    assert_eq!(verify_brace_balance("{a{b}}"), Ok(()));
    assert_eq!(verify_brace_balance(""), Ok(()));
    assert_eq!(verify_brace_balance("}{"), Ok(()));
    let e = verify_brace_balance("{{{}").unwrap_err();
    assert_eq!(e.fault, Fault::UnbalancedBraces { left: 3, right: 1 });
    assert_eq!(e.message(), "unbalanced braces! 3 {'s and 1 }'s found");
    let e = verify_brace_balance("}}}}}}}}}}}}").unwrap_err();
    assert_eq!(e.message(), "unbalanced braces! 0 {'s and 12 }'s found");
}

#[test]
fn macros_are_order_sensitive() {
    assert_eq!(run(".define_macro{greet}{Hello}text{.macro{greet}}"), "text{Hello}");
    let e = fails("text{.macro{greet}}.define_macro{greet}{Hello}");
    assert_eq!(e.fault, Fault::UndefinedMacro("greet".to_string()));
    assert_eq!(e.message(), "macro not defined: greet");
}

#[test]
fn macros_defined_in_one_pass_are_known_in_the_next() {
    let files = vec![SourceFile { path: "f".to_string(), contents: ".macro{a}".to_string() }];
    assert_eq!(preprocess("doc.vv", ".define_macro{a}{x}.include{f}", &files, 10).unwrap().text, "x");
}

#[test]
fn stages_run_in_their_order() {
    assert_eq!(run(".define_macro{u}{v}.link{a}{.macro{u}}"), "<a href=\"v\">a</a>");
    assert_eq!(run(".format{b}{.unicode{41}}"), "<b>A</b>");
    let e = fails(".link{a}{.macro{u}}.define_macro{u}{v}");
    assert_eq!(e.fault, Fault::UndefinedMacro("u".to_string()));
}

#[test]
fn what_a_stage_writes_is_resolved_in_a_later_pass() {
    assert_eq!(run(".unicode{2E}link{a}{b}"), "<a href=\"b\">a</a>");
    let e = fails(".unicode{2E}macro");
    assert_eq!(
        e.fault,
        Fault::ExpectedToken { expected: vvsml::lang_util::Token::BlockStart, found: None }
    );
    assert_eq!(preprocess("doc.vv", ".unicode{2E}link{a}{b}", &Vec::new(), 1).unwrap_err().fault, Fault::ExpansionLimit);
    assert_eq!(preprocess("doc.vv", ".unicode{2E}link{a}{b}", &Vec::new(), 2).unwrap().text, "<a href=\"b\">a</a>");
}

#[test]
fn format_is_applied_once_per_specifier() {
    let out = preprocess("doc.vv", ".format{bb}{x}", &Vec::new(), 10).unwrap();
    assert_eq!(out.text, "<b>x</b>");
    assert_eq!(out.warnings, vec![FormatWarning { line: 1, specifier: 'b' }]);
    let once = single_format("bb", "x").unwrap();
    assert_eq!(once.text, "<b>x</b>");
    assert_eq!(once.repeated, vec!['b']);
    assert_eq!(single_format("b", "x").unwrap().text, single_format("bbb", "x").unwrap().text);
    assert_eq!(single_format("bbb", "x").unwrap().repeated, vec!['b', 'b']);
    assert_eq!(single_format("ib", "x").unwrap().text, single_format("ibi", "x").unwrap().text);
    assert_eq!(single_format("ibi", "x").unwrap().repeated, vec!['i']);
    assert!(single_format("ib", "x").unwrap().repeated.is_empty());
}

#[test]
fn single_format_applies_left_to_right() {
    assert_eq!(single_format("b_", "x").unwrap().text, "<sub><b>x</b></sub>");
    assert_eq!(single_format("", "x").unwrap().text, "x");
    assert_eq!(single_format("x", "mnN").unwrap().text, "mnŋ");
    assert_eq!(single_format("x", "eks s{mp@").unwrap().text, "eks sæmpə");
    assert_eq!(single_format("p", r"p\rta\:ft\^h").unwrap().text, "pɹaːtʰ");
    assert_eq!(single_format("B", "br&ae):nE&r^").unwrap().text, "bɹæːnɜ˞");
    assert_eq!(single_format("bx", "S").unwrap().text, single_format("x", "<b>S</b>").unwrap().text);
    let e = single_format("b?i", "x").unwrap_err();
    assert_eq!(e.fault, Fault::InvalidFormatSpecifier('?'));
    assert_eq!(single_format("?!", "x").unwrap_err().fault, Fault::InvalidFormatSpecifier('?'));
}

#[test]
fn unicode_in_the_pipeline() {
    assert_eq!(run("text{.unicode{48}}"), "text{H}");
    let e = fails("text{.unicode{ZZZ}}");
    assert_eq!(e.fault, Fault::InvalidCodepoint("ZZZ".to_string()));
    assert_eq!(e.message(), "invalid unicode codepoint: ZZZ");
}

#[test]
fn replace_all_and_external_table_in_the_pipeline() {
    assert_eq!(run("text{colour}.replace_all{ou}{o}"), "text{color}");
    let files = vec![SourceFile { path: "t".to_string(), contents: "a&b".to_string() }];
    assert_eq!(
        preprocess("doc.vv", "contents{.external_table{t}}", &files, 10).unwrap().text,
        "contents{table{row{text{a}text{b}}}}"
    );
    let e = preprocess("doc.vv", ".external_table{u}", &files, 10).unwrap_err();
    assert_eq!(e.fault, Fault::BadTablePath("u".to_string()));
}

#[test]
fn self_reference_ends_at_the_limit() {
    let e = preprocess("doc.vv", ".define_macro{a}{.macro{a}}.macro{a}", &Vec::new(), 20).unwrap_err();
    assert_eq!(e.fault, Fault::ExpansionLimit);
    let e = preprocess("doc.vv", ".unicode{2E}unicode{2E}", &Vec::new(), 0).unwrap_err();
    assert_eq!(e.fault, Fault::ExpansionLimit);
}

#[test]
fn work_left_to_do_sees_every_directive() {
    assert!(!work_left_to_do("contents{text{a.b}}"));
    assert!(!work_left_to_do(""));
    for src in [
        "a .define_macro", ".macro", ".include{x}", ".link", ".format", ".unicode",
        ".replace_all", "x.external_table",
    ] {
        assert!(work_left_to_do(src));
    }
}

#[test]
fn stage_functions_resolve_their_family_only() {
    let src = ".define_macro{a}{x}.macro{a}.link{l}{u}.format{b}{t}.include{f}";
    let out = fulfill_macros(workspace(src), 10).unwrap();
    assert_eq!(to_string(&out.text), "x.link{l}{u}.format{b}{t}.include{f}");
    let out = fulfill_links(out, 10).unwrap();
    assert_eq!(to_string(&out.text), "x<a href=\"u\">l</a>.format{b}{t}.include{f}");
    let out = fulfill_formats(out, 10).unwrap();
    assert_eq!(to_string(&out.text), "x<a href=\"u\">l</a><b>t</b>.include{f}");
    let files = vec![SourceFile { path: "f".to_string(), contents: "!".to_string() }];
    let out = fulfill_includes(out, &files, 10).unwrap();
    assert_eq!(to_string(&out.text), "x<a href=\"u\">l</a><b>t</b>!");
    let e = fulfill_includes(workspace(".include{g}"), &files, 10).unwrap_err();
    assert_eq!(e.fault, Fault::CannotInclude("g".to_string()));
}

#[test]
fn every_stage_leaves_balanced_text() {
    let files = vec![SourceFile { path: "f".to_string(), contents: "list{text{a}}".to_string() }];
    let mut ws = workspace(".define_macro{m}{text{x}}contents{.macro{m}.include{f}.link{a}{b}}");
    for stage in pipeline() {
        ws = checked_stage(EscapeScheme::Backslash, stage, ws, &files, 10).unwrap();
        assert!(balanced(&to_string(&ws.text)));
    }
    assert_eq!(to_string(&ws.text), "contents{text{x}list{text{a}}<a href=\"b\">a</a>}");
    let e = checked_stage(EscapeScheme::Backslash, Stage::Unicodes, workspace(".unicode{7D}"), &files, 10)
        .unwrap_err();
    assert_eq!(e.fault, Fault::UnbalancedBraces { left: 0, right: 1 });
}

#[test]
fn one_pass_runs_all_stages() {
    assert_eq!(
        pipeline(),
        vec![
            Stage::Macros,
            Stage::Includes,
            Stage::Links,
            Stage::Formats,
            Stage::Unicodes,
            Stage::Replacements,
            Stage::Tables,
        ]
    );
    let out = run_pass(
        EscapeScheme::Backslash,
        &pipeline(),
        workspace(".unicode{41}.format{i}{x}.link{a}{b}"),
        &Vec::new(),
        10,
    )
    .unwrap();
    assert_eq!(to_string(&out.text), "A<i>x</i><a href=\"b\">a</a>");
}

#[test]
fn check_protects_and_counts() {
    let out = check(EscapeScheme::Backslash, workspace(r"a\\{b}")).unwrap();
    assert_eq!(to_string(&out.text), "a@#':[;:BS]{b}");
    let e = check(EscapeScheme::Backslash, workspace(r"\{b}")).unwrap_err();
    assert_eq!(e.fault, Fault::UnbalancedBraces { left: 0, right: 1 });
    let e = check(EscapeScheme::Backslash, workspace("{\\")).unwrap_err();
    assert_eq!(e.fault, Fault::InescapableEnd);
    assert_eq!(check_balance(&to_chars("{}")), Ok(()));
    assert!(check_balance(&to_chars("{")).is_err());
}

#[test]
fn run_takes_the_scheme_and_the_stages() {
    let out = vvsml::pipeline::run(
        EscapeScheme::Bracket,
        &vec![Stage::Links],
        ".link{a}{b}]]${]]$}",
        &Vec::new(),
        5,
    )
    .unwrap();
    assert_eq!(out.text, "<a href=\"b\">a</a>@#':[;:LB]@#':[;:RB]");
    let e = vvsml::pipeline::run(EscapeScheme::Bracket, &vec![Stage::Links], ".unicode{41}", &Vec::new(), 5)
        .unwrap_err();
    assert_eq!(e.fault, Fault::ExpansionLimit);
    let e = vvsml::pipeline::run(EscapeScheme::Backslash, &Vec::new(), ".unicode{41}", &Vec::new(), 5)
        .unwrap_err();
    assert_eq!(e.fault, Fault::ExpansionLimit);
}

#[test]
fn white_space_is_collapsed_at_the_end() {
    assert_eq!(run("contents{\n  text{a \t b}\n\n}\n"), "contents{ text{a b} } ");
    assert_eq!(run(".define_macro{m}{x\n\ny}[.macro{m}]"), "[x y]");
    assert_eq!(run("  "), " ");
}

#[test]
fn errors_inside_the_library_name_no_file() {
    let e = fulfill_macros(workspace(".macro{a}"), 10).unwrap_err();
    assert_eq!(e.file, None);
    let e = verify_brace_balance("{").unwrap_err();
    assert_eq!(e.file, None);
    let e = e.in_file("somewhere");
    assert_eq!(e.file, Some("somewhere".to_string()));
    assert_eq!(e.fault, Fault::UnbalancedBraces { left: 1, right: 0 });
}
