use vvsml::error::{ErrorKind, Fault};
use vvsml::escape::EscapeScheme;
use vvsml::postprocess::{deprotect_escape, postprocess};
use vvsml::preprocess::protect_escape;
use vvsml::text::{to_chars, to_string};

fn protect(scheme: EscapeScheme, src: &str) -> String {
    to_string(&scheme.protect(&to_chars(src)).unwrap())
}

fn deprotect(scheme: EscapeScheme, src: &str) -> String {
    to_string(&scheme.deprotect(&to_chars(src)))
}

#[test]
fn backslash_escapes_become_codes() {
    assert_eq!(
        protect(EscapeScheme::Backslash, r"a\{b\}c\\d\.e"),
        "a@#':[;:LB]b@#':[;:RB]c@#':[;:BS]d@#':[;:P_]e"
    );
}

#[test]
fn bracket_escapes_become_codes() {
    assert_eq!(
        protect(EscapeScheme::Bracket, "]]${]]$}]]$]]]$.]]$@"),
        "@#':[;:LB]@#':[;:RB]@#':[;:EC]@#':[;:P_]@#':[;:A_]"
    );
}

#[test]
fn tabular_escapes_become_codes() {
    assert_eq!(protect(EscapeScheme::Tabular, r"a\&b\$c"), "a@#':[;:AS]b@#':[;:DS]c");
}

#[test]
fn tabular_backslash_before_other_characters_is_literal() {
    assert_eq!(protect(EscapeScheme::Tabular, r"a\b\"), r"a\b\");
    assert_eq!(protect(EscapeScheme::Tabular, r"\\&"), r"\@#':[;:AS]");
}

#[test]
fn double_backslash_does_not_escape_what_follows() {
    assert_eq!(protect(EscapeScheme::Backslash, r"\\{"), "@#':[;:BS]{");
}

#[test]
fn text_without_escapes_is_unchanged() {
    assert_eq!(protect(EscapeScheme::Backslash, "plain {text}"), "plain {text}");
    assert_eq!(protect(EscapeScheme::Bracket, r"a\b ]] $ ]$"), r"a\b ]] $ ]$");
    assert_eq!(protect(EscapeScheme::Backslash, ""), "");
}

#[test]
fn escape_at_the_end_is_inescapable() {
    let e = EscapeScheme::Backslash.protect(&to_chars("ab\ncd\\")).unwrap_err();
    assert_eq!(e.fault, Fault::InescapableEnd);
    assert_eq!(e.kind, ErrorKind::Directive);
    assert_eq!(e.line, Some(2));
    assert_eq!(e.message(), "escaping inescapable character");
    let e = EscapeScheme::Bracket.protect(&to_chars("]]$")).unwrap_err();
    assert_eq!(e.fault, Fault::InescapableEnd);
    assert_eq!(e.line, Some(1));
}

#[test]
fn unsupported_character_cannot_be_escaped() {
    let e = EscapeScheme::Backslash.protect(&to_chars("a\n\n\\q")).unwrap_err();
    assert_eq!(e.fault, Fault::CannotEscape('q'));
    assert_eq!(e.line, Some(3));
    assert_eq!(e.message(), "q cannot be escaped");
    let e = EscapeScheme::Bracket.protect(&to_chars("]]$\\")).unwrap_err();
    assert_eq!(e.fault, Fault::CannotEscape('\\'));
    let e = EscapeScheme::Backslash.protect(&to_chars("\\@")).unwrap_err();
    assert_eq!(e.fault, Fault::CannotEscape('@'));
}

#[test]
fn the_last_bad_escape_is_reported() {
    let e = EscapeScheme::Backslash.protect(&to_chars("\\q\n\\{\n\\z\n\\}")).unwrap_err();
    assert_eq!(e.fault, Fault::CannotEscape('z'));
    assert_eq!(e.line, Some(3));
    let e = EscapeScheme::Backslash.protect(&to_chars("\\q \\")).unwrap_err();
    assert_eq!(e.fault, Fault::InescapableEnd);
}

#[test]
fn codes_become_characters_again() {
    assert_eq!(
        deprotect(EscapeScheme::Backslash, "a@#':[;:LB]b@#':[;:RB]c@#':[;:BS]d@#':[;:P_]e"),
        r"a{b}c\d.e"
    );
    assert_eq!(
        deprotect(
            EscapeScheme::Bracket,
            "@#':[;:LB]@#':[;:RB]@#':[;:EC]@#':[;:P_]@#':[;:A_]"
        ),
        "{}].@"
    );
    assert_eq!(deprotect(EscapeScheme::Tabular, "@#':[;:AS]@#':[;:DS]"), "&$");
}

#[test]
fn unknown_codes_are_deleted() {
    assert_eq!(deprotect(EscapeScheme::Bracket, "x@#':[;:ZZ]y"), "xy");
    assert_eq!(deprotect(EscapeScheme::Bracket, "x@#':[;:BS]y"), "xy");
    assert_eq!(deprotect(EscapeScheme::Bracket, "x@#':[;:A1]y"), "xy");
    assert_eq!(deprotect(EscapeScheme::Backslash, "x@#':[;:EC]y"), "xy");
    assert_eq!(deprotect(EscapeScheme::Tabular, "x@#':[;:LB]y"), "xy");
}

#[test]
fn what_only_looks_like_a_code_stays() {
    assert_eq!(deprotect(EscapeScheme::Bracket, "x@#':[;:lb]y"), "x@#':[;:lb]y");
    assert_eq!(deprotect(EscapeScheme::Bracket, "@#':[;:LB"), "@#':[;:LB");
    assert_eq!(deprotect(EscapeScheme::Backslash, "x@#':[;:A1]y"), "x@#':[;:A1]y");
    assert_eq!(deprotect(EscapeScheme::Bracket, "@#':[;:1B]"), "@#':[;:1B]");
}

#[test]
fn round_trip_removes_the_markers_only() {
    let src = r"Hi \{there\}, a\.b \\ end";
    let protected = protect(EscapeScheme::Backslash, src);
    assert_eq!(deprotect(EscapeScheme::Backslash, &protected), r"Hi {there}, a.b \ end");
    let src = "x]]${y]]$}]]$@]]$]]]$.";
    let protected = protect(EscapeScheme::Bracket, src);
    assert_eq!(deprotect(EscapeScheme::Bracket, &protected), "x{y}@].");
}

#[test]
fn round_trip_of_plain_text_is_the_identity() {
    for src in ["", "plain", "a {b} c", "@#':[;:lb] almost", "line\nbreak"] {
        let protected = protect(EscapeScheme::Backslash, src);
        assert_eq!(protected, src);
        assert_eq!(deprotect(EscapeScheme::Backslash, &protected), src);
        let protected = protect(EscapeScheme::Bracket, src);
        assert_eq!(deprotect(EscapeScheme::Bracket, &protected), src);
    }
}

#[test]
fn code_next_to_literal_text_is_still_one_code() {
    let protected = protect(EscapeScheme::Backslash, r"@#':[;:\{LB]");
    assert_eq!(protected, "@#':[;:@#':[;:LB]LB]");
    assert_eq!(deprotect(EscapeScheme::Backslash, &protected), "@#':[;:{LB]");
}

#[test]
fn protect_escape_works_on_strings() {
    assert_eq!(protect_escape(r"a\{b").unwrap(), "a@#':[;:LB]b");
    assert_eq!(protect_escape("a\\").unwrap_err().fault, Fault::InescapableEnd);
}

#[test]
fn postprocess_deprotects_the_backslash_codes() {
    assert_eq!(deprotect_escape("<p>@#':[;:LB]x@#':[;:RB]@#':[;:BS]@#':[;:P_]</p>"), r"<p>{x}\.</p>");
    assert_eq!(postprocess("<p>@#':[;:LB]x@#':[;:RB]</p>"), "<p>{x}</p>");
    assert_eq!(postprocess("a@#':[;:QQ]b"), "ab");
}

#[test]
fn strings_and_character_vectors_convert_both_ways() {
    let v = to_chars("héllo ʃ");
    assert_eq!(v, vec!['h', 'é', 'l', 'l', 'o', ' ', 'ʃ']);
    assert_eq!(to_string(&v), "héllo ʃ");
    assert_eq!(to_string(&Vec::new()), "");
}
