//! Pattern search through the compiled-pattern wrappers.

use pi::search::{escape_pattern, CompiledGlob, CompiledPattern, grep_file};

#[test]
fn grep_file_reports_matching_lines_in_order() {
    let p = CompiledPattern::compile("b+", false).expect("compile");
    let matches = grep_file(&p, "abc\nxyz\nbbb\n", 10, 500);
    let got: Vec<(usize, String)> = matches
        .iter()
        .map(|m| (m.line_number, m.text.clone()))
        .collect();
    assert_eq!(got, vec![(1, "abc".to_string()), (3, "bbb".to_string())]);
}

#[test]
fn grep_file_honors_limit_and_caps_lines() {
    let p = CompiledPattern::compile("a", false).expect("compile");
    let long = "a".repeat(40);
    let content = format!("{long}\na\na\n");
    let matches = grep_file(&p, &content, 2, 10);
    assert_eq!(matches.len(), 2);
    assert!(matches[0].was_truncated);
    assert!(matches[0].text.ends_with("... [truncated]"));
    assert_eq!(matches[1].line_number, 2);
}

#[test]
fn case_insensitive_compilation_folds_case() {
    let p = CompiledPattern::compile("hello", true).expect("compile");
    assert!(p.is_match("say HELLO there"));
    let exact = CompiledPattern::compile("hello", false).expect("compile");
    assert!(!exact.is_match("say HELLO there"));
}

#[test]
fn escape_pattern_makes_text_literal() {
    let escaped = escape_pattern("a.b");
    let p = CompiledPattern::compile(&escaped, false).expect("compile");
    assert!(p.is_match("say a.b here"));
    assert!(!p.is_match("say axb here"));
}

#[test]
fn bad_pattern_reports_compile_error() {
    assert!(CompiledPattern::compile("(unclosed", false).is_err());
}

#[test]
fn glob_pattern_matches_file_names() {
    let g = CompiledGlob::compile("*.rs").expect("compile");
    assert!(g.matches("main.rs"));
    assert!(!g.matches("main.ts"));
    assert!(CompiledGlob::compile("a[").is_err());
}
