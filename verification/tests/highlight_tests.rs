use deck::highlight::Highlighter;
use deck::theme::Color;

#[test]
fn highlight_rust_produces_colored_spans() {
    let mut h = Highlighter::new();
    let lines = h.highlight("fn main() {}", "rs");
    assert_eq!(lines.len(), 1);
    assert!(lines[0].len() > 1, "expected multiple spans, got {}", lines[0].len());
}

#[test]
fn highlight_unknown_lang_falls_back_to_plain() {
    let mut h = Highlighter::new();
    let lines = h.highlight("hello world", "nonexistent_language_xyz");
    assert_eq!(lines.len(), 1);
    assert!(!lines[0].is_empty());
}

#[test]
fn highlight_multiline() {
    let mut h = Highlighter::new();
    let lines = h.highlight("line1\nline2\nline3", "txt");
    assert_eq!(lines.len(), 3);
}

#[test]
fn highlight_empty_code() {
    let mut h = Highlighter::new();
    let lines = h.highlight("", "rs");
    assert_eq!(lines.len(), 0);
}

#[test]
fn bg_color_returns_some() {
    let h = Highlighter::new();
    assert!(h.bg_color().is_some());
}

#[test]
fn highlight_rust_keywords_have_color() {
    let mut h = Highlighter::new();
    let lines = h.highlight("fn main() {}", "rs");
    let first_span = &lines[0][0];
    assert!(matches!(first_span.style.fg, Some(Color::Rgb(_, _, _))), "expected RGB color on keyword");
}

#[test]
fn highlight_comment_produces_styled_span() {
    let mut h = Highlighter::new();
    let lines = h.highlight("// a comment", "rs");
    assert!(!lines[0].is_empty());
    assert!(lines[0][0].style.fg.is_some());
}

#[test]
fn highlight_caches_results() {
    let mut h = Highlighter::new();
    let lines1 = h.highlight("fn foo() {}", "rs").to_vec();
    let lines2 = h.highlight("fn foo() {}", "rs").to_vec();
    assert_eq!(lines1, lines2);
    assert_eq!(h.cache_len(), 1);
}

#[test]
fn highlight_distinct_code_distinct_cache_entries() {
    let mut h = Highlighter::new();
    let _ = h.highlight("fn a() {}", "rs");
    let _ = h.highlight("fn b() {}", "rs");
    assert_eq!(h.cache_len(), 2);
}

#[test]
fn highlight_runs_spell_each_line() {
    let mut h = Highlighter::new();
    let lines = h.highlight("let x = 1;\n// done", "rs");
    let text: Vec<String> =
        lines.iter().map(|l| l.iter().map(|s| s.text.as_str()).collect::<String>()).collect();
    assert_eq!(text, vec!["let x = 1;".to_string(), "// done".to_string()]);
}

#[test]
fn highlight_depends_on_the_language() {
    let mut h = Highlighter::new();
    let rust = h.highlight("fn main() {}", "rs").to_vec();
    let plain = h.highlight("fn main() {}", "txt").to_vec();
    assert_ne!(rust, plain);
    assert_eq!(plain[0].len(), 1);
}
