use egui_rad_builder::highlight::{line_spans, Highlighter, FALLBACK_RGB};

#[test]
fn test_highlighter_creation() {
    let highlighter = Highlighter::new();
    let _ = highlighter.highlight_rust("fn main() {}");
}

#[test]
fn test_highlight_rust_basic() {
    let highlighter = Highlighter::new();
    let spans = highlighter
        .highlight_rust("fn main() {\n    println!(\"Hello\");\n}\n")
        .expect("built-in syntaxes and themes");
    assert!(!spans.is_empty());
}

#[test]
fn highlighted_spans_make_up_the_code() {
    let highlighter = Highlighter::new();
    let code = "// comment\nlet x = 42;\n\nstruct S { a: u8 }";
    let spans = highlighter.highlight_rust(code).unwrap();
    let text: String = spans.iter().map(|s| s.0.as_str()).collect();
    assert_eq!(text, code);
    // Keywords and comments are coloured differently.
    let colour_of = |t: &str| spans.iter().find(|s| s.0.contains(t)).map(|s| s.1);
    assert_ne!(colour_of("comment"), colour_of("struct"));
    assert!(highlighter.highlight_rust("").unwrap().is_empty());
}

#[test]
fn unhighlighted_line_uses_the_fallback() {
    assert_eq!(line_spans("abc\n", None), vec![("abc\n".to_string(), FALLBACK_RGB)]);
    let given = vec![("a".to_string(), [1, 2, 3]), ("b".to_string(), [4, 5, 6])];
    assert_eq!(line_spans("ab", Some(given.clone())), given);
    assert_eq!(FALLBACK_RGB, [220, 220, 220]);
}
