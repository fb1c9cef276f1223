use egui_rad_builder::date::picker_date;
use egui_rad_builder::fmt::{push_decimal, push_fixed, push_signed};
use egui_rad_builder::text::{join_lines, split_lines};
use egui_rad_builder::tree::{nodes_literal, parse_outline};

fn strings(v: &[&str]) -> Vec<String> {
    v.iter().map(|s| s.to_string()).collect()
}

#[test]
fn lines_split_like_str_lines() {
    assert_eq!(split_lines("a\nb\r\nc"), strings(&["a", "b", "c"]));
    assert_eq!(split_lines("a\n"), strings(&["a"]));
    assert_eq!(split_lines("a\n\nb"), strings(&["a", "", "b"]));
    assert!(split_lines("").is_empty());
    assert_eq!(split_lines("\n"), strings(&[""]));
}

#[test]
fn joined_lines_split_back() {
    let items = strings(&["one", "  two", "three"]);
    let text = join_lines(&items);
    assert_eq!(text, "one\n  two\nthree");
    assert_eq!(split_lines(&text), items);
    assert_eq!(join_lines(&Vec::new()), "");
}

#[test]
fn outline_nesting() {
    let lines = strings(&["Animals", "  Mammals", "    Dogs", "  Birds", "Plants"]);
    let nodes = parse_outline(&lines);
    let got: Vec<(usize, String)> = nodes.iter().map(|n| (n.depth, n.label.clone())).collect();
    assert_eq!(
        got,
        vec![
            (0, "Animals".to_string()),
            (1, "Mammals".to_string()),
            (2, "Dogs".to_string()),
            (1, "Birds".to_string()),
            (0, "Plants".to_string()),
        ]
    );
}

#[test]
fn outline_skips_blank_lines_and_stops_at_a_jump() {
    let lines = strings(&["A", "   ", "  B", "      C", "D"]);
    let nodes = parse_outline(&lines);
    let got: Vec<(usize, String)> = nodes.iter().map(|n| (n.depth, n.label.clone())).collect();
    assert_eq!(got, vec![(0, "A".to_string()), (1, "B".to_string())]);
    assert!(parse_outline(&strings(&["  indented first"])).is_empty());
}

#[test]
fn tree_literal() {
    let lines = strings(&["A", "  B", "C \"q\""]);
    assert_eq!(
        nodes_literal(&lines),
        "vec![GenTreeNode { label: \"A\".to_string(), children: vec![GenTreeNode { label: \"B\".to_string(), children: vec![] }] }, GenTreeNode { label: \"C \\\"q\\\"\".to_string(), children: vec![] }]"
    );
    assert_eq!(nodes_literal(&Vec::new()), "vec![]");
}

#[test]
fn number_formatting() {
    let mut s = String::new();
    push_decimal(&mut s, 0);
    s.push(' ');
    push_decimal(&mut s, 1_234_567);
    s.push(' ');
    push_signed(&mut s, -12);
    s.push(' ');
    push_fixed(&mut s, 12345, 1);
    s.push(' ');
    push_fixed(&mut s, -5, 1);
    s.push(' ');
    push_fixed(&mut s, 0, 3);
    s.push(' ');
    push_fixed(&mut s, 42000, 3);
    s.push(' ');
    push_fixed(&mut s, -1001, 3);
    assert_eq!(s, "0 1234567 -12 1234.5 -0.5 0.000 42.000 -1.001");
}

#[test]
fn date_picker_dates() {
    assert_eq!(picker_date(2024, 2, 29), (2024, 2, 28));
    assert_eq!(picker_date(2024, 0, 40), (2024, 1, 28));
    assert_eq!(picker_date(1999, 13, 0), (1999, 12, 1));
    assert_eq!(picker_date(300_000, 5, 5), (2025, 1, 1));
    assert_eq!(picker_date(-262_143, 6, 15), (-262_143, 6, 15));
    assert_eq!(picker_date(262_143, 6, 15), (2025, 1, 1));
}
