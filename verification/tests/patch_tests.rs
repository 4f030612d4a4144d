use css2tw_core::number::Decimal;
use css2tw_core::report::ConfidenceReport;
use css2tw_core::rewrite::diff::{format_unified_diff, generate_unified_diff, ChangeKind};
use css2tw_core::rewrite::patch::{apply_patches, patches_fit, Replacement};
use css2tw_core::source::class_usage::Span;

fn rep(start: usize, end: usize, after: &str) -> Replacement {
    Replacement {
        span: Span { start, end },
        before: String::new(),
        after: after.to_string(),
        confidence: ConfidenceReport { score: Decimal::from_int(1), reasons: vec![] },
        reasons: vec![],
        trace: vec![],
        raw_css: None,
        suggestion: None,
        failure_reason: None,
        diagnostics: vec![],
    }
}

#[test]
fn test_apply_no_edits_keeps_source() {
    assert_eq!(apply_patches("abc é", &[]), "abc é");
}

#[test]
fn test_apply_single_edit() {
    let src = r#"<div class="pt-16"></div>"#;
    assert_eq!(apply_patches(src, &[rep(12, 17, "pt-4")]), r#"<div class="pt-4"></div>"#);
}

#[test]
fn test_apply_sorts_by_start() {
    let src = "aaa bbb ccc";
    let out = apply_patches(src, &[rep(8, 11, "Z"), rep(0, 3, "X")]);
    assert_eq!(out, "X bbb Z");
}

#[test]
fn test_apply_skips_overlapping_edit() {
    let src = "abcdef";
    let out = apply_patches(src, &[rep(0, 4, "X"), rep(2, 5, "Y")]);
    assert_eq!(out, "Xef");
}

#[test]
fn test_patches_fit_checks_boundaries() {
    let src = "é";
    assert!(patches_fit(src, &[rep(0, 2, "e")]));
    assert!(!patches_fit(src, &[rep(1, 2, "e")]));
    assert_eq!(apply_patches(src, &[rep(0, 2, "e")]), "e");
}

#[test]
fn test_format_unified_diff_exact() {
    let changes = vec![
        (ChangeKind::Equal, "a\n".to_string()),
        (ChangeKind::Delete, "b\n".to_string()),
        (ChangeKind::Insert, "c\n".to_string()),
    ];
    assert_eq!(format_unified_diff(&changes, "f.html"), "--- f.html\n+++ f.html\n a\n-b\n+c\n");
}

#[test]
fn test_generate_unified_diff_lines() {
    let d = generate_unified_diff("a\nb\n", "a\nc\n", "x.html");
    assert!(d.starts_with("--- x.html\n+++ x.html\n"));
    assert!(d.contains(" a\n"));
    assert!(d.contains("-b\n"));
    assert!(d.contains("+c\n"));
    // An unchanged text gives only equal lines.
    assert_eq!(generate_unified_diff("q\n", "q\n", "y"), "--- y\n+++ y\n q\n");
}

#[test]
fn test_unified_diff_sides_rebuild_texts() {
    let d = css2tw_core::rewrite::diff::generate_unified_diff("a\nb", "a\nc\n", "f");
    let body: Vec<&str> = d.lines().skip(2).collect();
    let old: String = body.iter().filter(|l| !l.starts_with('+')).map(|l| format!("{}\n", &l[1..])).collect();
    let new: String = body.iter().filter(|l| !l.starts_with('-')).map(|l| format!("{}\n", &l[1..])).collect();
    assert_eq!(old, "a\nb\n");
    assert_eq!(new, "a\nc\n");
}

#[test]
fn test_apply_order_independent_for_distinct_starts() {
    let src = "aaa bbb ccc ddd";
    let a = apply_patches(src, &[rep(0, 3, "X"), rep(4, 7, "Y"), rep(8, 11, "Z")]);
    let b = apply_patches(src, &[rep(8, 11, "Z"), rep(0, 3, "X"), rep(4, 7, "Y")]);
    let c = apply_patches(src, &[rep(4, 7, "Y"), rep(8, 11, "Z"), rep(0, 3, "X")]);
    assert_eq!(a, "X Y Z ddd");
    assert_eq!(a, b);
    assert_eq!(a, c);
}

#[test]
fn test_unified_diff_lone_carriage_return_ends_a_line() {
    let d = generate_unified_diff("a\rb", "a\rc", "f");
    assert!(d.contains(" a\r"));
    assert!(d.contains("-b\n"));
    assert!(d.contains("+c\n"));
}
