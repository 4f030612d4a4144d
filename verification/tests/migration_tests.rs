use css2tw_core::config::AgentConfig;
use css2tw_core::css::parser::{build_rule_map, extract_style_rules, extract_variables, parse_css};
use css2tw_core::mcp::{route, tool_path, McpAction};
use css2tw_core::migration::{keep_summary_only, needs_patched, reported_file, writes_file};
use css2tw_core::migration::{
    benchmark_rule_map, count_convertible, new_report, parse_custom_theme, record_replacements, tally_replacements,
    RunMode,
};
use css2tw_core::number::Decimal;
use css2tw_core::report::{ConfidenceReport, Diagnostic, FailureReason, Severity, Summary};
use css2tw_core::rewrite::diff::generate_diff;
use css2tw_core::rewrite::patch::Replacement;
use css2tw_core::source::class_usage::Span;

fn rep(after: &str, failure: Option<FailureReason>, score: Decimal, diags: usize) -> Replacement {
    Replacement {
        span: Span { start: 1, end: 4 },
        before: "btn".to_string(),
        after: after.to_string(),
        confidence: ConfidenceReport { score, reasons: vec![] },
        reasons: vec!["r".to_string()],
        trace: vec!["a".to_string(), "b".to_string()],
        raw_css: Some("color: red".to_string()),
        suggestion: None,
        failure_reason: failure,
        diagnostics: (0..diags)
            .map(|_| Diagnostic {
                severity: Severity::Warning,
                recoverable: false,
                manual_action_required: true,
                reason: "DynamicClass".to_string(),
                message: "m".to_string(),
            })
            .collect(),
    }
}

#[test]
fn test_run_mode_names() {
    assert_eq!(RunMode::ReadOnly.name(), "read_only");
    assert_eq!(RunMode::ReadOnly.command(), "scan");
    assert_eq!(RunMode::for_convert(true, false), RunMode::Write);
    assert_eq!(RunMode::for_convert(true, true), RunMode::DryRun);
    assert_eq!(RunMode::Write.file_status(false), "modified");
    assert_eq!(RunMode::DryRun.file_status(false), "planned");
    assert_eq!(RunMode::Write.file_status(true), "streamed");
    let r = new_report("1.2.3".to_string(), RunMode::DryRun);
    assert_eq!(r.command, "convert");
    assert_eq!(r.mode, "dry_run");
    assert_eq!(r.summary, Summary::zero());
}

#[test]
fn test_parse_custom_theme_pairs() {
    let pairs = vec!["primary=#ff0000".to_string(), "broken".to_string(), "a=b=c".to_string()];
    let t = parse_custom_theme(&pairs);
    assert_eq!(t, vec![("primary".to_string(), "#ff0000".to_string()), ("a".to_string(), "b=c".to_string())]);
}

#[test]
fn test_record_replacements_splits_and_counts() {
    let mut summary = Summary::zero();
    let mut unconverted = Vec::new();
    let reps = vec![
        rep("pt-4", None, Decimal::from_int(1), 0),
        rep("", Some(FailureReason::DynamicClass), Decimal::from_int(0), 1),
        rep("", None, Decimal::from_int(1), 0),
    ];
    let agent = AgentConfig::default();
    let patches = record_replacements(&mut summary, &mut unconverted, reps, &agent, true);
    assert_eq!(patches.len(), 1);
    assert_eq!(patches[0].after, "pt-4");
    assert_eq!(patches[0].range.start_byte, 1);
    assert!(patches[0].trace.is_empty());
    assert!(patches[0].reasons.is_empty());
    assert_eq!(unconverted.len(), 2);
    assert_eq!(unconverted[0].reason, FailureReason::DynamicClass);
    assert_eq!(unconverted[0].details, "a; b");
    assert_eq!(unconverted[0].diagnostics.len(), 1);
    assert_eq!(unconverted[1].reason, FailureReason::NoMappingFound);
    assert_eq!(summary.classes_convertible, 1);
    assert_eq!(summary.replacements_planned, 1);
    assert_eq!(summary.classes_unconvertible, 2);
}

#[test]
fn test_tally_replacements() {
    let reps = vec![
        rep("pt-4", None, Decimal::from_int(1), 0),
        rep("pt-4", None, Decimal::new(5, 1), 0),
        rep("", Some(FailureReason::DynamicClass), Decimal::from_int(0), 2),
        rep("", Some(FailureReason::NoMappingFound), Decimal::from_int(0), 0),
    ];
    let t = tally_replacements(&reps, &Decimal::new(7, 1));
    assert_eq!(t.found, 4);
    assert_eq!(t.converted, 1);
    assert_eq!(t.failures[FailureReason::DynamicClass.index()], 1);
    assert_eq!(t.failures[FailureReason::NoMappingFound.index()], 1);
    assert_eq!(t.diagnostics, 2);
    assert_eq!(count_convertible(&reps), 2);
    assert_eq!(FailureReason::from_index(1), Some(FailureReason::DynamicClass));
    assert_eq!(FailureReason::from_index(7), None);
}

#[test]
fn test_benchmark_rule_map_outcomes() {
    let css = ":root { --g: 4px; } .safe { padding-top: 4px; } .partial { padding-top: var(--g); } .none { --x: 1; }";
    let parsed = parse_css(css).unwrap();
    let rules = extract_style_rules(&parsed);
    let map = build_rule_map(&rules);
    let vars = extract_variables(&rules);
    let b = benchmark_rule_map(&map, &vars, &Decimal::from_int(4));
    assert_eq!(b.total, 3);
    assert_eq!(b.safe, 1);
    assert_eq!(b.partial, 1);
    assert_eq!(b.failed, 1);
}

#[test]
fn test_mcp_routing() {
    assert_eq!(route("initialize", ""), McpAction::Initialize);
    assert_eq!(route("tools/list", ""), McpAction::ListTools);
    assert_eq!(route("tools/call", "scan_project"), McpAction::ScanProject);
    assert_eq!(route("tools/call", "detect_config"), McpAction::DetectConfig);
    assert_eq!(route("tools/call", "other"), McpAction::UnknownTool);
    assert_eq!(route("ping", ""), McpAction::MethodNotFound);
    assert_eq!(tool_path(None), ".");
    assert_eq!(tool_path(Some("src".to_string())), "src");
}

#[test]
fn test_generate_diff_hunks() {
    let d = generate_diff("a\nb\n", "a\nc\n", "f.html");
    assert!(d.starts_with("--- f.html\n+++ f.html\n@@"));
    assert!(d.contains("-b\n+c\n"));
}

#[test]
fn test_write_and_report_decisions() {
    assert!(writes_file(RunMode::Write, false));
    assert!(!writes_file(RunMode::Write, true));
    assert!(!writes_file(RunMode::DryRun, false));
    assert!(needs_patched(RunMode::Write, false, false));
    assert!(needs_patched(RunMode::DryRun, true, false));
    assert!(needs_patched(RunMode::ReadOnly, false, true));
    assert!(!needs_patched(RunMode::DryRun, false, false));
    assert!(reported_file(&[], "a.html"));
    let only = vec!["b.html".to_string(), "a.html".to_string()];
    assert!(reported_file(&only, "a.html"));
    assert!(!reported_file(&only, "c.html"));
    let mut report = new_report("0.1.0".to_string(), RunMode::DryRun);
    report.warnings.push("w".to_string());
    keep_summary_only(&mut report);
    assert!(report.changes.is_empty() && report.unconverted.is_empty());
    assert_eq!(report.warnings, vec!["w".to_string()]);
}

#[test]
fn test_migrate_file_step() {
    use_step();
}

fn use_step() {
    let source = css2tw_core::source::SourceFile {
        path: "a.html".to_string(),
        content: r#"<div class="btn"></div>"#.to_string(),
    };
    let mut r1 = rep("pt-4", None, Decimal::from_int(1), 0);
    r1.span = Span { start: 12, end: 15 };
    let r2 = rep("", Some(FailureReason::NoMappingFound), Decimal::from_int(0), 0);
    let mut summary = Summary::zero();
    let mut unconverted = Vec::new();
    let step = css2tw_core::migration::migrate_file(
        &mut summary, &mut unconverted, &source, vec![r1.clone(), r2], &AgentConfig::default(),
        RunMode::Write, false, true, true, &[],
    );
    assert!(step.error.is_none());
    assert_eq!(step.write.as_deref(), Some(r#"<div class="pt-4"></div>"#));
    let change = step.change.unwrap();
    assert_eq!(change.status, "modified");
    assert_eq!(change.patches.len(), 1);
    assert_eq!(change.patched_content.as_deref(), Some(r#"<div class="pt-4"></div>"#));
    assert!(change.patch.unwrap().content.contains("+<div class=\"pt-4\"></div>"));
    assert_eq!(summary.classes_convertible, 1);
    assert_eq!(summary.classes_unconvertible, 1);
    assert_eq!(unconverted.len(), 1);

    // Filtered out of the report, dry run: no entry, nothing to write.
    let mut summary = Summary::zero();
    let mut unconverted = Vec::new();
    let step = css2tw_core::migration::migrate_file(
        &mut summary, &mut unconverted, &source, vec![r1.clone()], &AgentConfig::default(),
        RunMode::DryRun, false, false, false, &["other.html".to_string()],
    );
    assert!(step.change.is_none() && step.write.is_none() && step.error.is_none());

    // A span off the text: an error when the patched text is needed.
    let mut bad = r1;
    bad.span = Span { start: 40, end: 41 };
    let mut summary = Summary::zero();
    let mut unconverted = Vec::new();
    let step = css2tw_core::migration::migrate_file(
        &mut summary, &mut unconverted, &source, vec![bad], &AgentConfig::default(),
        RunMode::Write, false, false, false, &[],
    );
    assert!(step.error.unwrap().contains("character boundaries"));
    assert!(step.change.is_none());
}
