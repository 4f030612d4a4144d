use css2tw_core::css::parser::{build_rule_map, extract_style_rules, extract_variables, parse_css};
use css2tw_core::diagnostics::confidence::ConfidenceCalculator;
use css2tw_core::diagnostics::reason::Reason;
use css2tw_core::number::Decimal;
use css2tw_core::report::ConfidenceReason;
use css2tw_core::rewrite::planner::ConversionPlanner;
use css2tw_core::source::class_usage::{ClassUsage, Span};

#[test]
fn test_explain_trace_and_confidence() {
    let css = ":root { --g: 4px; } .card { padding-top: var(--g); color: red; }";
    let parsed = parse_css(css).unwrap();
    let rules = extract_style_rules(&parsed);
    let map = build_rule_map(&rules);
    let vars = extract_variables(&rules);
    let r = ConversionPlanner::explain("card", &map, &vars, &Decimal::from_int(4)).unwrap();
    assert!(r.after.contains("pt-[4px]"), "{}", r.after);
    // One variable reference: 0.9 confidence, FullMatch then VariableResolved.
    assert_eq!(r.confidence.score, Decimal::new(9, 1));
    assert_eq!(r.confidence.reasons.len(), 2);
    assert_eq!(r.confidence.reasons[0], ConfidenceReason::FullMatch);
    assert!(matches!(&r.confidence.reasons[1], ConfidenceReason::VariableResolved(_)));
    assert!(ConversionPlanner::explain("missing", &map, &vars, &Decimal::from_int(4)).is_none());
}

#[test]
fn test_plan_respects_threshold() {
    let css = ":root { --g: 4px; } .a { padding-top: var(--g); } .b { padding-top: 4px; }";
    let parsed = parse_css(css).unwrap();
    let rules = extract_style_rules(&parsed);
    let map = build_rule_map(&rules);
    let vars = extract_variables(&rules);
    let uses = vec![
        ClassUsage { class_name: "a".to_string(), span: Span { start: 0, end: 1 } },
        ClassUsage { class_name: "b".to_string(), span: Span { start: 2, end: 3 } },
    ];
    // 0.9 does not reach 0.95; 1 does.
    let reps = ConversionPlanner::plan(&uses, &map, &vars, &Decimal::from_int(4), &Decimal::new(95, 2)).unwrap();
    assert_eq!(reps.len(), 1);
    assert_eq!(reps[0].span.start, 2);
    let reps = ConversionPlanner::plan(&uses, &map, &vars, &Decimal::from_int(4), &Decimal::new(9, 1)).unwrap();
    assert_eq!(reps.len(), 2);
}

#[test]
fn test_confidence_calculator_formula() {
    // 0.30 + 0.20 - 0.20 = 0.30
    let c = ConfidenceCalculator::calculate(true, true, false, false, true);
    assert_eq!(c.score, 30);
    assert_eq!(c.reasons.len(), 3);
    assert!(matches!(c.reasons[0], Reason::SimpleClassSelector));
    // -0.30 - 0.25 clamps to 0
    let c = ConfidenceCalculator::calculate(false, false, true, true, false);
    assert_eq!(c.score, 0);
}
