use css2tw_core::css::parser::{extract_style_rules, parse_css};
use css2tw_core::number::Decimal;
use css2tw_core::report::{FailureReason, Severity};
use css2tw_core::source::fragment_parser::{protect_templates, FragmentParser};
use css2tw_core::source::generic::GenericRegexParser;
use css2tw_core::source::html::{detect_dynamic_bindings, HtmlParser};
use css2tw_core::source::jsx::{
    JsxAttrValue, JsxAttribute, JsxExpression, JsxExpressionKind, JsxOpeningElement, JsxParser,
};
use css2tw_core::source::{ClassUsageParser, SourceFile};

/// A `<tag ...>` opening element whose single attribute `name` holds an
/// expression of the given kind, located in `content`.
fn element_with_expression(content: &str, tag: &str, name: &str, kind: JsxExpressionKind, expr: &str) -> JsxOpeningElement {
    let name_end = content.find(&format!("<{}", tag)).unwrap() + 1 + tag.len();
    let start = content.find(expr).unwrap();
    JsxOpeningElement {
        tag: Some(tag.to_string()),
        name_end,
        attributes: vec![JsxAttribute {
            name: Some(name.to_string()),
            value: Some(JsxAttrValue::Expression(JsxExpression { kind, start, end: start + expr.len() })),
        }],
    }
}

/// A `<tag name="value">` opening element located in `content`.
fn element_with_literal(content: &str, tag: &str, name: &str, value: &str) -> JsxOpeningElement {
    let name_end = content.find(&format!("<{}", tag)).unwrap() + 1 + tag.len();
    let lit = format!("{}=\"{}\"", name, value);
    let value_start = content.find(&lit).unwrap() + name.len() + 2;
    JsxOpeningElement {
        tag: Some(tag.to_string()),
        name_end,
        attributes: vec![JsxAttribute {
            name: Some(name.to_string()),
            value: Some(JsxAttrValue::StringLiteral {
                value: value.to_string(),
                value_start,
                value_end: value_start + value.len(),
            }),
        }],
    }
}

#[test]
fn test_extract_classes_php() {
    let parser = GenericRegexParser;
    let source = SourceFile {
        path: "test.php".to_string(),
        content: r#"<div class="btn primary"> <?php echo "hello"; ?> <span className='text-red'></span> </div>"#.to_string(),
    };

    let classes = parser.extract_classes(&source).unwrap();

    assert_eq!(classes.len(), 3);
    assert_eq!(classes[0].class_name, "btn");
    assert_eq!(classes[1].class_name, "primary");
    assert_eq!(classes[2].class_name, "text-red");

    assert_eq!(&source.content[classes[0].span.start..classes[0].span.end], "btn");
    assert_eq!(&source.content[classes[1].span.start..classes[1].span.end], "primary");
    assert_eq!(&source.content[classes[2].span.start..classes[2].span.end], "text-red");
}

#[test]
fn test_duplicate_classes() {
    let parser = GenericRegexParser;
    let source = SourceFile {
        path: "test.html".to_string(),
        content: r#"<div class="btn btn"></div>"#.to_string(),
    };

    let classes = parser.extract_classes(&source).unwrap();
    assert_eq!(classes.len(), 2);
    assert_eq!(classes[0].class_name, "btn");
    assert_eq!(classes[1].class_name, "btn");
    assert_ne!(classes[0].span.start, classes[1].span.start);
}

#[test]
fn test_html_vue_binding_detection() {
    let parser = HtmlParser;
    let source = SourceFile {
        path: "test.vue".to_string(),
        content: "<div :class=\"{ 'is-active': active }\"></div>".to_string(),
    };

    let replacements = parser.plan_html(&source, &[], &Decimal::from_int(4), true, false).unwrap();
    assert!(replacements.iter().any(|r| r.failure_reason == Some(FailureReason::DynamicClass)));
}

#[test]
fn test_html_angular_binding_detection() {
    let parser = HtmlParser;
    let source = SourceFile {
        path: "test.component.html".to_string(),
        content: "<div [class]=\"myClass\"></div>".to_string(),
    };

    let replacements = parser.plan_html(&source, &[], &Decimal::from_int(4), true, false).unwrap();
    assert!(replacements.iter().any(|r| r.failure_reason == Some(FailureReason::DynamicClass)));
}

#[test]
fn test_binding_report_fields() {
    let content = "<p>é</p><div v-bind:class='x'></div>";
    let reps = detect_dynamic_bindings(content);
    assert_eq!(reps.len(), 1);
    let r = &reps[0];
    assert_eq!(&content[r.span.start..r.span.end], "x");
    assert_eq!(r.reasons, vec!["Dynamic class binding detected: :class".to_string()]);
    assert_eq!(r.after, "");
    assert_eq!(r.diagnostics.len(), 1);
    assert_eq!(r.diagnostics[0].severity, Severity::Warning);
    assert!(r.diagnostics[0].manual_action_required);
    assert_eq!(r.diagnostics[0].reason, "DynamicClass");
}

#[test]
fn test_html_plan_replaces_and_injects() {
    let css = ".pt-16 { padding-top: 16px; } p { margin-top: 4px; }";
    let parsed = parse_css(css).unwrap();
    let rules = extract_style_rules(&parsed);
    let source = SourceFile {
        path: "a.html".to_string(),
        content: "<div class=\"pt-16\"><p>hi</p></div>".to_string(),
    };
    let parser = HtmlParser;
    // Only existing class attributes are rewritten.
    let reps = parser.plan_html(&source, &rules, &Decimal::from_int(4), true, true).unwrap();
    assert_eq!(reps.len(), 1);
    assert_eq!(reps[0].after, "pt-4");
    assert_eq!(&source.content[reps[0].span.start..reps[0].span.end], "pt-16");

    // With injection, the tag selector's styles get a new class attribute.
    let reps = parser.plan_html(&source, &rules, &Decimal::from_int(4), false, true).unwrap();
    assert_eq!(reps.len(), 2);
    assert_eq!(reps[1].after, " class=\"mt-1\"");
    assert_eq!(reps[1].span.start, reps[1].span.end);
    assert_eq!(&source.content[..reps[1].span.start], "<div class=\"pt-16\"><p");
}

#[test]
fn test_jsx_dynamic_clsx_detection() {
    let parser = JsxParser;
    let content = "const MyComp = () => <div className={clsx('a', 'b')}></div>;";
    let elements = vec![element_with_expression(
        content,
        "div",
        "className",
        JsxExpressionKind::Call(Some("clsx".to_string())),
        "clsx('a', 'b')",
    )];

    let replacements = parser.plan_jsx(&elements, &[], &Decimal::from_int(4), true, false).unwrap();
    assert_eq!(replacements.len(), 1);
    assert_eq!(replacements[0].failure_reason, Some(FailureReason::DynamicClass));
    assert!(replacements[0].reasons[0].contains("clsx"));
    assert!(!replacements[0].diagnostics.is_empty());
}

#[test]
fn test_jsx_template_literal_detection() {
    let parser = JsxParser;
    let content = "const MyComp = () => <div className={`base ${active ? 'active' : ''}`}></div>;";
    let elements = vec![element_with_expression(
        content,
        "div",
        "className",
        JsxExpressionKind::TemplateLiteral,
        "`base ${active ? 'active' : ''}`",
    )];

    let replacements = parser.plan_jsx(&elements, &[], &Decimal::from_int(4), true, false).unwrap();
    assert_eq!(replacements.len(), 1);
    assert_eq!(replacements[0].failure_reason, Some(FailureReason::DynamicTemplateLiteral));
    assert!(!replacements[0].diagnostics.is_empty());
}

#[test]
fn test_jsx_conditional_detection() {
    let parser = JsxParser;
    let content = "const MyComp = () => <div className={isActive ? 'a' : 'b'}></div>;";
    let elements = vec![element_with_expression(
        content,
        "div",
        "className",
        JsxExpressionKind::Conditional,
        "isActive ? 'a' : 'b'",
    )];

    let replacements = parser.plan_jsx(&elements, &[], &Decimal::from_int(4), true, false).unwrap();
    assert_eq!(replacements.len(), 1);
    assert_eq!(replacements[0].failure_reason, Some(FailureReason::ConditionalClassExpression));
    assert!(replacements[0].reasons[0].contains("Conditional"));
}

#[test]
fn test_jsx_object_expression_detection() {
    let parser = JsxParser;
    let content = "const MyComp = () => <div className={{ 'a-class': true }}></div>;";
    let elements = vec![element_with_expression(
        content,
        "div",
        "className",
        JsxExpressionKind::Object,
        "{ 'a-class': true }",
    )];

    let replacements = parser.plan_jsx(&elements, &[], &Decimal::from_int(4), true, false).unwrap();
    assert_eq!(replacements.len(), 1);
    assert_eq!(replacements[0].failure_reason, Some(FailureReason::RuntimeClassGeneration));
}

#[test]
fn test_jsx_identifier_detection() {
    let parser = JsxParser;
    let content = "const MyComp = () => <div className={myClasses}></div>;";
    let elements = vec![element_with_expression(content, "div", "className", JsxExpressionKind::Other, "myClasses")];

    let replacements = parser.plan_jsx(&elements, &[], &Decimal::from_int(4), true, false).unwrap();
    assert_eq!(replacements.len(), 1);
    assert_eq!(replacements[0].failure_reason, Some(FailureReason::DynamicClass));
}

#[test]
fn test_jsx_other_calls_and_empty_expressions_are_not_reported() {
    let parser = JsxParser;
    let content = "<div className={join('a')}></div>";
    let elements = vec![element_with_expression(
        content,
        "div",
        "className",
        JsxExpressionKind::Call(Some("join".to_string())),
        "join('a')",
    )];
    assert!(parser.plan_jsx(&elements, &[], &Decimal::from_int(4), true, false).unwrap().is_empty());
    let e = JsxExpression { kind: JsxExpressionKind::Empty, start: 0, end: 0 };
    assert!(JsxParser::detect_dynamic_pattern(&e).is_none());
}

#[test]
fn test_jsx_literal_resolution_and_injection() {
    let css = ".btn { padding-top: 16px; } span { margin-top: 8px; }";
    let parsed = parse_css(css).unwrap();
    let rules = extract_style_rules(&parsed);
    let content = "const A = () => <div className=\"btn\"><span>x</span></div>;";
    let mut elements = vec![element_with_literal(content, "div", "className", "btn")];
    let span_end = content.find("<span").unwrap() + 5;
    elements.push(JsxOpeningElement { tag: Some("span".to_string()), name_end: span_end, attributes: vec![] });
    let parser = JsxParser;

    let reps = parser.plan_jsx(&elements, &rules, &Decimal::from_int(4), true, true).unwrap();
    assert_eq!(reps.len(), 1);
    assert_eq!(reps[0].after, "pt-4");
    assert_eq!(&content[reps[0].span.start..reps[0].span.end], "btn");
    assert_eq!(reps[0].reasons, vec!["Matched JSX opening element and resolved via OXC AST".to_string()]);

    let reps = parser.plan_jsx(&elements, &rules, &Decimal::from_int(4), false, true).unwrap();
    assert_eq!(reps.len(), 2);
    assert_eq!(reps[1].after, " className=\"mt-2\"");
    assert_eq!(reps[1].span.start, span_end);
}

#[test]
fn test_jsx_extract_classes_spans() {
    let content = "<div className=\"a  bb\"></div>";
    let elements = vec![element_with_literal(content, "div", "className", "a  bb")];
    let uses = JsxParser.extract_classes(&elements);
    assert_eq!(uses.len(), 2);
    assert_eq!(uses[0].class_name, "a");
    assert_eq!(&content[uses[0].span.start..uses[0].span.end], "a");
    assert_eq!(uses[1].class_name, "bb");
    assert_eq!(&content[uses[1].span.start..uses[1].span.end], "bb");
}

#[test]
fn test_protect_templates_placeholders() {
    let (text, tags) = protect_templates("<p class=\"{{ a }} b\">@if($x) ok</p>");
    let text: String = text.into_iter().collect();
    assert_eq!(tags.len(), 2);
    assert!(text.contains("___CSS2TW_TPL_0___"));
    assert!(text.contains("___CSS2TW_TPL_1___"));
    assert!(!text.contains("{{"));
    assert!(!text.contains("@if"));
}

#[test]
fn test_fragment_extract_classes_skips_templates() {
    let parser = FragmentParser;
    let source = SourceFile {
        path: "a.php".to_string(),
        content: "<div class=\"btn {{$x}} pt-1\"></div>".to_string(),
    };
    let uses = parser.extract_classes(&source).unwrap();
    let names: Vec<&str> = uses.iter().map(|u| u.class_name.as_str()).collect();
    assert_eq!(names, vec!["btn", "pt-1"]);
}

#[test]
fn test_line_col() {
    let source = SourceFile { path: "a".to_string(), content: "ab\ncé\nd".to_string() };
    assert_eq!(source.line_col(0), (1, 1));
    assert_eq!(source.line_col(3), (2, 1));
    // after "c" and the two bytes of "é"
    assert_eq!(source.line_col(6), (2, 3));
    assert_eq!(source.line_col(7), (3, 1));
}
