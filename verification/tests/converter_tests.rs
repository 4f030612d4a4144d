use css2tw_core::config::{AgentConfig, Config, ParserType};
use css2tw_core::converter::Converter;
use css2tw_core::error::Css2TwError;
use css2tw_core::number::Decimal;
use css2tw_core::source::jsx::{JsxAttrValue, JsxAttribute, JsxOpeningElement};
use css2tw_core::source::SourceFile;

#[test]
fn test_pure_conversion_with_trace() {
    let mut config = Config::default();
    config.tailwind.rem_scale = Decimal::from_int(4);

    let converter = Converter::new(config);

    let source = SourceFile {
        path: "test.html".to_string(),
        content: r#"<div class="pt-16"></div>"#.to_string(),
    };

    let css = r#".pt-16 { padding-top: 16px; }"#.to_string();

    let result = converter.convert_file(&source, &[css], &[]).unwrap();

    assert!(result.contains("pt-4"));
    assert!(!result.contains("pt-16"));
}

#[test]
fn test_custom_theme_injection() {
    let mut config = Config::default();
    config
        .tailwind
        .custom_theme
        .push(("brand-primary".to_string(), "#ff0000".to_string()));

    let converter = Converter::new(config);

    let content = r#"<div className="btn"></div>"#;
    let source = SourceFile { path: "test.jsx".to_string(), content: content.to_string() };
    let elements = vec![JsxOpeningElement {
        tag: Some("div".to_string()),
        name_end: 4,
        attributes: vec![JsxAttribute {
            name: Some("className".to_string()),
            value: Some(JsxAttrValue::StringLiteral { value: "btn".to_string(), value_start: 16, value_end: 19 }),
        }],
    }];

    let css = r#".btn { color: #ff0000; }"#.to_string();
    let _result = converter.convert_file(&source, &[css], &elements).unwrap();
}

#[test]
fn test_blade_fragment_conversion() {
    let mut config = Config::default();
    config.tailwind.rem_scale = Decimal::from_int(4);

    let converter = Converter::new(config);

    let source = SourceFile {
        path: "resources/views/welcome.blade.php".to_string(),
        content: r#"
<div class="pt-16">
    @if($show)
        <p class="mb-4 text-blue-500">Hello {{ $name }}</p>
    @endif
</div>
"#
        .to_string(),
    };

    let css = r#"
        .pt-16 { padding-top: 16px; }
        .mb-4 { margin-bottom: 4px; }
        .text-blue-500 { color: blue; }
    "#
    .to_string();

    let result = converter.convert_file(&source, &[css], &[]).unwrap();
    println!("Blade Result: {}", result);

    assert!(result.contains("pt-4"));
    assert!(result.contains("mb-1"));
    assert!(result.contains("text-[#00f]") || result.contains("text-blue-500"));
    assert!(result.contains("@if($show)"));
    assert!(result.contains("{{ $name }}"));
}

#[test]
fn test_php_fragment_with_dynamic_classes() {
    let config = Config::default();
    let converter = Converter::new(config);

    let source = SourceFile {
        path: "index.php".to_string(),
        content: r#"<div class="btn-primary <?= $active ? 'active' : '' ?> pt-16"></div>"#.to_string(),
    };

    let css = r#".pt-16 { padding-top: 16px; }"#.to_string();
    let result = converter.convert_file(&source, &[css], &[]).unwrap();
    println!("PHP Result: {}", result);

    assert!(result.contains("pt-4"));
    assert!(result.contains("btn-primary"));
    assert!(result.contains("<?= $active ? 'active' : '' ?>"));
}

#[test]
fn test_jinja2_fragment() {
    let config = Config::default();
    let converter = Converter::new(config);

    let source = SourceFile {
        path: "template.j2".to_string(),
        content: r#"
<div class="pt-16">
    {% for item in items %}
        <span class="mr-8">{{ item }}</span>
    {% endfor %}
</div>
"#
        .to_string(),
    };

    let css = r#"
        .pt-16 { padding-top: 16px; }
        .mr-8 { margin-right: 8px; }
    "#
    .to_string();

    let result = converter.convert_file(&source, &[css], &[]).unwrap();

    assert!(result.contains("pt-4"));
    assert!(result.contains("mr-2"));
    assert!(result.contains("{% for item in items %}"));
}

#[test]
fn test_agent_config_defaults() {
    let config = Config::default();
    assert!(!config.agent.include_trace);
    assert!(!config.agent.include_reasons);
    assert!(config.agent.compact);
    let agent = AgentConfig::default();
    assert!(agent.deterministic);
}

#[test]
fn test_parser_for_extensions() {
    let converter = Converter::new(Config::default());
    assert_eq!(converter.parser_for("html"), ParserType::Html);
    assert_eq!(converter.parser_for("tsx"), ParserType::Jsx);
    assert_eq!(converter.parser_for("j2"), ParserType::Fragment);
    assert_eq!(converter.parser_for("txt"), ParserType::Generic);
    assert_eq!(converter.parser_for(""), ParserType::Generic);
}

#[test]
fn test_generic_file_uses_class_map() {
    let converter = Converter::new(Config::default());
    let source = SourceFile {
        path: "notes.txt".to_string(),
        content: r#"<x class="pt-16 other"></x>"#.to_string(),
    };
    let css = ".pt-16 { padding-top: 16px; } .bad { }".to_string();
    let reps = converter.plan_file(&source, &[css, "} not css {".to_string()], &[]).unwrap();
    assert_eq!(reps.len(), 1);
    assert_eq!(reps[0].after, "pt-4");
    assert_eq!(&source.content[reps[0].span.start..reps[0].span.end], "pt-16");
}

#[test]
fn test_unconverted_items_are_not_applied() {
    let mut config = Config::default();
    config.tailwind.rem_scale = Decimal::from_int(4);
    let converter = Converter::new(config);
    let source = SourceFile {
        path: "test.html".to_string(),
        content: r#"<div class="weird"></div><div :class="x"></div>"#.to_string(),
    };
    let css = ".weird { unknown-thing: 1 2 3; }".to_string();
    let planned = converter.plan_file(&source, &[css.clone()], &[]).unwrap();
    assert!(planned.iter().any(|r| r.after.is_empty()));
    let result = converter.convert_file(&source, &[css], &[]).unwrap();
    assert!(result.contains(":class=\"x\""));
}

#[test]
fn test_convert_rejects_spans_off_char_boundaries() {
    let mut config = Config::default();
    config.rewrite.migrate_only_existing_classes = false;
    config.rewrite.include_tag_selectors = true;
    let converter = Converter::new(config);
    let content = "é<p></p>";
    let source = SourceFile { path: "a.jsx".to_string(), content: content.to_string() };
    let css = "p { color: red; }".to_string();
    // An element whose reported name end cuts the two bytes of "é" apart.
    let elements = vec![JsxOpeningElement { tag: Some("p".to_string()), name_end: 1, attributes: vec![] }];
    let planned = converter.plan_file(&source, &[css.clone()], &elements).unwrap();
    assert_eq!(planned.len(), 1);
    assert!(!planned[0].after.is_empty());
    let r = converter.convert_file(&source, &[css], &elements);
    assert!(matches!(r, Err(Css2TwError::Internal(_))));
}

#[test]
fn test_dynamic_binding_reported_not_applied() {
    let converter = Converter::new(Config::default());
    let source = SourceFile {
        path: "card.html".to_string(),
        content: r#"<div :class="{ active: on }" class="pt-16"></div>"#.to_string(),
    };
    let css = r#".pt-16 { padding-top: 16px; }"#.to_string();

    let planned = converter.plan_file(&source, &[css.clone()], &[]).unwrap();
    assert!(planned.iter().any(|r| r.after.is_empty() && r.failure_reason.is_some()));

    let result = converter.convert_file(&source, &[css], &[]).unwrap();
    assert!(result.contains(r#":class="{ active: on }""#));
    assert!(result.contains("pt-4"));
}

#[test]
fn test_unparsable_stylesheet_passed_over() {
    let converter = Converter::new(Config::default());
    let source = SourceFile {
        path: "page.html".to_string(),
        content: r#"<div class="pt-16"></div>"#.to_string(),
    };
    let good = r#".pt-16 { padding-top: 16px; }"#.to_string();
    let bad = r#".x { color: red; } }"#.to_string();
    let result = converter.convert_file(&source, &[bad, good], &[]).unwrap();
    assert!(result.contains("pt-4"));
}

#[test]
fn test_nested_path_uses_html_parser() {
    let converter = Converter::new(Config::default());
    let source = SourceFile {
        path: "src/views/./card.html".to_string(),
        content: r#"<div :class="x" class="pt-16"></div>"#.to_string(),
    };
    let css = r#".pt-16 { padding-top: 16px; }"#.to_string();
    let planned = converter.plan_file(&source, &[css], &[]).unwrap();
    assert!(planned.iter().any(|r| r.after == "pt-4"));
    assert!(planned.iter().any(|r| r.after.is_empty() && r.failure_reason.is_some()));
}

#[test]
fn test_fragment_glued_template_tag_restored() {
    let converter = Converter::new(Config::default());
    let source = SourceFile {
        path: "card.php".to_string(),
        content: r#"<div class="btn-{{ x }} pt-16"></div>"#.to_string(),
    };
    let css = r#".pt-16 { padding-top: 16px; }"#.to_string();
    let result = converter.convert_file(&source, &[css], &[]).unwrap();
    assert!(result.contains("btn-{{ x }}"), "{}", result);
    assert!(result.contains("pt-4"), "{}", result);
    assert!(!result.contains("___CSS2TW_TPL_"), "{}", result);
}

#[test]
fn test_jsx_elements_must_fit_source() {
    let converter = Converter::new(Config::default());
    let content = r#"<div className="pt-16"></div>"#;
    let source = SourceFile { path: "a.jsx".to_string(), content: content.to_string() };
    let css = r#".pt-16 { padding-top: 16px; }"#.to_string();
    let element = |start: usize, end: usize| JsxOpeningElement {
        tag: Some("div".to_string()),
        name_end: 4,
        attributes: vec![JsxAttribute {
            name: Some("className".to_string()),
            value: Some(JsxAttrValue::StringLiteral { value: "pt-16".to_string(), value_start: start, value_end: end }),
        }],
    };
    let fit = converter.plan_file(&source, &[css.clone()], &[element(16, 21)]).unwrap();
    assert_eq!(fit.len(), 1);
    assert_eq!(fit[0].after, "pt-4");
    let off = converter.plan_file(&source, &[css], &[element(15, 20)]).unwrap();
    assert!(off.is_empty());
}
