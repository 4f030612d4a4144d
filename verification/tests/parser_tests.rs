use css2tw_core::css::parser::{build_rule_map, extract_style_rules, extract_variables, parse_css};
use css2tw_core::variant::TailwindVariant;

#[test]
fn test_extract_variables() {
    let css = ":root { --main-color: #ff0000; --secondary: 1rem; }";
    let parsed = parse_css(css).unwrap();
    let rules = extract_style_rules(&parsed);
    let vars = extract_variables(&rules);

    assert_eq!(vars.get("--main-color").unwrap(), "red");
    assert_eq!(vars.get("--secondary").unwrap(), "1rem");
}

#[test]
fn test_build_rule_map_robustness() {
    let css = "
        div { color: red; }
        .btn:hover { color: blue; }
        input[type='text'] { color: green; }
        div.active:nth-child(2n) { color: yellow; }
    ";
    let parsed = parse_css(css).unwrap();
    let rules = extract_style_rules(&parsed);
    let map = build_rule_map(&rules);

    // div should be skipped (no class)
    assert!(!map.contains_key("div"));

    // .btn:hover should be present
    assert!(map.contains_key("btn"));

    // div.active:nth-child(2n) should be present as "active"
    assert!(map.contains_key("active"));

    // A pseudo-class without its closing parenthesis
    let css_partial = ".broken:nth-child(2n { color: red; }";
    if let Ok(parsed) = parse_css(css_partial) {
        let rules = extract_style_rules(&parsed);
        let _map = build_rule_map(&rules);
    }
}

#[test]
fn test_media_query_extraction() {
    let css = "
        @media (max-width: 1120px) {
            .test { color: red; }
        }
        @media (min-width: 768px) {
            .test:hover { color: blue; }
        }
    ";
    let parsed = parse_css(css).unwrap();
    let rules = extract_style_rules(&parsed);
    let map = build_rule_map(&rules);

    assert!(map.contains_key("test"));
    let mappings = map.get("test").unwrap();

    // Check for max-width: 1120px
    assert!(mappings.iter().any(|m| m
        .variants
        .contains(&TailwindVariant::Media("max-[1120px]".to_string()))));

    // Check for md:hover (min-width: 768px + hover)
    assert!(mappings.iter().any(|m| {
        m.variants.contains(&TailwindVariant::Media("md".to_string()))
            && m.variants.contains(&TailwindVariant::Hover)
    }));
}

#[test]
fn test_parse_error_is_reported() {
    let r = parse_css(".a { color: red; } }}} @media {");
    // lightningcss either recovers or reports a parse error; an error is `Parse`.
    if let Err(e) = r {
        assert!(matches!(e, css2tw_core::error::Css2TwError::Parse(_)));
    }
}

#[test]
fn test_rule_map_appends_across_rules() {
    let css = ".a { color: red; } .a { padding-top: 4px; } .b { margin: 0; }";
    let parsed = parse_css(css).unwrap();
    let rules = extract_style_rules(&parsed);
    let map = build_rule_map(&rules);
    assert_eq!(map.get("a").unwrap().len(), 2);
    assert_eq!(map.get("b").unwrap().len(), 1);
    assert!(map.get("c").is_none());
}

#[test]
fn test_media_rules_are_flattened_in_order() {
    let css = ".x { color: red; } @media (min-width: 640px) { .y { color: blue; } } .z { color: green; }";
    let parsed = parse_css(css).unwrap();
    let rules = extract_style_rules(&parsed);
    assert_eq!(rules.len(), 3);
    assert!(rules[0].context_variants.is_empty());
    assert_eq!(rules[1].context_variants, vec![TailwindVariant::Media("sm".to_string())]);
    assert!(rules[2].context_variants.is_empty());
}

#[test]
fn test_parse_error_message_prefix() {
    if let Err(css2tw_core::error::Css2TwError::Parse(m)) = parse_css("@media (") {
        assert!(m.starts_with("Failed to parse CSS: "));
    }
}
