use css2tw_core::css::parser::{extract_style_rules, parse_css};
use css2tw_core::css::resolver::{clean_selector, find_element, StyleResolver};
use css2tw_core::number::Decimal;
use css2tw_core::variant::TailwindVariant;
use css2tw_core::css::dom::Document;

#[test]
fn test_resolve_simple_class() {
    let css = ".card { padding: 10px; }";
    let parsed = parse_css(css).unwrap();
    let rules = extract_style_rules(&parsed);
    let resolver = StyleResolver::new(&rules, false);

    let html = Document::fragment("<div class=\"card\"></div>");
    let element = find_element(&html, ".card").unwrap();

    let resolved = resolver.resolve_styles(&html, element);
    assert!(!resolved.properties.is_empty());

    // Should have padding property
    assert!(resolved.properties.iter().any(|m| m.property.name == "padding"));
}

#[test]
fn test_resolve_tag_specific() {
    let css = "button.btn { color: red; } div.btn { color: blue; }";
    let parsed = parse_css(css).unwrap();
    let rules = extract_style_rules(&parsed);
    let resolver = StyleResolver::new(&rules, false);

    // Test button
    let html_btn = Document::fragment("<button class=\"btn\"></button>");
    let btn = find_element(&html_btn, "button").unwrap();
    let res_btn = resolver.resolve_styles(&html_btn, btn);

    // Should have red color
    let dest = &res_btn.properties[0].property.css;
    assert!(dest.contains("red") || dest.contains("#f00"));

    // Test div
    let html_div = Document::fragment("<div class=\"btn\"></div>");
    let div = find_element(&html_div, "div").unwrap();
    let res_div = resolver.resolve_styles(&html_div, div);

    // Should have blue color
    let dest = &res_div.properties[0].property.css;
    assert!(dest.contains("blue") || dest.contains("#00f"));
}

#[test]
fn test_resolve_pseudo() {
    let css = ".btn:hover { color: green; } .btn::before { padding: 5px; }";
    let parsed = parse_css(css).unwrap();
    let rules = extract_style_rules(&parsed);
    let resolver = StyleResolver::new(&rules, false);

    let html = Document::fragment("<button class=\"btn\"></button>");
    let btn = find_element(&html, ".btn").unwrap();
    let resolved = resolver.resolve_styles(&html, btn);

    assert_eq!(resolved.properties.len(), 2);

    let hover_mapping = resolved
        .properties
        .iter()
        .find(|m| m.variants.contains(&TailwindVariant::Hover))
        .unwrap();
    assert_eq!(hover_mapping.property.name, "color");

    let before_mapping = resolved
        .properties
        .iter()
        .find(|m| m.variants.contains(&TailwindVariant::Before))
        .unwrap();
    assert_eq!(before_mapping.property.name, "padding");
}

#[test]
fn test_resolve_variables() {
    let css = ":root { --main-bg: #ff0000; } .card { background-color: var(--main-bg); }";
    let parsed = parse_css(css).unwrap();
    let rules = extract_style_rules(&parsed);
    let resolver = StyleResolver::new(&rules, false);

    let html = Document::fragment("<div class=\"card\"></div>");
    let element = find_element(&html, ".card").unwrap();

    let resolved = resolver.resolve_styles(&html, element);
    let tw = resolved.to_tailwind_string(&Decimal::from_int(4));
    println!("Variable resolve Output: {}", tw);

    // Should resolve to red background
    assert!(tw.contains("bg-[#ff0000]") || tw.contains("bg-[red]"));
}

#[test]
fn test_specificity_optimization() {
    let css = ".card { color: red; } div.card { color: blue; }";
    let parsed = parse_css(css).unwrap();
    let rules = extract_style_rules(&parsed);
    let resolver = StyleResolver::new(&rules, false);

    let html = Document::fragment("<div class=\"card\"></div>");
    let element = find_element(&html, ".card").unwrap();

    let resolved = resolver.resolve_styles(&html, element);
    let tw = resolved.to_tailwind_string(&Decimal::from_int(4));
    println!("Specificity Output: {}", tw);

    // div.card (specificity 0,1,1) beats .card (specificity 0,1,0)
    assert!(tw.contains("#00f"));
    assert!(!tw.contains("red"));
}

#[test]
fn test_tag_selectors_ignored_by_default() {
    let css = "div { margin-top: 4px; } .card { padding-top: 4px; }";
    let parsed = parse_css(css).unwrap();
    let rules = extract_style_rules(&parsed);
    let html = Document::fragment("<div class=\"card\"></div>");
    let element = find_element(&html, ".card").unwrap();

    let without = StyleResolver::new(&rules, false);
    let tw = without.resolve_styles(&html, element).to_tailwind_string(&Decimal::from_int(4));
    assert_eq!(tw, "pt-1");

    let with = StyleResolver::new(&rules, true);
    let tw = with.resolve_styles(&html, element).to_tailwind_string(&Decimal::from_int(4));
    assert_eq!(tw, "mt-1 pt-1");
}

#[test]
fn test_raw_css_and_replacement_without_mapping() {
    let css = ".x { display: flex; align-items: baseline; }";
    let parsed = parse_css(css).unwrap();
    let rules = extract_style_rules(&parsed);
    let resolver = StyleResolver::new(&rules, false);
    let html = Document::fragment("<div class=\"x\"></div>");
    let element = find_element(&html, ".x").unwrap();
    let resolved = resolver.resolve_styles(&html, element);
    let raw = resolved.get_raw_css().unwrap();
    assert!(raw.contains("display"));
    assert!(raw.contains("; "));
}

#[test]
fn test_clean_selector() {
    assert_eq!(clean_selector(".btn:hover"), ".btn");
    assert_eq!(clean_selector(".a::before"), ".a");
    assert_eq!(clean_selector("div.card:nth-child(2n) > .b:focus"), "div.card > .b");
}
