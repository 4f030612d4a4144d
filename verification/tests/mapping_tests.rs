use css2tw_core::css::parser::{extract_style_rules, parse_css, ParsedStylesheet, RuleWithContext};
use css2tw_core::number::Decimal;
use css2tw_core::tailwind::mapping::{map_property, CssProperty};
use css2tw_core::tailwind::vars::VariableMap;
use css2tw_core::variant::TailwindVariant;

fn map(p: &CssProperty, important: bool, v: &TailwindVariant, rem: u64) -> Option<String> {
    map_property(p, important, std::slice::from_ref(v), &Decimal::from_int(rem), &VariableMap::new())
}

fn decl<'a>(rules: &'a [RuleWithContext<'a>], r: usize, d: usize) -> &'a CssProperty {
    &rules[r].rule.declarations.declarations[d]
}

fn parse(css: &str) -> ParsedStylesheet {
    parse_css(css).unwrap()
}

#[test]
fn mod_test_map_display() {
    let parsed = parse(".x { display: none; } .y { display: flex; }");
    let rules = extract_style_rules(&parsed);
    let variant = TailwindVariant::Base;

    assert_eq!(map(decl(&rules, 0, 0), false, &variant, 4), Some("hidden".to_string()));
    assert_eq!(map(decl(&rules, 1, 0), false, &variant, 4), Some("flex".to_string()));
}

#[test]
fn mod_test_map_padding_margin() {
    let parsed = parse(".x { padding-top: 16px; margin-bottom: 1rem; }");
    let rules = extract_style_rules(&parsed);
    let variant = TailwindVariant::Base;

    assert_eq!(map(decl(&rules, 0, 0), false, &variant, 4), Some("pt-4".to_string()));
    assert_eq!(map(decl(&rules, 0, 1), false, &variant, 4), Some("mb-4".to_string()));
}

#[test]
fn test_map_negative_spacing() {
    let parsed = parse(".x { margin-right: -15px; }");
    let rules = extract_style_rules(&parsed);
    let variant = TailwindVariant::Base;
    // -15px at 16px/rem and rem-scale 4.0: (-15 / 16) * 4 = -3.75
    assert_eq!(map(decl(&rules, 0, 0), false, &variant, 4), Some("-mr-3.75".to_string()));
}

#[test]
fn test_map_arbitrary_quotes() {
    let parsed = parse(r#".x { background-image: url("../img.svg"); }"#);
    let rules = extract_style_rules(&parsed);
    let variant = TailwindVariant::Base;
    let out = map(decl(&rules, 0, 0), false, &variant, 4).unwrap();
    assert_eq!(out, "bg-[url(../img.svg)]");
}

#[test]
fn mod_test_map_colors() {
    let parsed = parse(".x { color: red; background-color: #f00; }");
    let rules = extract_style_rules(&parsed);
    let variant = TailwindVariant::Base;

    let out = map(decl(&rules, 0, 0), false, &variant, 4).unwrap();
    assert!(out.contains("#f00") || out.contains("red"));

    let out = map(decl(&rules, 0, 1), false, &variant, 4).unwrap();
    assert!(out.contains("bg-") && (out.contains("#f00") || out.contains("red")));
}

#[test]
fn mod_test_map_variants() {
    let parsed = parse(".x { padding-top: 16px; }");
    let rules = extract_style_rules(&parsed);
    let variant = TailwindVariant::Hover;
    assert_eq!(map(decl(&rules, 0, 0), false, &variant, 4), Some("hover:pt-4".to_string()));
}

#[test]
fn mod_test_rem_scale_variation() {
    let parsed = parse(".x { padding-top: 16px; }");
    let rules = extract_style_rules(&parsed);
    let variant = TailwindVariant::Base;
    let pt = decl(&rules, 0, 0);

    assert_eq!(map(pt, false, &variant, 4), Some("pt-4".to_string()));
    assert_eq!(map(pt, false, &variant, 1), Some("pt-1".to_string()));
    assert_eq!(map(pt, false, &variant, 5), Some("pt-5".to_string()));
}

#[test]
fn test_map_important() {
    let parsed = parse(".x { display: none !important; color: red !important; }");
    let rules = extract_style_rules(&parsed);
    let variant = TailwindVariant::Base;

    let none_prop = &rules[0].rule.declarations.important_declarations[0];
    assert_eq!(map(none_prop, true, &variant, 4), Some("hidden!".to_string()));

    let color_prop = &rules[0].rule.declarations.important_declarations[1];
    let out = map(color_prop, true, &variant, 4).unwrap();
    assert!(out.ends_with("!"));
    assert!(out.contains("text-"));
}

#[test]
fn test_arbitrary_value_spacing() {
    let parsed = parse(".x { transform: translate(10px, 20px); border: 1px solid red; }");
    let rules = extract_style_rules(&parsed);
    let variant = TailwindVariant::Base;

    let out_tr = map(decl(&rules, 0, 0), false, &variant, 4).unwrap();
    assert!(!out_tr.contains(' '), "Transform contains spaces: {}", out_tr);
    assert!(out_tr.contains('_') || !out_tr.contains("translate(10px, 20px)"));

    let out_bd = map(decl(&rules, 0, 1), false, &variant, 4).unwrap();
    assert!(!out_bd.contains(' '), "Border contains spaces: {}", out_bd);
    assert_eq!(out_bd, "border-[1px_solid_red]");
}

#[test]
fn test_leading_dot_values() {
    let parsed = parse(".x { opacity: .5; margin: .5rem; padding: .25%; width: .125px; }");
    let rules = extract_style_rules(&parsed);
    let variant = TailwindVariant::Base;

    assert_eq!(map(decl(&rules, 0, 0), false, &variant, 4), Some("opacity-[0.5]".to_string()));
    assert_eq!(map(decl(&rules, 0, 1), false, &variant, 4), Some("m-[0.5rem]".to_string()));
    assert_eq!(map(decl(&rules, 0, 2), false, &variant, 4), Some("p-[0.25%]".to_string()));

    let parsed_neg = parse(".neg { margin: -.5rem; opacity: -.1; }");
    let rules_neg = extract_style_rules(&parsed_neg);
    assert_eq!(map(decl(&rules_neg, 0, 0), false, &variant, 4), Some("m-[-0.5rem]".to_string()));
    assert_eq!(map(decl(&rules_neg, 0, 1), false, &variant, 4), Some("opacity-[-0.1]".to_string()));
}

#[test]
fn test_font_size_mapping() {
    let parsed = parse(".x { font-size: 14px; font-size: 16px; font-size: 12px; font-size: 15px; font-size: 1rem; }");
    let rules = extract_style_rules(&parsed);
    let variant = TailwindVariant::Base;

    assert_eq!(map(decl(&rules, 0, 0), false, &variant, 4), Some("text-sm".to_string()));
    assert_eq!(map(decl(&rules, 0, 1), false, &variant, 4), Some("text-base".to_string()));
    assert_eq!(map(decl(&rules, 0, 2), false, &variant, 4), Some("text-xs".to_string()));
    assert_eq!(map(decl(&rules, 0, 3), false, &variant, 4), Some("text-[15px]".to_string()));
    assert_eq!(map(decl(&rules, 0, 4), false, &variant, 4), Some("text-base".to_string()));
}

#[test]
fn test_map_transition() {
    let parsed = parse(".x { transition: opacity 0.3s ease-in-out; transition-property: transform; transition-duration: 200ms; }");
    let rules = extract_style_rules(&parsed);
    let variant = TailwindVariant::Base;

    let out_tr = map(decl(&rules, 0, 0), false, &variant, 4).unwrap();
    println!("out_tr: {}", out_tr);
    assert!(out_tr.contains("transition-[opacity_0.3s_ease-in-out]"));

    let out_tp = map(decl(&rules, 0, 1), false, &variant, 4).unwrap();
    println!("out_tp: {}", out_tp);
    assert_eq!(out_tp, "transition-transform".to_string());

    let out_td = map(decl(&rules, 0, 2), false, &variant, 4).unwrap();
    println!("out_td: {}", out_td);
    assert_eq!(out_td, "duration-[0.2s]".to_string());
}

#[test]
fn test_map_animation() {
    let parsed = parse(".x { animation: spin 1s infinite; animation-name: pulse; animation-duration: 2s; }");
    let rules = extract_style_rules(&parsed);
    let variant = TailwindVariant::Base;

    let out_anim = map(decl(&rules, 0, 0), false, &variant, 4).unwrap();
    println!("out_anim: {}", out_anim);
    assert!(out_anim.contains("spin") && out_anim.contains("1s") && out_anim.contains("infinite"));

    let out_an = map(decl(&rules, 0, 1), false, &variant, 4).unwrap();
    println!("out_an: {}", out_an);
    assert_eq!(out_an, "animate-pulse".to_string());

    let out_ad = map(decl(&rules, 0, 2), false, &variant, 4).unwrap();
    println!("out_ad: {}", out_ad);
    assert_eq!(out_ad, "[animation-duration:2s]".to_string());
}

#[test]
fn test_unknown_property_falls_back_to_arbitrary_property() {
    let parsed = parse(".x { -webkit-line-clamp: 3; }");
    let rules = extract_style_rules(&parsed);
    let out = map(decl(&rules, 0, 0), false, &TailwindVariant::Base, 4).unwrap();
    assert!(out.starts_with('['));
    assert!(out.ends_with(']'));
    assert!(out.contains("line-clamp"));
}

#[test]
fn test_variable_resolution_in_mapping() {
    let parsed = parse(".x { color: var(--brand); }");
    let rules = extract_style_rules(&parsed);
    let mut vars = VariableMap::new();
    vars.insert("--brand".to_string(), "#123456".to_string());
    let out = map_property(decl(&rules, 0, 0), false, &[TailwindVariant::Base], &Decimal::from_int(4), &vars).unwrap();
    assert!(out.contains("#123456"), "{}", out);
}

#[test]
fn test_important_suffix_after_resolved_variables() {
    let parsed = parse(".x { color: var(--brand); width: var(--w); }");
    let rules = extract_style_rules(&parsed);
    let mut vars = VariableMap::new();
    vars.insert("--brand".to_string(), "#123456".to_string());
    vars.insert("--w".to_string(), "10px".to_string());
    let base = [TailwindVariant::Base];
    let rem = Decimal::from_int(4);
    for d in 0..2 {
        let plain = map_property(decl(&rules, 0, d), false, &base, &rem, &vars).unwrap();
        let important = map_property(decl(&rules, 0, d), true, &base, &rem, &vars).unwrap();
        assert_eq!(important, format!("{}!", plain));
        assert!(!plain.ends_with('!'));
    }
}
