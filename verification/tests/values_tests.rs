use css2tw_core::number::Decimal;
use css2tw_core::tailwind::values::{
    ensure_leading_zero, escape_arbitrary_value, format_spacing, length_to_tw, map_font_size, map_font_weight,
};
use css2tw_core::variant::TailwindVariant;

#[test]
fn test_ensure_leading_zero_values() {
    assert_eq!(ensure_leading_zero(".5"), "0.5");
    assert_eq!(ensure_leading_zero("-.25rem"), "-0.25rem");
    assert_eq!(ensure_leading_zero("1.5"), "1.5");
}

#[test]
fn test_escape_arbitrary_value_spaces() {
    assert_eq!(escape_arbitrary_value("1px solid red"), "1px_solid_red");
}

#[test]
fn test_format_spacing_sign() {
    assert_eq!(format_spacing("ml", "-3.75"), "-ml-3.75");
    assert_eq!(format_spacing("ml", "4"), "ml-4");
}

#[test]
fn test_length_to_tw_formula() {
    // 24px at 16px per rem and 4 units per rem: 24 / 16 * 4 = 6
    assert_eq!(length_to_tw("24px", &Decimal::from_int(4)), "6");
    // 2rem at 4 units per rem: 8
    assert_eq!(length_to_tw("2rem", &Decimal::from_int(4)), "8");
}

#[test]
fn test_font_size_and_weight_keywords() {
    assert_eq!(map_font_size("14px"), "sm");
    assert_eq!(map_font_size("2.25rem"), "4xl");
    assert_eq!(map_font_weight("700"), "font-bold");
    assert_eq!(map_font_weight("300"), "font-[300]");
}

#[test]
fn test_variant_prefixes() {
    assert_eq!(TailwindVariant::Base.to_prefix(), "");
    assert_eq!(TailwindVariant::Hover.to_prefix(), "hover:");
    assert_eq!(TailwindVariant::Media("md".to_string()).to_prefix(), "md:");
}

#[test]
fn test_leading_zero_and_escape_idempotent() {
    for v in [".5", "-.5rem .25", "calc(.5rem - .1px)", "a..5", "_.5"] {
        let once = ensure_leading_zero(v);
        assert_eq!(ensure_leading_zero(&once), once);
    }
    for v in [".5 1px", "var(--x) .25rem", "a b"] {
        let once = escape_arbitrary_value(v);
        assert_eq!(escape_arbitrary_value(&once), once);
    }
}
