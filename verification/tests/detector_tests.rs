use css2tw_core::tailwind::detector::{ConfigDetector, JsProperty, JsValue};

fn prop(key: &str, value: JsValue) -> JsProperty {
    JsProperty { key: Some(key.to_string()), value }
}

#[test]
fn test_detect_theme_sections() {
    let config = vec![prop(
        "theme",
        JsValue::Object(vec![
            prop("spacing", JsValue::Object(vec![prop("18", JsValue::Str("4.5rem".to_string()))])),
            prop(
                "extend",
                JsValue::Object(vec![
                    prop(
                        "colors",
                        JsValue::Object(vec![
                            prop("brand", JsValue::Str("#ff0000".to_string())),
                            prop("n", JsValue::Number("4".to_string())),
                            prop("skip", JsValue::Other),
                        ]),
                    ),
                    prop("screens", JsValue::Object(vec![prop("tablet", JsValue::Str("640px".to_string()))])),
                    prop("spacing", JsValue::Object(vec![prop("18", JsValue::Str("5rem".to_string()))])),
                ]),
            ),
            prop("fontSize", JsValue::Object(vec![prop("x", JsValue::Str("1px".to_string()))])),
        ]),
    )];
    let r = ConfigDetector::analyze(Some("tailwind.config.js".to_string()), &[config]);
    assert_eq!(r.file_found.as_deref(), Some("tailwind.config.js"));
    // the later `extend` value replaces the earlier one
    assert_eq!(r.spacing.get("18").unwrap(), "5rem");
    assert_eq!(r.spacing.len(), 1);
    assert_eq!(r.colors.get("brand").unwrap(), "#ff0000");
    assert_eq!(r.colors.get("n").unwrap(), "4");
    assert!(r.colors.get("skip").is_none());
    assert_eq!(r.screens.get("tablet").unwrap(), "640px");
    assert!(r.font_family.is_empty());
    assert!(!r.arbitrary_utilities);
}

#[test]
fn test_detect_without_file() {
    let r = ConfigDetector::analyze(None, &[]);
    assert!(r.file_found.is_none());
    assert_eq!(r.spacing.len(), 0);
    let names = ConfigDetector::config_files();
    assert_eq!(names, vec!["tailwind.config.js", "tailwind.config.ts", "tailwind.config.mjs", "tailwind.config.cjs"]);
}
