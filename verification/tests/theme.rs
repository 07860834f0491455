use orbtk_core::selector::Selector;
use orbtk_core::theme::{Theme, ThemeRule, ThemeValue};
use orbtk_core::types::Brush;

fn states(names: &[&str]) -> Vec<String> {
    names.iter().map(|s| s.to_string()).collect()
}

#[test]
fn empty_theme_gives_nothing() {
    let theme = Theme::new();
    let sel = Selector::from_element("button");
    assert_eq!(theme.brush("color", &sel), None);
    assert_eq!(theme.uint("width", &sel), None);
    assert_eq!(theme.string("font-family", &sel), None);
    assert_eq!(theme.len(), 0);
}

#[test]
fn last_matching_rule_wins() {
    let theme = Theme::new()
        .with_rule(ThemeRule::new(None, vec![], "color", ThemeValue::Brush(Brush::SolidColor(1))))
        .with_rule(ThemeRule::new(Some("button"), vec![], "color", ThemeValue::Brush(Brush::SolidColor(2))))
        .with_rule(ThemeRule::new(Some("label"), vec![], "color", ThemeValue::Brush(Brush::SolidColor(3))));
    let button = Selector::from_element("button");
    let label = Selector::from_element("label");
    let other = Selector::from_element("grid");
    assert_eq!(theme.brush("color", &button), Some(Brush::SolidColor(2)));
    assert_eq!(theme.brush("color", &label), Some(Brush::SolidColor(3)));
    assert_eq!(theme.brush("color", &other), Some(Brush::SolidColor(1)));
}

#[test]
fn state_rules_apply_only_in_their_states() {
    let theme = Theme::new()
        .with_rule(ThemeRule::new(Some("button"), vec![], "background", ThemeValue::Brush(Brush::SolidColor(10))))
        .with_rule(ThemeRule::new(
            Some("button"),
            states(&["pressed"]),
            "background",
            ThemeValue::Brush(Brush::SolidColor(20)),
        ));
    let mut sel = Selector::from_element("button");
    assert_eq!(theme.brush("background", &sel), Some(Brush::SolidColor(10)));
    sel.set_state("pressed");
    assert_eq!(theme.brush("background", &sel), Some(Brush::SolidColor(20)));
    let mut no_element = Selector::from_element("x");
    no_element.element = None;
    no_element.set_state("pressed");
    assert_eq!(theme.brush("background", &no_element), None);
}

#[test]
fn lookups_are_kind_checked() {
    let theme = Theme::new()
        .with_rule(ThemeRule::new(None, vec![], "font-size", ThemeValue::UInt(14)))
        .with_rule(ThemeRule::new(None, vec![], "font-family", ThemeValue::Str(String::from("Roboto"))));
    let sel = Selector::from_element("text");
    assert_eq!(theme.uint("font-size", &sel), Some(14));
    assert_eq!(theme.brush("font-size", &sel), None);
    assert_eq!(theme.string("font-family", &sel), Some(String::from("Roboto")));
    assert_eq!(theme.uint("font-family", &sel), None);
    assert!(theme.value("spacing", &sel).is_none());
}

#[test]
fn rule_applies_to_checks_element_and_states() {
    let rule = ThemeRule::new(Some("button"), states(&["focused", "pressed"]), "color", ThemeValue::UInt(1));
    let mut sel = Selector::from_element("button");
    sel.set_state("focused");
    assert!(!rule.applies_to(&sel));
    sel.set_state("pressed");
    assert!(rule.applies_to(&sel));
    assert!(!rule.applies_to(&Selector::from_element("label")));
}

#[test]
fn add_rule_appends() {
    let mut theme = Theme::new();
    theme.add_rule(ThemeRule::new(None, vec![], "spacing", ThemeValue::UInt(1)));
    theme.add_rule(ThemeRule::new(None, vec![], "spacing", ThemeValue::UInt(2)));
    assert_eq!(theme.len(), 2);
    assert_eq!(theme.uint("spacing", &Selector::from_element("stack")), Some(2));
}

#[test]
fn float_values_come_back_bit_for_bit() {
    let theme = Theme::new()
        .with_rule(ThemeRule::new(Some("button"), vec![], "opacity", ThemeValue::FloatBits(0.5f32.to_bits())))
        .with_rule(ThemeRule::new(
            Some("button"),
            states(&["disabled"]),
            "opacity",
            ThemeValue::FloatBits(0.25f32.to_bits()),
        ));
    let mut sel = Selector::from_element("button");
    assert_eq!(theme.float_bits("opacity", &sel).map(f32::from_bits), Some(0.5));
    assert_eq!(theme.uint("opacity", &sel), None);
    sel.set_state("disabled");
    assert_eq!(theme.float_bits("opacity", &sel).map(f32::from_bits), Some(0.25));
    assert_eq!(theme.float_bits("color", &sel), None);
}
