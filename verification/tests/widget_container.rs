use orbtk_core::entity::{EntityComponentManager, EntityTree};
use orbtk_core::property::PropertyStore;
use orbtk_core::selector::Selector;
use orbtk_core::theme::{Theme, ThemeRule, ThemeValue};
use orbtk_core::types::{Brush, Constraint, String16, Thickness};
use orbtk_core::widget_container::{update_state, WidgetContainer};

fn states(names: &[&str]) -> Vec<String> {
    names.iter().map(|s| s.to_string()).collect()
}

fn single_entity(store: PropertyStore) -> EntityComponentManager {
    let mut tree = EntityTree::new();
    tree.register_entity(0);
    EntityComponentManager::new(tree, store)
}

fn dirty_selector(element: &str) -> Selector {
    let mut s = Selector::from_element(element);
    s.set_dirty(true);
    s
}

#[test]
fn accessors_read_and_write() {
    let mut store = PropertyStore::new();
    store.register("text", 0, String::from("hello"));
    store.register("enabled", 0, true);
    let mut ecm = single_entity(store);
    let theme = Theme::new();
    let mut w = WidgetContainer::new(0, &mut ecm, &theme);
    assert_eq!(w.entity(), 0);
    assert_eq!(w.get::<String>("text").as_str(), "hello");
    assert!(w.has::<String>("text"));
    assert!(!w.has::<bool>("text"));
    assert!(!w.has::<String>("missing"));
    assert_eq!(w.try_get::<bool>("enabled"), Some(&true));
    assert_eq!(w.try_clone::<bool>("enabled"), Some(true));
    assert_eq!(w.try_clone::<bool>("missing"), None);
    assert_eq!(w.clone::<String>("text"), "hello");
    w.set::<String>("text", String::from("world"));
    assert_eq!(w.get::<String>("text").as_str(), "world");
    *w.get_mut::<bool>("enabled") = false;
    assert_eq!(w.try_clone::<bool>("enabled"), Some(false));
    if let Some(e) = w.try_get_mut::<bool>("enabled") {
        *e = true;
    }
    assert_eq!(w.try_clone::<bool>("enabled"), Some(true));
    assert!(w.try_get_mut::<u32>("enabled").is_none());
}

#[test]
fn clone_or_default_falls_back_to_default() {
    let mut store = PropertyStore::new();
    store.register("spacing", 0, 4u32);
    let mut ecm = single_entity(store);
    let theme = Theme::new();
    let w = WidgetContainer::new(0, &mut ecm, &theme);
    assert_eq!(w.clone_or_default::<u32>("spacing"), 4);
    assert_eq!(w.clone_or_default::<u32>("missing"), 0);
    assert_eq!(w.clone_or_default::<bool>("missing"), false);
    assert_eq!(w.clone_or_default::<String>("missing"), "");
    assert!(w.clone_or_default::<String16>("missing").is_empty());
    assert_eq!(w.clone_or_default::<Thickness>("missing"), Thickness::from_value(0));
    assert_eq!(w.clone_or_default::<Brush>("missing"), Brush::SolidColor(0));
    let c = w.clone_or_default::<Constraint>("missing");
    assert_eq!(c.max_width, u32::MAX);
    assert_eq!(c.min_width, 0);
    assert!(!w.clone_or_default::<Selector>("missing").dirty());
}

#[test]
fn eq_compares_with_property() {
    let mut store = PropertyStore::new();
    store.register("foreground", 0, Brush::SolidColor(5));
    let mut ecm = single_entity(store);
    let theme = Theme::new();
    let w = WidgetContainer::new(0, &mut ecm, &theme);
    assert!(w.eq::<Brush>("foreground", &Brush::SolidColor(5)));
    assert!(!w.eq::<Brush>("foreground", &Brush::SolidColor(6)));
    assert!(!w.eq::<Brush>("background", &Brush::SolidColor(5)));
    assert!(!w.eq::<u32>("foreground", &5));
}

#[test]
fn set_then_get_gives_value_and_leaves_others() {
    let mut store = PropertyStore::new();
    store.register("width", 0, 1u32);
    store.register("height", 0, 2u32);
    let mut ecm = single_entity(store);
    let theme = Theme::new();
    let mut w = WidgetContainer::new(0, &mut ecm, &theme);
    w.set::<u32>("width", 10);
    assert_eq!(*w.get::<u32>("width"), 10);
    assert_eq!(*w.get::<u32>("height"), 2);
}

#[test]
fn update_state_sets_and_clears_and_marks_dirty() {
    let mut store = PropertyStore::new();
    store.register("selector", 0, Selector::from_element("button"));
    let mut ecm = single_entity(store);
    let theme = Theme::new();
    let mut w = WidgetContainer::new(0, &mut ecm, &theme);
    update_state("focused", true, &mut w);
    assert!(w.get::<Selector>("selector").has_state("focused"));
    assert!(w.get::<Selector>("selector").dirty());
    update_state("focused", false, &mut w);
    assert!(!w.get::<Selector>("selector").has_state("focused"));
}

#[test]
fn update_state_without_selector_changes_nothing() {
    let mut store = PropertyStore::new();
    store.register("focused", 0, true);
    let mut ecm = single_entity(store);
    let theme = Theme::new();
    let mut w = WidgetContainer::new(0, &mut ecm, &theme);
    update_state("focused", true, &mut w);
    assert!(!w.has::<Selector>("selector"));
    assert_eq!(w.try_clone::<bool>("focused"), Some(true));
}

fn styled_theme() -> Theme {
    Theme::new()
        .with_rule(ThemeRule::new(Some("button"), vec![], "color", ThemeValue::Brush(Brush::SolidColor(1))))
        .with_rule(ThemeRule::new(Some("button"), vec![], "background", ThemeValue::Brush(Brush::SolidColor(2))))
        .with_rule(ThemeRule::new(Some("button"), vec![], "border-color", ThemeValue::Brush(Brush::SolidColor(3))))
        .with_rule(ThemeRule::new(Some("button"), vec![], "border-radius", ThemeValue::UInt(4)))
        .with_rule(ThemeRule::new(Some("button"), vec![], "border-width", ThemeValue::UInt(2)))
        .with_rule(ThemeRule::new(Some("button"), vec![], "font-size", ThemeValue::UInt(16)))
        .with_rule(ThemeRule::new(Some("button"), vec![], "font-family", ThemeValue::Str(String::from("Roboto"))))
        .with_rule(ThemeRule::new(Some("button"), vec![], "icon-color", ThemeValue::Brush(Brush::SolidColor(9))))
        .with_rule(ThemeRule::new(Some("button"), vec![], "icon-size", ThemeValue::UInt(12)))
        .with_rule(ThemeRule::new(Some("button"), vec![], "icon-family", ThemeValue::Str(String::from("Icons"))))
        .with_rule(ThemeRule::new(Some("button"), vec![], "padding", ThemeValue::UInt(5)))
        .with_rule(ThemeRule::new(Some("button"), vec![], "padding-left", ThemeValue::UInt(8)))
        .with_rule(ThemeRule::new(Some("button"), vec![], "width", ThemeValue::UInt(100)))
        .with_rule(ThemeRule::new(Some("button"), vec![], "max-height", ThemeValue::UInt(40)))
        .with_rule(ThemeRule::new(Some("button"), vec![], "spacing", ThemeValue::UInt(6)))
        .with_rule(ThemeRule::new(
            Some("button"),
            states(&["pressed"]),
            "background",
            ThemeValue::Brush(Brush::SolidColor(20)),
        ))
}

fn styled_store(entity: u32, selector: Selector) -> PropertyStore {
    let mut store = PropertyStore::new();
    store.register("selector", entity, selector);
    store.register("foreground", entity, Brush::SolidColor(0));
    store.register("background", entity, Brush::SolidColor(0));
    store.register("border_brush", entity, Brush::SolidColor(0));
    store.register("border_radius", entity, 0u32);
    store.register("border_width", entity, Thickness::from_value(0));
    store.register("font_size", entity, 0u32);
    store.register("font_family", entity, String::new());
    store.register("icon_brush", entity, Brush::SolidColor(0));
    store.register("icon_size", entity, 0u32);
    store.register("icon_family", entity, String::new());
    store.register("padding", entity, Thickness::from_value(1));
    store.register(
        "constraint",
        entity,
        Constraint { width: 0, height: 7, min_width: 0, min_height: 0, max_width: 0, max_height: 0 },
    );
    store.register("spacing", entity, 0u32);
    store
}

#[test]
fn update_properties_by_theme_with_dirty_selector() {
    let mut ecm = single_entity(styled_store(0, dirty_selector("button")));
    let theme = styled_theme();
    let mut w = WidgetContainer::new(0, &mut ecm, &theme);
    w.update_properties_by_theme();
    assert_eq!(*w.get::<Brush>("foreground"), Brush::SolidColor(1));
    assert_eq!(*w.get::<Brush>("background"), Brush::SolidColor(2));
    assert_eq!(*w.get::<Brush>("border_brush"), Brush::SolidColor(3));
    assert_eq!(*w.get::<u32>("border_radius"), 4);
    assert_eq!(*w.get::<Thickness>("border_width"), Thickness::from_value(2));
    assert_eq!(*w.get::<u32>("font_size"), 16);
    assert_eq!(w.get::<String>("font_family").as_str(), "Roboto");
    assert_eq!(*w.get::<Brush>("icon_brush"), Brush::SolidColor(9));
    assert_eq!(*w.get::<u32>("icon_size"), 12);
    assert_eq!(w.get::<String>("icon_family").as_str(), "Icons");
    assert_eq!(*w.get::<Thickness>("padding"), Thickness { left: 8, top: 5, right: 5, bottom: 5 });
    assert_eq!(
        *w.get::<Constraint>("constraint"),
        Constraint { width: 100, height: 7, min_width: 0, min_height: 0, max_width: 0, max_height: 40 }
    );
    assert_eq!(*w.get::<u32>("spacing"), 6);
    assert!(w.get::<Selector>("selector").dirty());
}

#[test]
fn update_properties_by_theme_with_clean_selector_changes_nothing() {
    let mut ecm = single_entity(styled_store(0, Selector::from_element("button")));
    let theme = styled_theme();
    let mut w = WidgetContainer::new(0, &mut ecm, &theme);
    w.update_properties_by_theme();
    assert_eq!(*w.get::<Brush>("foreground"), Brush::SolidColor(0));
    assert_eq!(*w.get::<Thickness>("padding"), Thickness::from_value(1));
    assert!(!w.get::<Selector>("selector").dirty());
}

#[test]
fn update_properties_by_theme_without_selector_changes_nothing() {
    let mut store = PropertyStore::new();
    store.register("foreground", 0, Brush::SolidColor(0));
    let mut ecm = single_entity(store);
    let theme = styled_theme();
    let mut w = WidgetContainer::new(0, &mut ecm, &theme);
    w.update_properties_by_theme();
    assert_eq!(*w.get::<Brush>("foreground"), Brush::SolidColor(0));
}

#[test]
fn theming_keeps_property_kinds() {
    let mut store = PropertyStore::new();
    store.register("selector", 0, dirty_selector("button"));
    store.register("foreground", 0, 3u32);
    let mut ecm = single_entity(store);
    let theme = styled_theme();
    let mut w = WidgetContainer::new(0, &mut ecm, &theme);
    w.update_theme_by_state(true);
    assert_eq!(w.try_clone::<u32>("foreground"), Some(3));
    assert!(!w.has::<Brush>("foreground"));
    assert!(!w.has::<Brush>("background"));
}

#[test]
fn update_font_properties_by_theme_sets_fonts() {
    let mut ecm = single_entity(styled_store(0, Selector::from_element("button")));
    let theme = styled_theme();
    let mut w = WidgetContainer::new(0, &mut ecm, &theme);
    let sel = Selector::from_element("button");
    w.update_font_properties_by_theme(&sel);
    assert_eq!(*w.get::<u32>("font_size"), 16);
    assert_eq!(w.get::<String>("font_family").as_str(), "Roboto");
    assert_eq!(*w.get::<u32>("icon_size"), 12);
    assert_eq!(*w.get::<Brush>("foreground"), Brush::SolidColor(0));
}

#[test]
fn update_theme_by_state_reads_states_and_themes_subtree() {
    let mut store = styled_store(1, Selector::from_element("button"));
    store.register("pressed", 1, true);
    store.register("enabled", 1, false);
    store.register("expanded", 1, true);
    store.register("text", 1, String16::new(vec![]));
    store.register("selector", 0, Selector::from_element("grid"));
    store.register("focused", 0, true);
    let mut tree = EntityTree::new();
    tree.append_child(0, 1);
    let mut ecm = EntityComponentManager::new(tree, store);
    let theme = styled_theme();
    let mut w = WidgetContainer::new(0, &mut ecm, &theme);
    w.update_theme_by_state(false);
    assert_eq!(w.entity(), 0);
    let root_selector = w.get::<Selector>("selector");
    assert!(root_selector.has_state("focused"));
    assert!(root_selector.dirty());
    drop(w);
    let child = ecm.component_store.get::<Selector>("selector", 1).unwrap();
    assert!(child.has_state("pressed"));
    assert!(child.has_state("disabled"));
    assert!(child.has_state("empty"));
    assert!(!child.has_state("expanded"));
    assert!(!child.has_state("focused"));
    assert!(child.dirty());
    assert_eq!(ecm.component_store.get::<Brush>("background", 1), Some(&Brush::SolidColor(20)));
    assert_eq!(ecm.component_store.get::<Brush>("foreground", 1), Some(&Brush::SolidColor(1)));
}

#[test]
fn theming_stays_in_subtree() {
    let mut store = styled_store(2, dirty_selector("button"));
    store.register("selector", 1, dirty_selector("button"));
    store.register("foreground", 1, Brush::SolidColor(0));
    let mut tree = EntityTree::new();
    tree.append_child(0, 1);
    tree.register_entity(2);
    let mut ecm = EntityComponentManager::new(tree, store);
    let theme = styled_theme();
    let mut w = WidgetContainer::new(1, &mut ecm, &theme);
    w.update_theme_by_state(true);
    drop(w);
    assert_eq!(ecm.component_store.get::<Brush>("foreground", 1), Some(&Brush::SolidColor(1)));
    assert_eq!(ecm.component_store.get::<Brush>("foreground", 2), Some(&Brush::SolidColor(0)));
}

#[test]
fn update_theme_by_state_themes_only_dirty_selectors() {
    let mut ecm = single_entity(styled_store(0, Selector::from_element("button")));
    let theme = styled_theme();
    let mut w = WidgetContainer::new(0, &mut ecm, &theme);
    w.update_theme_by_state(false);
    assert_eq!(*w.get::<Brush>("foreground"), Brush::SolidColor(0));
    w.update_theme_by_state(true);
    assert_eq!(*w.get::<Brush>("foreground"), Brush::SolidColor(0));
    w.get_mut::<Selector>("selector").set_dirty(true);
    w.update_theme_by_state(false);
    assert_eq!(*w.get::<Brush>("foreground"), Brush::SolidColor(1));
}

#[test]
fn entity_tree_registers_and_appends() {
    let mut tree = EntityTree::new();
    tree.append_child(0, 1);
    tree.append_child(0, 2);
    tree.register_entity(0);
    assert_eq!(tree.children(0), &vec![1, 2]);
    assert!(tree.children(1).is_empty());
    assert!(tree.contains(2));
    assert!(!tree.contains(3));
}

fn style_snapshot(w: &WidgetContainer) -> (Vec<Brush>, Vec<u32>, Vec<String>, Vec<Thickness>, Constraint, bool) {
    (
        vec![
            *w.get::<Brush>("foreground"),
            *w.get::<Brush>("background"),
            *w.get::<Brush>("border_brush"),
            *w.get::<Brush>("icon_brush"),
        ],
        vec![
            *w.get::<u32>("border_radius"),
            *w.get::<u32>("font_size"),
            *w.get::<u32>("icon_size"),
            *w.get::<u32>("spacing"),
        ],
        vec![w.clone::<String>("font_family"), w.clone::<String>("icon_family")],
        vec![*w.get::<Thickness>("border_width"), *w.get::<Thickness>("padding")],
        *w.get::<Constraint>("constraint"),
        w.get::<Selector>("selector").dirty(),
    )
}

#[test]
fn theming_twice_is_theming_once() {
    let mut ecm = single_entity(styled_store(0, dirty_selector("button")));
    let theme = styled_theme();
    let mut w = WidgetContainer::new(0, &mut ecm, &theme);
    w.update_properties_by_theme();
    let once = style_snapshot(&w);
    w.update_properties_by_theme();
    let twice = style_snapshot(&w);
    assert_eq!(once, twice);
    assert_eq!(twice.3[1], Thickness { left: 8, top: 5, right: 5, bottom: 5 });
}

#[test]
fn forcing_the_theme_gives_the_same_properties() {
    for dirty in [false, true] {
        let selector = || if dirty { dirty_selector("button") } else { Selector::from_element("button") };
        let mut forced = single_entity(styled_store(0, selector()));
        let mut unforced = single_entity(styled_store(0, selector()));
        let theme = styled_theme();
        let a = {
            let mut w = WidgetContainer::new(0, &mut forced, &theme);
            w.update_theme_by_state(true);
            style_snapshot(&w)
        };
        let b = {
            let mut w = WidgetContainer::new(0, &mut unforced, &theme);
            w.update_theme_by_state(false);
            style_snapshot(&w)
        };
        assert_eq!(a, b);
        assert_eq!(a.0[0], if dirty { Brush::SolidColor(1) } else { Brush::SolidColor(0) });
    }
}
