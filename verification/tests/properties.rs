use orbtk_core::property::PropertyStore;
use orbtk_core::selector::Selector;
use orbtk_core::types::{Brush, Constraint, String16, Thickness};

#[test]
fn register_then_get_gives_value_back() {
    let mut store = PropertyStore::new();
    store.register("focused", 1, true);
    store.register("font_size", 1, 12u32);
    assert_eq!(store.get::<bool>("focused", 1), Some(&true));
    assert_eq!(store.get::<u32>("font_size", 1), Some(&12));
    assert_eq!(store.len(), 2);
}

#[test]
fn get_of_other_kind_or_entity_is_none() {
    let mut store = PropertyStore::new();
    store.register("focused", 1, true);
    assert!(store.get::<u32>("focused", 1).is_none());
    assert!(store.get::<bool>("focused", 2).is_none());
    assert!(store.get::<bool>("pressed", 1).is_none());
    assert!(store.contains("focused", 1));
    assert!(!store.contains("focused", 2));
}

#[test]
fn register_replaces_existing_value() {
    let mut store = PropertyStore::new();
    store.register("text", 3, String::from("a"));
    store.register("text", 3, String::from("b"));
    assert_eq!(store.len(), 1);
    assert_eq!(store.get::<String>("text", 3).map(|s| s.as_str()), Some("b"));
}

#[test]
fn get_mut_writes_through() {
    let mut store = PropertyStore::new();
    store.register("padding", 0, Thickness::from_value(1));
    if let Some(p) = store.get_mut::<Thickness>("padding", 0) {
        p.set_left(7);
    }
    assert_eq!(
        store.get::<Thickness>("padding", 0),
        Some(&Thickness { left: 7, top: 1, right: 1, bottom: 1 })
    );
    assert!(store.get_mut::<Brush>("padding", 0).is_none());
}

#[test]
fn empty_store_has_nothing() {
    let store = PropertyStore::new();
    assert_eq!(store.len(), 0);
    assert!(store.get::<bool>("focused", 0).is_none());
}

#[test]
fn selector_states_set_and_clear() {
    let mut s = Selector::from_element("button");
    assert!(!s.has_state("focused"));
    s.set_state("focused");
    s.set_state("focused");
    assert!(s.has_state("focused"));
    assert_eq!(s.pseudo_classes.len(), 1);
    s.set_state("pressed");
    s.clear_state("focused");
    assert!(!s.has_state("focused"));
    assert!(s.has_state("pressed"));
    assert!(!s.dirty());
    s.set_dirty(true);
    assert!(s.dirty());
}

#[test]
fn selector_copy_is_same() {
    let mut s = Selector::from_element("button");
    s.set_state("a");
    s.set_state("b");
    let c = s.copy();
    assert!(c.same_as(&s));
    let mut d = s.copy();
    d.clear_state("a");
    assert!(!d.same_as(&s));
    let mut e = Selector::from_element("button");
    e.set_state("b");
    e.set_state("a");
    assert!(e.same_as(&s));
}

#[test]
fn value_types_setters() {
    let mut t = Thickness::from_value(2);
    t.set_thickness(3);
    t.set_top(4);
    t.set_right(5);
    t.set_bottom(6);
    assert_eq!(t, Thickness { left: 3, top: 4, right: 5, bottom: 6 });
    let mut c = Constraint { width: 0, height: 0, min_width: 0, min_height: 0, max_width: 9, max_height: 9 };
    c.set_width(1);
    c.set_height(2);
    c.set_min_width(3);
    c.set_min_height(4);
    c.set_max_width(5);
    c.set_max_height(6);
    assert_eq!(c, Constraint { width: 1, height: 2, min_width: 3, min_height: 4, max_width: 5, max_height: 6 });
    let s = String16::new(vec![]);
    assert!(s.is_empty());
    assert_eq!(String16::new(vec![104, 105]).len(), 2);
    assert_eq!(Brush::SolidColor(0xff00ff00).color(), 0xff00ff00);
}
