//! Access to the properties of one widget entity, and the application of a
//! theme to a widget and its descendants according to their states.
use vstd::prelude::*;
use crate::entity::{EntityComponentManager, bounded};
use crate::property::{Property, typed_in};
use crate::selector::Selector;
use crate::styling::{
    Props, entity_themed, flag_state, font_themed, lemma_theming_keeps_selector, properties_themed, state_set,
    states_updated, text_state, theme_walk, themed, walk, walk_children,
};
use crate::theme::{RuleView, Theme, brush_of, string_of, uint_of};
use crate::types::{Brush, Constraint, String16, Thickness};

verus! {

/// Wraps the entity of a widget and gives access to its properties.
pub struct WidgetContainer<'a> {
    pub ecm: &'a mut EntityComponentManager,
    pub current_node: u32,
    pub theme: &'a Theme,
}

impl<'a> WidgetContainer<'a> {
    /// The properties of all entities.
    pub closed spec fn properties(&self) -> Props {
        self.ecm.component_store@
    }

    /// The children of each entity.
    pub closed spec fn entity_tree(&self) -> Map<u32, Seq<u32>> {
        self.ecm.entity_store@
    }

    /// The rules of the theme the container styles widgets with.
    pub closed spec fn style(&self) -> Seq<RuleView> {
        self.theme@
    }

    /// The entity the container gives access to.
    pub closed spec fn current(&self) -> u32 {
        self.current_node
    }

    pub closed spec fn inv(&self) -> bool {
        self.ecm.wf()
    }

    /// The property `key` of the current entity, where it is of the kind of `P`.
    pub open spec fn prop<P: Property>(&self, key: Seq<char>) -> Option<P::V> {
        typed_in::<P>(self.properties(), (self.current(), key))
    }

    /// Creates a new widget container for the given `root` entity.
    pub fn new(root: u32, ecm: &'a mut EntityComponentManager, theme: &'a Theme) -> (c: Self)
        requires
            old(ecm).wf(),
        ensures
            c.inv(),
            *final(ecm) == *final(c.ecm),
            c.current() == root,
            c.properties() == old(ecm).component_store@,
            c.entity_tree() == old(ecm).entity_store@,
            c.style() == theme@,
    {
        WidgetContainer { ecm, current_node: root, theme }
    }

    /// Gets the entity of the widget.
    pub fn entity(&self) -> (e: u32)
        ensures
            e == self.current(),
    {
        self.current_node
    }

    /// Gets the property. The widget must hold it.
    pub fn get<P: Property>(&self, key: &str) -> (r: &P)
        requires
            self.inv(),
            self.prop::<P>(key@) is Some,
        ensures
            self.prop::<P>(key@) == Some(r@),
    {
        match self.ecm.component_store.get::<P>(key, self.current_node) {
            Some(p) => p,
            None => vstd::pervasive::unreached(),
        }
    }

    /// Gets a mutable reference of the property of type `P`. The widget must hold it.
    pub fn get_mut<P: Property>(&mut self, key: &str) -> (r: &mut P)
        requires
            old(self).inv(),
            old(self).prop::<P>(key@) is Some,
        ensures
            final(self).inv(),
            *final(final(self).ecm) == *final(old(self).ecm),
            old(self).prop::<P>(key@) == Some(r@),
            final(self).properties() == old(self).properties().insert(
                (old(self).current(), key@),
                P::wrap(final(r)@),
            ),
            final(self).entity_tree() == old(self).entity_tree(),
            final(self).style() == old(self).style(),
            final(self).current() == old(self).current(),
    {
        let e = self.current_node;
        match self.ecm.component_store.get_mut::<P>(key, e) {
            Some(p) => p,
            None => vstd::pervasive::unreached(),
        }
    }

    /// Clones the property. If the widget does not hold it, the default of the property type is returned.
    pub fn clone_or_default<P: Property>(&self, key: &str) -> (r: P)
        requires
            self.inv(),
        ensures
            r@ == match self.prop::<P>(key@) {
                Some(v) => v,
                None => P::default_view(),
            },
    {
        match self.ecm.component_store.get::<P>(key, self.current_node) {
            Some(p) => p.copy_of(),
            None => P::default_value(),
        }
    }

    /// Clones the property. The widget must hold it.
    pub fn clone<P: Property>(&self, key: &str) -> (r: P)
        requires
            self.inv(),
            self.prop::<P>(key@) is Some,
        ensures
            self.prop::<P>(key@) == Some(r@),
    {
        match self.ecm.component_store.get::<P>(key, self.current_node) {
            Some(p) => p.copy_of(),
            None => vstd::pervasive::unreached(),
        }
    }

    /// Clones the property of type `P`; `None` where the widget does not hold it.
    pub fn try_clone<P: Property>(&self, key: &str) -> (r: Option<P>)
        requires
            self.inv(),
        ensures
            match r {
                Some(p) => self.prop::<P>(key@) == Some(p@),
                None => self.prop::<P>(key@) is None,
            },
    {
        match self.ecm.component_store.get::<P>(key, self.current_node) {
            Some(p) => Some(p.copy_of()),
            None => None,
        }
    }

    /// Sets the property of type `P`. The widget must hold it.
    pub fn set<P: Property>(&mut self, key: &str, value: P)
        requires
            old(self).inv(),
            old(self).prop::<P>(key@) is Some,
        ensures
            final(self).inv(),
            *final(final(self).ecm) == *final(old(self).ecm),
            final(self).properties() == old(self).properties().insert((old(self).current(), key@), P::wrap(value@)),
            final(self).entity_tree() == old(self).entity_tree(),
            final(self).style() == old(self).style(),
            final(self).current() == old(self).current(),
    {
        let e = self.current_node;
        match self.ecm.component_store.get_mut::<P>(key, e) {
            Some(p) => {
                *p = value;
            },
            None => vstd::pervasive::unreached(),
        }
    }

    /// Returns `true` if the widget has a property of type `P` otherwise `false`.
    pub fn has<P: Property>(&self, key: &str) -> (b: bool)
        requires
            self.inv(),
        ensures
            b == self.prop::<P>(key@) is Some,
    {
        self.ecm.component_store.get::<P>(key, self.current_node).is_some()
    }

    /// A reference to the property of type `P`; `None` where the widget does not hold it.
    pub fn try_get<P: Property>(&self, key: &str) -> (r: Option<&P>)
        requires
            self.inv(),
        ensures
            match r {
                Some(p) => self.prop::<P>(key@) == Some(p@),
                None => self.prop::<P>(key@) is None,
            },
    {
        self.ecm.component_store.get::<P>(key, self.current_node)
    }

    /// A mutable reference to the property of type `P`; `None` where the widget does not hold it.
    pub fn try_get_mut<P: Property>(&mut self, key: &str) -> (r: Option<&mut P>)
        requires
            old(self).inv(),
        ensures
            final(self).inv(),
            *final(final(self).ecm) == *final(old(self).ecm),
            r is Some <==> old(self).prop::<P>(key@) is Some,
            r matches Some(p) ==> old(self).prop::<P>(key@) == Some(p@),
            r matches Some(p) ==> final(self).properties() == old(self).properties().insert(
                (old(self).current(), key@),
                P::wrap(final(p)@),
            ),
            r is None ==> final(self).properties() == old(self).properties(),
            final(self).entity_tree() == old(self).entity_tree(),
            final(self).style() == old(self).style(),
            final(self).current() == old(self).current(),
    {
        let e = self.current_node;
        self.ecm.component_store.get_mut::<P>(key, e)
    }

    /// Checks if the given value is equal to the given property; `false` where the widget does not hold it.
    pub fn eq<P: Property>(&self, key: &str, other: &P) -> (b: bool)
        requires
            self.inv(),
        ensures
            b == (self.prop::<P>(key@) == Some(other@)),
    {
        match self.try_get::<P>(key) {
            Some(value) => value.same_as(other),
            None => false,
        }
    }

    /// Sets the brush `key` to what the theme gives the style property `property`,
    /// where the widget holds a brush `key` and the theme gives one.
    fn theme_brush(&mut self, key: &str, property: &str, selector: &Selector)
        requires
            old(self).inv(),
        ensures
            final(self).inv(),
            *final(final(self).ecm) == *final(old(self).ecm),
            final(self).properties() == themed::<Brush>(
                old(self).properties(),
                (old(self).current(), key@),
                brush_of(old(self).style(), property@, selector@),
            ),
            final(self).entity_tree() == old(self).entity_tree(),
            final(self).style() == old(self).style(),
            final(self).current() == old(self).current(),
    {
        if self.has::<Brush>(key) {
            if let Some(brush) = self.theme.brush(property, selector) {
                self.set::<Brush>(key, brush);
            }
        }
    }

    /// Sets the number `key` to what the theme gives the style property `property`,
    /// where the widget holds a number `key` and the theme gives one.
    fn theme_uint(&mut self, key: &str, property: &str, selector: &Selector)
        requires
            old(self).inv(),
        ensures
            final(self).inv(),
            *final(final(self).ecm) == *final(old(self).ecm),
            final(self).properties() == themed::<u32>(
                old(self).properties(),
                (old(self).current(), key@),
                uint_of(old(self).style(), property@, selector@),
            ),
            final(self).entity_tree() == old(self).entity_tree(),
            final(self).style() == old(self).style(),
            final(self).current() == old(self).current(),
    {
        if self.has::<u32>(key) {
            if let Some(value) = self.theme.uint(property, selector) {
                self.set::<u32>(key, value);
            }
        }
    }

    /// Sets the text `key` to what the theme gives the style property `property`,
    /// where the widget holds a text `key` and the theme gives one.
    fn theme_string(&mut self, key: &str, property: &str, selector: &Selector)
        requires
            old(self).inv(),
        ensures
            final(self).inv(),
            *final(final(self).ecm) == *final(old(self).ecm),
            final(self).properties() == themed::<String>(
                old(self).properties(),
                (old(self).current(), key@),
                string_of(old(self).style(), property@, selector@),
            ),
            final(self).entity_tree() == old(self).entity_tree(),
            final(self).style() == old(self).style(),
            final(self).current() == old(self).current(),
    {
        if self.has::<String>(key) {
            if let Some(value) = self.theme.string(property, selector) {
                self.set::<String>(key, value);
            }
        }
    }

    /// Updates all style properties of the widget from the theme, where the widget has a
    /// selector and the selector is dirty.
    pub fn update_properties_by_theme(&mut self)
        requires
            old(self).inv(),
        ensures
            final(self).inv(),
            *final(final(self).ecm) == *final(old(self).ecm),
            final(self).properties() == properties_themed(old(self).properties(), old(self).current(), old(self).style()),
            final(self).entity_tree() == old(self).entity_tree(),
            final(self).style() == old(self).style(),
            final(self).current() == old(self).current(),
    {
        if !self.has::<Selector>("selector") {
            return;
        }
        let selector = self.clone::<Selector>("selector");
        if !selector.dirty() {
            return;
        }
        let ghost m0 = self.properties();
        let ghost e = self.current();
        let ghost rules = self.style();
        self.theme_brush("foreground", "color", &selector);
        self.theme_brush("background", "background", &selector);
        self.theme_brush("border_brush", "border-color", &selector);
        self.theme_uint("border_radius", "border-radius", &selector);
        if self.has::<Thickness>("border_width") {
            if let Some(border_width) = self.theme.uint("border-width", &selector) {
                self.set::<Thickness>("border_width", Thickness::from_value(border_width));
            }
        }
        self.update_font_properties_by_theme(&selector);
        if let Some(padding) = self.try_clone::<Thickness>("padding") {
            let mut padding = padding;
            if let Some(pad) = self.theme.uint("padding", &selector) {
                padding.set_thickness(pad);
            }
            if let Some(left) = self.theme.uint("padding-left", &selector) {
                padding.set_left(left);
            }
            if let Some(top) = self.theme.uint("padding-top", &selector) {
                padding.set_top(top);
            }
            if let Some(right) = self.theme.uint("padding-right", &selector) {
                padding.set_right(right);
            }
            if let Some(bottom) = self.theme.uint("padding-bottom", &selector) {
                padding.set_bottom(bottom);
            }
            self.set::<Thickness>("padding", padding);
        }
        if let Some(constraint) = self.try_clone::<Constraint>("constraint") {
            let mut constraint = constraint;
            if let Some(width) = self.theme.uint("width", &selector) {
                constraint.set_width(width);
            }
            if let Some(height) = self.theme.uint("height", &selector) {
                constraint.set_height(height);
            }
            if let Some(min_width) = self.theme.uint("min-width", &selector) {
                constraint.set_min_width(min_width);
            }
            if let Some(min_height) = self.theme.uint("min-height", &selector) {
                constraint.set_min_height(min_height);
            }
            if let Some(max_width) = self.theme.uint("max-width", &selector) {
                constraint.set_max_width(max_width);
            }
            if let Some(max_height) = self.theme.uint("max-height", &selector) {
                constraint.set_max_height(max_height);
            }
            self.set::<Constraint>("constraint", constraint);
        }
        self.theme_uint("spacing", "spacing", &selector);
        proof {
            lemma_theming_keeps_selector(m0, e, selector@, rules, selector@);
        }
        self.get_mut::<Selector>("selector").set_dirty(true);
    }

    fn copy_ids(ids: &Vec<u32>) -> (r: Vec<u32>)
        ensures
            r@ == ids@,
    {
        let n = ids.len();
        let mut r: Vec<u32> = Vec::new();
        let mut i: usize = 0;
        while i < n
            invariant
                n == ids@.len(),
                i <= n,
                r@ == ids@.subrange(0, i as int),
            decreases n - i,
        {
            r.push(ids[i]);
            assert(r@ =~= ids@.subrange(0, i + 1));
            i = i + 1;
        }
        assert(r@ =~= ids@);
        r
    }

    /// Themes the subtree below `entity`: first the subtrees of its children in
    /// order, then `entity` itself, which ends up as the current entity.
    fn update_internal_theme_by_state(&mut self, force: bool, entity: u32, Ghost(fuel): Ghost<nat>)
        requires
            old(self).inv(),
            bounded(old(self).entity_tree(), entity, fuel),
        ensures
            final(self).inv(),
            *final(final(self).ecm) == *final(old(self).ecm),
            final(self).properties() == walk(
                old(self).properties(),
                old(self).entity_tree(),
                entity,
                force,
                old(self).style(),
                fuel,
            ),
            final(self).entity_tree() == old(self).entity_tree(),
            final(self).style() == old(self).style(),
            final(self).current() == entity,
        decreases fuel,
    {
        let ghost tree = self.entity_tree();
        let ghost rules = self.style();
        let ghost m0 = self.properties();
        let children = Self::copy_ids(self.ecm.entity_store.children(entity));
        let n = children.len();
        let mut i: usize = 0;
        while i < n
            invariant
                self.inv(),
                *final(self.ecm) == *final(old(self).ecm),
                self.entity_tree() == tree,
                self.style() == rules,
                bounded(tree, entity, fuel),
                children@ == tree[entity],
                n == children@.len(),
                i <= n,
                walk_children(m0, tree, children@, 0, force, rules, (fuel - 1) as nat) == walk_children(
                    self.properties(),
                    tree,
                    children@,
                    i as nat,
                    force,
                    rules,
                    (fuel - 1) as nat,
                ),
            decreases n - i,
        {
            assert(bounded(tree, tree[entity][i as int], (fuel - 1) as nat));
            self.update_internal_theme_by_state(force, children[i], Ghost((fuel - 1) as nat));
            i = i + 1;
        }
        self.current_node = entity;
        proof {
            assert(walk(m0, tree, entity, force, rules, fuel) == entity_themed(
                walk_children(m0, tree, tree[entity], 0, force, rules, (fuel - 1) as nat),
                entity,
                force,
                rules,
            ));
        }
        self.update_entity_by_state(force);
    }

    /// Updates the states of the current widget from its flags and text, and applies
    /// the theme where its selector is dirty or `force` holds.
    fn update_entity_by_state(&mut self, force: bool)
        requires
            old(self).inv(),
        ensures
            final(self).inv(),
            *final(final(self).ecm) == *final(old(self).ecm),
            final(self).properties() == entity_themed(old(self).properties(), old(self).current(), force, old(self).style()),
            final(self).entity_tree() == old(self).entity_tree(),
            final(self).style() == old(self).style(),
            final(self).current() == old(self).current(),
    {
        if self.try_get::<Selector>("selector").is_some() {
            let ghost m0 = self.properties();
            let ghost e = self.current();
            self.update_flag_state("focused", "focused", false);
            self.update_flag_state("selected", "selected", false);
            self.update_flag_state("pressed", "pressed", false);
            self.update_flag_state("enabled", "disabled", true);
            self.update_text_state();
            self.update_flag_state("expanded", "expanded", true);
            assert(self.properties() == states_updated(m0, e));
            if self.get::<Selector>("selector").dirty || force {
                self.update_properties_by_theme();
            }
        }
    }

    /// Sets the state `state` of the widget from its flag `key`, negated where `negate` holds.
    fn update_flag_state(&mut self, key: &str, state: &str, negate: bool)
        requires
            old(self).inv(),
        ensures
            final(self).inv(),
            *final(final(self).ecm) == *final(old(self).ecm),
            final(self).properties() == flag_state(old(self).properties(), old(self).current(), key@, state@, negate),
            final(self).entity_tree() == old(self).entity_tree(),
            final(self).style() == old(self).style(),
            final(self).current() == old(self).current(),
            typed_in::<Selector>(old(self).properties(), (old(self).current(), "selector"@)) is Some
                ==> typed_in::<Selector>(final(self).properties(), (old(self).current(), "selector"@)) is Some,
    {
        if let Some(flag) = self.try_clone::<bool>(key) {
            update_state(state, flag != negate, self);
        }
    }

    /// Sets the state `empty` of the widget from whether its text is empty.
    fn update_text_state(&mut self)
        requires
            old(self).inv(),
        ensures
            final(self).inv(),
            *final(final(self).ecm) == *final(old(self).ecm),
            final(self).properties() == text_state(old(self).properties(), old(self).current()),
            final(self).entity_tree() == old(self).entity_tree(),
            final(self).style() == old(self).style(),
            final(self).current() == old(self).current(),
            typed_in::<Selector>(old(self).properties(), (old(self).current(), "selector"@)) is Some
                ==> typed_in::<Selector>(final(self).properties(), (old(self).current(), "selector"@)) is Some,
    {
        if let Some(text) = self.try_clone::<String16>("text") {
            update_state("empty", text.is_empty(), self);
        }
    }

    /// Updates the theme of the widget and all widgets below it by their inner state,
    /// e.g. `selected` or `pressed`. Every entity below the widget must be registered
    /// in the entity tree, and the tree below it must be finite.
    pub fn update_theme_by_state(&mut self, force: bool)
        requires
            old(self).inv(),
            exists|fuel: nat| bounded(old(self).entity_tree(), old(self).current(), fuel),
        ensures
            final(self).inv(),
            *final(final(self).ecm) == *final(old(self).ecm),
            final(self).properties() == theme_walk(
                old(self).properties(),
                old(self).entity_tree(),
                old(self).current(),
                force,
                old(self).style(),
            ),
            final(self).entity_tree() == old(self).entity_tree(),
            final(self).style() == old(self).style(),
            final(self).current() == old(self).current(),
    {
        let ghost fuel = choose|fuel: nat| bounded(self.entity_tree(), self.current(), fuel);
        let entity = self.current_node;
        self.update_internal_theme_by_state(force, entity, Ghost(fuel));
    }

    /// Applies the font and icon style properties of the theme for `selector`.
    pub fn update_font_properties_by_theme(&mut self, selector: &Selector)
        requires
            old(self).inv(),
        ensures
            final(self).inv(),
            *final(final(self).ecm) == *final(old(self).ecm),
            final(self).properties() == font_themed(old(self).properties(), old(self).current(), selector@, old(self).style()),
            final(self).entity_tree() == old(self).entity_tree(),
            final(self).style() == old(self).style(),
            final(self).current() == old(self).current(),
    {
        self.theme_uint("font_size", "font-size", selector);
        self.theme_string("font_family", "font-family", selector);
        self.theme_brush("icon_brush", "icon-color", selector);
        self.theme_uint("icon_size", "icon-size", selector);
        self.theme_string("icon_family", "icon-family", selector);
    }
}

/// Puts the widget's selector into the state `state` where `value` holds, takes it out
/// of it otherwise, and marks it dirty; without a selector nothing changes.
pub fn update_state(state: &str, value: bool, widget: &mut WidgetContainer)
    requires
        old(widget).inv(),
    ensures
        final(widget).inv(),
        *final(final(widget).ecm) == *final(old(widget).ecm),
        final(widget).properties() == state_set(old(widget).properties(), old(widget).current(), state@, value),
        final(widget).entity_tree() == old(widget).entity_tree(),
        final(widget).style() == old(widget).style(),
        final(widget).current() == old(widget).current(),
{
    if let Some(selector) = widget.try_get_mut::<Selector>("selector") {
        if value {
            selector.set_state(state);
        } else {
            selector.clear_state(state);
        }
        selector.set_dirty(true);
    }
}

} // verus!
