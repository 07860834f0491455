//! What applying a theme does to the properties of widgets, stated over the
//! properties of all entities.
use vstd::prelude::*;
use crate::property::{Property, PropertyView, kind, typed_in};
use crate::selector::{Selector, SelectorView};
use crate::theme::{RuleView, brush_of, string_of, uint_of};
use crate::types::{Brush, Constraint, String16, Thickness};
use crate::entity::bounded;

verus! {

/// The properties of all entities, by entity and property name.
pub type Props = Map<(u32, Seq<char>), PropertyView>;

/// `m` with the property `k` set to `v`, where `m` holds `k` as a `P` and `v` is a value.
pub open spec fn themed<P: Property>(m: Props, k: (u32, Seq<char>), v: Option<P::V>) -> Props {
    if typed_in::<P>(m, k) is Some && v is Some {
        m.insert(k, P::wrap(v->0))
    } else {
        m
    }
}

/// The thickness with every side `v`, where there is a `v`.
pub open spec fn all_sides(v: Option<u32>) -> Option<Thickness> {
    match v {
        Some(w) => Some(Thickness { left: w, top: w, right: w, bottom: w }),
        None => None,
    }
}

/// The font and icon properties of `e` after theming with selector `sel`.
pub open spec fn font_themed(m: Props, e: u32, sel: SelectorView, rules: Seq<RuleView>) -> Props {
    let m = themed::<u32>(m, (e, "font_size"@), uint_of(rules, "font-size"@, sel));
    let m = themed::<String>(m, (e, "font_family"@), string_of(rules, "font-family"@, sel));
    let m = themed::<Brush>(m, (e, "icon_brush"@), brush_of(rules, "icon-color"@, sel));
    let m = themed::<u32>(m, (e, "icon_size"@), uint_of(rules, "icon-size"@, sel));
    themed::<String>(m, (e, "icon_family"@), string_of(rules, "icon-family"@, sel))
}

/// The padding `p` after theming: the uniform padding first, then each side.
pub open spec fn padded(p: Thickness, sel: SelectorView, rules: Seq<RuleView>) -> Thickness {
    let p = match uint_of(rules, "padding"@, sel) {
        Some(v) => Thickness { left: v, top: v, right: v, bottom: v },
        None => p,
    };
    let p = match uint_of(rules, "padding-left"@, sel) {
        Some(v) => Thickness { left: v, ..p },
        None => p,
    };
    let p = match uint_of(rules, "padding-top"@, sel) {
        Some(v) => Thickness { top: v, ..p },
        None => p,
    };
    let p = match uint_of(rules, "padding-right"@, sel) {
        Some(v) => Thickness { right: v, ..p },
        None => p,
    };
    match uint_of(rules, "padding-bottom"@, sel) {
        Some(v) => Thickness { bottom: v, ..p },
        None => p,
    }
}

pub open spec fn padding_themed(m: Props, e: u32, sel: SelectorView, rules: Seq<RuleView>) -> Props {
    match typed_in::<Thickness>(m, (e, "padding"@)) {
        Some(p) => m.insert((e, "padding"@), Thickness::wrap(padded(p, sel, rules))),
        None => m,
    }
}

/// The constraint `c` after theming.
pub open spec fn constrained(c: Constraint, sel: SelectorView, rules: Seq<RuleView>) -> Constraint {
    let c = match uint_of(rules, "width"@, sel) {
        Some(v) => Constraint { width: v, ..c },
        None => c,
    };
    let c = match uint_of(rules, "height"@, sel) {
        Some(v) => Constraint { height: v, ..c },
        None => c,
    };
    let c = match uint_of(rules, "min-width"@, sel) {
        Some(v) => Constraint { min_width: v, ..c },
        None => c,
    };
    let c = match uint_of(rules, "min-height"@, sel) {
        Some(v) => Constraint { min_height: v, ..c },
        None => c,
    };
    let c = match uint_of(rules, "max-width"@, sel) {
        Some(v) => Constraint { max_width: v, ..c },
        None => c,
    };
    match uint_of(rules, "max-height"@, sel) {
        Some(v) => Constraint { max_height: v, ..c },
        None => c,
    }
}

pub open spec fn constraint_themed(m: Props, e: u32, sel: SelectorView, rules: Seq<RuleView>) -> Props {
    match typed_in::<Constraint>(m, (e, "constraint"@)) {
        Some(c) => m.insert((e, "constraint"@), Constraint::wrap(constrained(c, sel, rules))),
        None => m,
    }
}

/// Every style property of `e` after theming with selector `sel`.
pub open spec fn themed_properties(m: Props, e: u32, sel: SelectorView, rules: Seq<RuleView>) -> Props {
    let m = themed::<Brush>(m, (e, "foreground"@), brush_of(rules, "color"@, sel));
    let m = themed::<Brush>(m, (e, "background"@), brush_of(rules, "background"@, sel));
    let m = themed::<Brush>(m, (e, "border_brush"@), brush_of(rules, "border-color"@, sel));
    let m = themed::<u32>(m, (e, "border_radius"@), uint_of(rules, "border-radius"@, sel));
    let m = themed::<Thickness>(m, (e, "border_width"@), all_sides(uint_of(rules, "border-width"@, sel)));
    let m = font_themed(m, e, sel, rules);
    let m = padding_themed(m, e, sel, rules);
    let m = constraint_themed(m, e, sel, rules);
    themed::<u32>(m, (e, "spacing"@), uint_of(rules, "spacing"@, sel))
}

/// `m` with the selector of `e` marked dirty.
pub open spec fn marked_dirty(m: Props, e: u32) -> Props {
    match typed_in::<Selector>(m, (e, "selector"@)) {
        Some(s) => m.insert((e, "selector"@), Selector::wrap(SelectorView { dirty: true, ..s })),
        None => m,
    }
}

/// The properties after the theme is applied to `e`: nothing changes unless `e`
/// has a selector and it is dirty.
pub open spec fn properties_themed(m: Props, e: u32, rules: Seq<RuleView>) -> Props {
    match typed_in::<Selector>(m, (e, "selector"@)) {
        Some(sel) => if sel.dirty {
            marked_dirty(themed_properties(m, e, sel, rules), e)
        } else {
            m
        },
        None => m,
    }
}

/// The properties after the selector of `e` is put into `state` (where `value`)
/// or taken out of it (where not), and marked dirty.
pub open spec fn state_set(m: Props, e: u32, state: Seq<char>, value: bool) -> Props {
    match typed_in::<Selector>(m, (e, "selector"@)) {
        Some(s) => m.insert(
            (e, "selector"@),
            Selector::wrap(
                SelectorView {
                    pseudo_classes: if value {
                        s.pseudo_classes.insert(state)
                    } else {
                        s.pseudo_classes.remove(state)
                    },
                    dirty: true,
                    ..s
                },
            ),
        ),
        None => m,
    }
}

/// The properties after the state `state` of `e` is set from its flag `key`: to the
/// flag where `negate` does not hold, to its negation where it does.
pub open spec fn flag_state(m: Props, e: u32, key: Seq<char>, state: Seq<char>, negate: bool) -> Props {
    match typed_in::<bool>(m, (e, key)) {
        Some(v) => state_set(m, e, state, v != negate),
        None => m,
    }
}

/// The properties after the state `empty` of `e` is set from whether its text is empty.
pub open spec fn text_state(m: Props, e: u32) -> Props {
    match typed_in::<String16>(m, (e, "text"@)) {
        Some(t) => state_set(m, e, "empty"@, t.len() == 0),
        None => m,
    }
}

/// The properties after the states of `e` are read from its flags and text.
pub open spec fn states_updated(m: Props, e: u32) -> Props {
    let m = flag_state(m, e, "focused"@, "focused"@, false);
    let m = flag_state(m, e, "selected"@, "selected"@, false);
    let m = flag_state(m, e, "pressed"@, "pressed"@, false);
    let m = flag_state(m, e, "enabled"@, "disabled"@, true);
    let m = text_state(m, e);
    flag_state(m, e, "expanded"@, "expanded"@, true)
}

/// The properties after the states of `e` are updated and, where its selector is
/// dirty or `force` holds, the theme is applied to it.
pub open spec fn entity_themed(m: Props, e: u32, force: bool, rules: Seq<RuleView>) -> Props {
    if typed_in::<Selector>(m, (e, "selector"@)) is Some {
        let m1 = states_updated(m, e);
        match typed_in::<Selector>(m1, (e, "selector"@)) {
            Some(s) => if s.dirty || force {
                properties_themed(m1, e, rules)
            } else {
                m1
            },
            None => m1,
        }
    } else {
        m
    }
}

/// The properties after the subtree below `e` is themed, children first, in order.
pub open spec fn walk(m: Props, tree: Map<u32, Seq<u32>>, e: u32, force: bool, rules: Seq<RuleView>, fuel: nat) -> Props
    decreases fuel, 0nat, 0nat,
{
    if fuel == 0 {
        m
    } else {
        let after = walk_children(m, tree, tree[e], 0, force, rules, (fuel - 1) as nat);
        entity_themed(after, e, force, rules)
    }
}

/// The properties after the subtrees below `cs[i..]` are themed in order.
pub open spec fn walk_children(
    m: Props,
    tree: Map<u32, Seq<u32>>,
    cs: Seq<u32>,
    i: nat,
    force: bool,
    rules: Seq<RuleView>,
    fuel: nat,
) -> Props
    decreases fuel, 1nat, cs.len() - i,
{
    if i >= cs.len() {
        m
    } else {
        walk_children(walk(m, tree, cs[i as int], force, rules, fuel), tree, cs, i + 1, force, rules, fuel)
    }
}

/// The properties after the whole subtree below `e` is themed.
pub open spec fn theme_walk(m: Props, tree: Map<u32, Seq<u32>>, e: u32, force: bool, rules: Seq<RuleView>) -> Props {
    walk(m, tree, e, force, rules, choose|fuel: nat| bounded(tree, e, fuel))
}

/// Setting a property of another kind leaves the selector `q` as it is.
pub proof fn lemma_themed_keeps_selector<P: Property>(m: Props, k: (u32, Seq<char>), v: Option<P::V>, q: (u32, Seq<char>))
    requires
        typed_in::<P>(m, q) is None,
    ensures
        typed_in::<Selector>(themed::<P>(m, k, v), q) == typed_in::<Selector>(m, q),
{
    if typed_in::<P>(m, k) is Some && v is Some {
        assert(k != q);
        assert(themed::<P>(m, k, v) == m.insert(k, P::wrap(v->0)));
    }
}

/// A relation between property maps that composes, and that holds across every single
/// step of theming the style properties of `e`, holds across theming them all.
proof fn lemma_style_chain(m: Props, e: u32, sel: SelectorView, rules: Seq<RuleView>, rel: spec_fn(Props, Props) -> bool)
    requires
        forall|a: Props, b: Props, c: Props| #[trigger] rel(a, b) && #[trigger] rel(b, c) ==> rel(a, c),
        forall|a: Props, k: Seq<char>, v: Option<Brush>| #[trigger] rel(a, themed::<Brush>(a, (e, k), v)),
        forall|a: Props, k: Seq<char>, v: Option<u32>| #[trigger] rel(a, themed::<u32>(a, (e, k), v)),
        forall|a: Props, k: Seq<char>, v: Option<Seq<char>>| #[trigger] rel(a, themed::<String>(a, (e, k), v)),
        forall|a: Props, k: Seq<char>, v: Option<Thickness>| #[trigger] rel(a, themed::<Thickness>(a, (e, k), v)),
        forall|a: Props| #[trigger] rel(a, padding_themed(a, e, sel, rules)),
        forall|a: Props| #[trigger] rel(a, constraint_themed(a, e, sel, rules)),
    ensures
        rel(m, themed_properties(m, e, sel, rules)),
{
    let m1 = themed::<Brush>(m, (e, "foreground"@), brush_of(rules, "color"@, sel));
    let m2 = themed::<Brush>(m1, (e, "background"@), brush_of(rules, "background"@, sel));
    let m3 = themed::<Brush>(m2, (e, "border_brush"@), brush_of(rules, "border-color"@, sel));
    let m4 = themed::<u32>(m3, (e, "border_radius"@), uint_of(rules, "border-radius"@, sel));
    let m5 = themed::<Thickness>(m4, (e, "border_width"@), all_sides(uint_of(rules, "border-width"@, sel)));
    let f1 = themed::<u32>(m5, (e, "font_size"@), uint_of(rules, "font-size"@, sel));
    let f2 = themed::<String>(f1, (e, "font_family"@), string_of(rules, "font-family"@, sel));
    let f3 = themed::<Brush>(f2, (e, "icon_brush"@), brush_of(rules, "icon-color"@, sel));
    let f4 = themed::<u32>(f3, (e, "icon_size"@), uint_of(rules, "icon-size"@, sel));
    let m6 = themed::<String>(f4, (e, "icon_family"@), string_of(rules, "icon-family"@, sel));
    let m7 = padding_themed(m6, e, sel, rules);
    let m8 = constraint_themed(m7, e, sel, rules);
    let m9 = themed::<u32>(m8, (e, "spacing"@), uint_of(rules, "spacing"@, sel));
    assert(m9 == themed_properties(m, e, sel, rules));
    assert(rel(m, m1) && rel(m1, m2));
    assert(rel(m, m2) && rel(m2, m3));
    assert(rel(m, m3) && rel(m3, m4));
    assert(rel(m, m4) && rel(m4, m5));
    assert(rel(m, m5) && rel(m5, f1));
    assert(rel(m, f1) && rel(f1, f2));
    assert(rel(m, f2) && rel(f2, f3));
    assert(rel(m, f3) && rel(f3, f4));
    assert(rel(m, f4) && rel(f4, m6));
    assert(rel(m, m6) && rel(m6, m7));
    assert(rel(m, m7) && rel(m7, m8));
    assert(rel(m, m8) && rel(m8, m9));
}

/// A relation between property maps that composes, is reflexive, and holds across
/// setting one state of `e`, holds across reading all states of `e`.
proof fn lemma_states_chain(m: Props, e: u32, rel: spec_fn(Props, Props) -> bool)
    requires
        forall|a: Props, b: Props, c: Props| #[trigger] rel(a, b) && #[trigger] rel(b, c) ==> rel(a, c),
        forall|a: Props| #[trigger] rel(a, a),
        forall|a: Props, state: Seq<char>, v: bool| #[trigger] rel(a, state_set(a, e, state, v)),
    ensures
        rel(m, states_updated(m, e)),
{
    let m1 = flag_state(m, e, "focused"@, "focused"@, false);
    let m2 = flag_state(m1, e, "selected"@, "selected"@, false);
    let m3 = flag_state(m2, e, "pressed"@, "pressed"@, false);
    let m4 = flag_state(m3, e, "enabled"@, "disabled"@, true);
    let m5 = text_state(m4, e);
    let m6 = flag_state(m5, e, "expanded"@, "expanded"@, true);
    assert(rel(m, m1)) by {
        if let Some(v) = typed_in::<bool>(m, (e, "focused"@)) {
            assert(rel(m, state_set(m, e, "focused"@, v != false)));
        } else {
            assert(rel(m, m));
        }
    }
    assert(rel(m1, m2)) by {
        if let Some(v) = typed_in::<bool>(m1, (e, "selected"@)) {
            assert(rel(m1, state_set(m1, e, "selected"@, v != false)));
        } else {
            assert(rel(m1, m1));
        }
    }
    assert(rel(m2, m3)) by {
        if let Some(v) = typed_in::<bool>(m2, (e, "pressed"@)) {
            assert(rel(m2, state_set(m2, e, "pressed"@, v != false)));
        } else {
            assert(rel(m2, m2));
        }
    }
    assert(rel(m3, m4)) by {
        if let Some(v) = typed_in::<bool>(m3, (e, "enabled"@)) {
            assert(rel(m3, state_set(m3, e, "disabled"@, v != true)));
        } else {
            assert(rel(m3, m3));
        }
    }
    assert(rel(m4, m5)) by {
        if let Some(t) = typed_in::<String16>(m4, (e, "text"@)) {
            assert(rel(m4, state_set(m4, e, "empty"@, t.len() == 0)));
        } else {
            assert(rel(m4, m4));
        }
    }
    assert(rel(m5, m6)) by {
        if let Some(v) = typed_in::<bool>(m5, (e, "expanded"@)) {
            assert(rel(m5, state_set(m5, e, "expanded"@, v != true)));
        } else {
            assert(rel(m5, m5));
        }
    }
    assert(rel(m, m2));
    assert(rel(m, m3));
    assert(rel(m, m4));
    assert(rel(m, m5));
    assert(rel(m, m6));
}

/// Theming the style properties of `e` leaves its selector as it is.
pub proof fn lemma_theming_keeps_selector(m: Props, e: u32, sel: SelectorView, rules: Seq<RuleView>, s: SelectorView)
    requires
        typed_in::<Selector>(m, (e, "selector"@)) == Some(s),
    ensures
        typed_in::<Selector>(themed_properties(m, e, sel, rules), (e, "selector"@)) == Some(s),
{
    let q = (e, "selector"@);
    let rel = |a: Props, b: Props| typed_in::<Selector>(a, q) == Some(s) ==> typed_in::<Selector>(b, q) == Some(s);
    assert forall|a: Props, k: Seq<char>, v: Option<Brush>| #[trigger] rel(a, themed::<Brush>(a, (e, k), v)) by {
        if typed_in::<Selector>(a, q) == Some(s) {
            lemma_themed_keeps_selector::<Brush>(a, (e, k), v, q);
        }
    }
    assert forall|a: Props, k: Seq<char>, v: Option<u32>| #[trigger] rel(a, themed::<u32>(a, (e, k), v)) by {
        if typed_in::<Selector>(a, q) == Some(s) {
            lemma_themed_keeps_selector::<u32>(a, (e, k), v, q);
        }
    }
    assert forall|a: Props, k: Seq<char>, v: Option<Seq<char>>| #[trigger] rel(a, themed::<String>(a, (e, k), v)) by {
        if typed_in::<Selector>(a, q) == Some(s) {
            lemma_themed_keeps_selector::<String>(a, (e, k), v, q);
        }
    }
    assert forall|a: Props, k: Seq<char>, v: Option<Thickness>| #[trigger] rel(a, themed::<Thickness>(a, (e, k), v)) by {
        if typed_in::<Selector>(a, q) == Some(s) {
            lemma_themed_keeps_selector::<Thickness>(a, (e, k), v, q);
        }
    }
    assert forall|a: Props| #[trigger] rel(a, padding_themed(a, e, sel, rules)) by {}
    assert forall|a: Props| #[trigger] rel(a, constraint_themed(a, e, sel, rules)) by {}
    lemma_style_chain(m, e, sel, rules, rel);
}

/// `a` and `b` hold properties under the same keys, of the same kinds.
pub open spec fn same_kinds(a: Props, b: Props) -> bool {
    &&& a.dom() == b.dom()
    &&& forall|q: (u32, Seq<char>)| #[trigger] a.contains_key(q) ==> kind(a[q]) == kind(b[q])
}

proof fn lemma_same_kinds_trans(a: Props, b: Props, c: Props)
    requires
        same_kinds(a, b),
        same_kinds(b, c),
    ensures
        same_kinds(a, c),
{
    assert forall|q: (u32, Seq<char>)| #[trigger] a.contains_key(q) implies kind(a[q]) == kind(c[q]) by {
        assert(b.contains_key(q));
    }
}

proof fn lemma_insert_same_kind(m: Props, k: (u32, Seq<char>), x: PropertyView)
    requires
        m.contains_key(k),
        kind(x) == kind(m[k]),
    ensures
        same_kinds(m, m.insert(k, x)),
{
    assert(m.insert(k, x).dom() =~= m.dom());
}

proof fn lemma_themed_kinds<P: Property>(m: Props, k: (u32, Seq<char>), v: Option<P::V>)
    ensures
        same_kinds(m, themed::<P>(m, k, v)),
{
    if typed_in::<P>(m, k) is Some && v is Some {
        P::lemma_kind(v->0, m[k]);
        lemma_insert_same_kind(m, k, P::wrap(v->0));
    } else {
        assert(m.dom() =~= m.dom());
    }
}

proof fn lemma_selector_insert_kinds(m: Props, k: (u32, Seq<char>), s: SelectorView)
    requires
        typed_in::<Selector>(m, k) is Some,
    ensures
        same_kinds(m, m.insert(k, Selector::wrap(s))),
{
    lemma_insert_same_kind(m, k, Selector::wrap(s));
}

proof fn lemma_themed_properties_kinds(m: Props, e: u32, sel: SelectorView, rules: Seq<RuleView>)
    ensures
        same_kinds(m, themed_properties(m, e, sel, rules)),
{
    let rel = |a: Props, b: Props| same_kinds(a, b);
    assert forall|a: Props, b: Props, c: Props| #[trigger] rel(a, b) && #[trigger] rel(b, c) implies rel(a, c) by {
        lemma_same_kinds_trans(a, b, c);
    }
    assert forall|a: Props, k: Seq<char>, v: Option<Brush>| #[trigger] rel(a, themed::<Brush>(a, (e, k), v)) by {
        lemma_themed_kinds::<Brush>(a, (e, k), v);
    }
    assert forall|a: Props, k: Seq<char>, v: Option<u32>| #[trigger] rel(a, themed::<u32>(a, (e, k), v)) by {
        lemma_themed_kinds::<u32>(a, (e, k), v);
    }
    assert forall|a: Props, k: Seq<char>, v: Option<Seq<char>>| #[trigger] rel(a, themed::<String>(a, (e, k), v)) by {
        lemma_themed_kinds::<String>(a, (e, k), v);
    }
    assert forall|a: Props, k: Seq<char>, v: Option<Thickness>| #[trigger] rel(a, themed::<Thickness>(a, (e, k), v)) by {
        lemma_themed_kinds::<Thickness>(a, (e, k), v);
    }
    assert forall|a: Props| #[trigger] rel(a, padding_themed(a, e, sel, rules)) by {
        if let Some(p) = typed_in::<Thickness>(a, (e, "padding"@)) {
            lemma_insert_same_kind(a, (e, "padding"@), Thickness::wrap(padded(p, sel, rules)));
        } else {
            assert(a.dom() =~= a.dom());
        }
    }
    assert forall|a: Props| #[trigger] rel(a, constraint_themed(a, e, sel, rules)) by {
        if let Some(c) = typed_in::<Constraint>(a, (e, "constraint"@)) {
            lemma_insert_same_kind(a, (e, "constraint"@), Constraint::wrap(constrained(c, sel, rules)));
        } else {
            assert(a.dom() =~= a.dom());
        }
    }
    lemma_style_chain(m, e, sel, rules, rel);
}

proof fn lemma_properties_themed_kinds(m: Props, e: u32, rules: Seq<RuleView>)
    ensures
        same_kinds(m, properties_themed(m, e, rules)),
{
    match typed_in::<Selector>(m, (e, "selector"@)) {
        Some(sel) => {
            if sel.dirty {
                let t = themed_properties(m, e, sel, rules);
                lemma_themed_properties_kinds(m, e, sel, rules);
                lemma_theming_keeps_selector(m, e, sel, rules, sel);
                lemma_selector_insert_kinds(t, (e, "selector"@), SelectorView { dirty: true, ..sel });
                lemma_same_kinds_trans(m, t, marked_dirty(t, e));
            } else {
                assert(m.dom() =~= m.dom());
            }
        },
        None => {
            assert(m.dom() =~= m.dom());
        },
    }
}

proof fn lemma_state_set_kinds(m: Props, e: u32, state: Seq<char>, value: bool)
    ensures
        same_kinds(m, state_set(m, e, state, value)),
        typed_in::<Selector>(m, (e, "selector"@)) is Some ==> typed_in::<Selector>(state_set(m, e, state, value), (e, "selector"@)) is Some,
{
    match typed_in::<Selector>(m, (e, "selector"@)) {
        Some(s) => {
            let x = SelectorView {
                pseudo_classes: if value { s.pseudo_classes.insert(state) } else { s.pseudo_classes.remove(state) },
                dirty: true,
                ..s
            };
            lemma_selector_insert_kinds(m, (e, "selector"@), x);
        },
        None => {
            assert(m.dom() =~= m.dom());
        },
    }
}

proof fn lemma_states_updated_kinds(m: Props, e: u32)
    ensures
        same_kinds(m, states_updated(m, e)),
{
    let rel = |a: Props, b: Props| same_kinds(a, b);
    assert forall|a: Props, b: Props, c: Props| #[trigger] rel(a, b) && #[trigger] rel(b, c) implies rel(a, c) by {
        lemma_same_kinds_trans(a, b, c);
    }
    assert forall|a: Props| #[trigger] rel(a, a) by {
        assert(a.dom() =~= a.dom());
    }
    assert forall|a: Props, state: Seq<char>, v: bool| #[trigger] rel(a, state_set(a, e, state, v)) by {
        lemma_state_set_kinds(a, e, state, v);
    }
    lemma_states_chain(m, e, rel);
}

proof fn lemma_entity_themed_kinds(m: Props, e: u32, force: bool, rules: Seq<RuleView>)
    ensures
        same_kinds(m, entity_themed(m, e, force, rules)),
{
    if typed_in::<Selector>(m, (e, "selector"@)) is Some {
        let m1 = states_updated(m, e);
        lemma_states_updated_kinds(m, e);
        match typed_in::<Selector>(m1, (e, "selector"@)) {
            Some(s) => {
                if s.dirty || force {
                    lemma_properties_themed_kinds(m1, e, rules);
                    lemma_same_kinds_trans(m, m1, properties_themed(m1, e, rules));
                }
            },
            None => {},
        }
    } else {
        assert(m.dom() =~= m.dom());
    }
}

proof fn lemma_walk_kinds(m: Props, tree: Map<u32, Seq<u32>>, e: u32, force: bool, rules: Seq<RuleView>, fuel: nat)
    ensures
        same_kinds(m, walk(m, tree, e, force, rules, fuel)),
    decreases fuel, 0nat, 0nat,
{
    if fuel == 0 {
        assert(m.dom() =~= m.dom());
    } else {
        let after = walk_children(m, tree, tree[e], 0, force, rules, (fuel - 1) as nat);
        lemma_walk_children_kinds(m, tree, tree[e], 0, force, rules, (fuel - 1) as nat);
        lemma_entity_themed_kinds(after, e, force, rules);
        lemma_same_kinds_trans(m, after, entity_themed(after, e, force, rules));
    }
}

proof fn lemma_walk_children_kinds(
    m: Props,
    tree: Map<u32, Seq<u32>>,
    cs: Seq<u32>,
    i: nat,
    force: bool,
    rules: Seq<RuleView>,
    fuel: nat,
)
    ensures
        same_kinds(m, walk_children(m, tree, cs, i, force, rules, fuel)),
    decreases fuel, 1nat, cs.len() - i,
{
    if i >= cs.len() {
        assert(m.dom() =~= m.dom());
    } else {
        let m1 = walk(m, tree, cs[i as int], force, rules, fuel);
        lemma_walk_kinds(m, tree, cs[i as int], force, rules, fuel);
        lemma_walk_children_kinds(m1, tree, cs, i + 1, force, rules, fuel);
        lemma_same_kinds_trans(m, m1, walk_children(m1, tree, cs, i + 1, force, rules, fuel));
    }
}

/// Applying a theme to a widget subtree by state never adds or removes a property,
/// nor changes the kind of one: only values change.
pub proof fn law_theming_keeps_property_kinds(m: Props, tree: Map<u32, Seq<u32>>, e: u32, force: bool, rules: Seq<RuleView>)
    ensures
        same_kinds(m, theme_walk(m, tree, e, force, rules)),
{
    lemma_walk_kinds(m, tree, e, force, rules, choose|fuel: nat| bounded(tree, e, fuel));
}

/// Applying the theme to a widget whose selector is missing or clean changes nothing.
pub proof fn law_clean_selector_is_left_alone(m: Props, e: u32, rules: Seq<RuleView>)
    requires
        !(typed_in::<Selector>(m, (e, "selector"@)) matches Some(s) && s.dirty),
    ensures
        properties_themed(m, e, rules) == m,
{
}

/// Applying the theme to a widget with a dirty selector leaves the selector dirty
/// and otherwise as it was.
pub proof fn law_theming_keeps_selector(m: Props, e: u32, rules: Seq<RuleView>, s: SelectorView)
    requires
        typed_in::<Selector>(m, (e, "selector"@)) == Some(s),
        s.dirty,
    ensures
        typed_in::<Selector>(properties_themed(m, e, rules), (e, "selector"@)) == Some(s),
{
    lemma_theming_keeps_selector(m, e, s, rules, s);
    let t = themed_properties(m, e, s, rules);
    assert(SelectorView { dirty: true, ..s } == s);
}

proof fn lemma_entity_themed_force(m: Props, e: u32, rules: Seq<RuleView>)
    ensures
        entity_themed(m, e, true, rules) == entity_themed(m, e, false, rules),
{
}

proof fn lemma_walk_force(m: Props, tree: Map<u32, Seq<u32>>, e: u32, rules: Seq<RuleView>, fuel: nat)
    ensures
        walk(m, tree, e, true, rules, fuel) == walk(m, tree, e, false, rules, fuel),
    decreases fuel, 0nat, 0nat,
{
    if fuel > 0 {
        lemma_walk_children_force(m, tree, tree[e], 0, rules, (fuel - 1) as nat);
        lemma_entity_themed_force(walk_children(m, tree, tree[e], 0, false, rules, (fuel - 1) as nat), e, rules);
    }
}

proof fn lemma_walk_children_force(
    m: Props,
    tree: Map<u32, Seq<u32>>,
    cs: Seq<u32>,
    i: nat,
    rules: Seq<RuleView>,
    fuel: nat,
)
    ensures
        walk_children(m, tree, cs, i, true, rules, fuel) == walk_children(m, tree, cs, i, false, rules, fuel),
    decreases fuel, 1nat, cs.len() - i,
{
    if i < cs.len() {
        lemma_walk_force(m, tree, cs[i as int], rules, fuel);
        lemma_walk_children_force(walk(m, tree, cs[i as int], false, rules, fuel), tree, cs, i + 1, rules, fuel);
    }
}

/// Forcing the update of a widget subtree by state gives the same properties as not
/// forcing it: a widget whose selector is clean is left unthemed either way.
pub proof fn law_force_changes_nothing(m: Props, tree: Map<u32, Seq<u32>>, e: u32, rules: Seq<RuleView>)
    ensures
        theme_walk(m, tree, e, true, rules) == theme_walk(m, tree, e, false, rules),
{
    lemma_walk_force(m, tree, e, rules, choose|fuel: nat| bounded(tree, e, fuel));
}

/// The properties of the entity `x` in `m`.
pub open spec fn of_entity(m: Props, x: u32) -> Props {
    m.restrict(Set::new(|q: (u32, Seq<char>)| q.0 == x))
}

proof fn lemma_insert_other(x: u32)
    ensures
        forall|m: Props, k: (u32, Seq<char>), v: PropertyView|
            k.0 != x ==> #[trigger] of_entity(m.insert(k, v), x) == of_entity(m, x),
{
    assert forall|m: Props, k: (u32, Seq<char>), v: PropertyView|
        k.0 != x implies #[trigger] of_entity(m.insert(k, v), x) == of_entity(m, x) by {
        assert(of_entity(m.insert(k, v), x) =~= of_entity(m, x));
    }
}

proof fn lemma_entity_themed_frame(m: Props, e: u32, force: bool, rules: Seq<RuleView>, x: u32)
    requires
        x != e,
    ensures
        of_entity(entity_themed(m, e, force, rules), x) == of_entity(m, x),
{
    lemma_insert_other(x);
    if typed_in::<Selector>(m, (e, "selector"@)) is Some {
        let m6 = states_updated(m, e);
        let rel = |a: Props, b: Props| of_entity(a, x) == of_entity(b, x);
        assert forall|a: Props, state: Seq<char>, v: bool| #[trigger] rel(a, state_set(a, e, state, v)) by {}
        lemma_states_chain(m, e, rel);
        match typed_in::<Selector>(m6, (e, "selector"@)) {
            Some(s) => {
                if s.dirty || force {
                    lemma_properties_themed_frame(m6, e, rules, x);
                }
            },
            None => {},
        }
    }
}

proof fn lemma_properties_themed_frame(m: Props, e: u32, rules: Seq<RuleView>, x: u32)
    requires
        x != e,
    ensures
        of_entity(properties_themed(m, e, rules), x) == of_entity(m, x),
{
    lemma_insert_other(x);
    if let Some(sel) = typed_in::<Selector>(m, (e, "selector"@)) {
        if sel.dirty {
            let rel = |a: Props, b: Props| of_entity(a, x) == of_entity(b, x);
            assert forall|a: Props, k: Seq<char>, v: Option<Brush>| #[trigger] rel(a, themed::<Brush>(a, (e, k), v)) by {}
            assert forall|a: Props, k: Seq<char>, v: Option<u32>| #[trigger] rel(a, themed::<u32>(a, (e, k), v)) by {}
            assert forall|a: Props, k: Seq<char>, v: Option<Seq<char>>| #[trigger] rel(a, themed::<String>(a, (e, k), v)) by {}
            assert forall|a: Props, k: Seq<char>, v: Option<Thickness>| #[trigger] rel(a, themed::<Thickness>(a, (e, k), v)) by {}
            assert forall|a: Props| #[trigger] rel(a, padding_themed(a, e, sel, rules)) by {}
            assert forall|a: Props| #[trigger] rel(a, constraint_themed(a, e, sel, rules)) by {}
            lemma_style_chain(m, e, sel, rules, rel);
            let t = themed_properties(m, e, sel, rules);
            assert(of_entity(marked_dirty(t, e), x) == of_entity(t, x));
        }
    }
}

/// Whether `x` is `e` or an entity below it, within `fuel` levels.
pub open spec fn in_subtree(tree: Map<u32, Seq<u32>>, e: u32, x: u32, fuel: nat) -> bool
    decreases fuel,
{
    fuel > 0 && (x == e || exists|i: int| 0 <= i < tree[e].len() && in_subtree(tree, #[trigger] tree[e][i], x, (fuel - 1) as nat))
}

proof fn lemma_walk_frame(m: Props, tree: Map<u32, Seq<u32>>, e: u32, force: bool, rules: Seq<RuleView>, fuel: nat, x: u32)
    requires
        !in_subtree(tree, e, x, fuel),
    ensures
        of_entity(walk(m, tree, e, force, rules, fuel), x) == of_entity(m, x),
    decreases fuel, 0nat, 0nat,
{
    if fuel > 0 {
        let after = walk_children(m, tree, tree[e], 0, force, rules, (fuel - 1) as nat);
        lemma_walk_children_frame(m, tree, e, 0, force, rules, (fuel - 1) as nat, x);
        lemma_entity_themed_frame(after, e, force, rules, x);
    }
}

pub proof fn lemma_walk_children_frame(
    m: Props,
    tree: Map<u32, Seq<u32>>,
    e: u32,
    i: nat,
    force: bool,
    rules: Seq<RuleView>,
    fuel: nat,
    x: u32,
)
    requires
        forall|j: int| 0 <= j < tree[e].len() ==> !in_subtree(tree, #[trigger] tree[e][j], x, fuel),
    ensures
        of_entity(walk_children(m, tree, tree[e], i, force, rules, fuel), x) == of_entity(m, x),
    decreases fuel, 1nat, tree[e].len() - i,
{
    if i < tree[e].len() {
        let m1 = walk(m, tree, tree[e][i as int], force, rules, fuel);
        lemma_walk_frame(m, tree, tree[e][i as int], force, rules, fuel, x);
        lemma_walk_children_frame(m1, tree, e, i + 1, force, rules, fuel, x);
    }
}

/// Applying a theme to the subtree below `e` by state leaves the properties of every
/// entity outside that subtree as they are.
pub proof fn law_theming_stays_in_subtree(m: Props, tree: Map<u32, Seq<u32>>, e: u32, force: bool, rules: Seq<RuleView>, x: u32)
    requires
        !in_subtree(tree, e, x, choose|fuel: nat| bounded(tree, e, fuel)),
    ensures
        of_entity(theme_walk(m, tree, e, force, rules), x) == of_entity(m, x),
{
    lemma_walk_frame(m, tree, e, force, rules, choose|fuel: nat| bounded(tree, e, fuel), x);
}

} // verus!
