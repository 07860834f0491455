//! Applying the theme to an entity a second time: every style step reads and writes
//! one property of its own, and gives that property the same value when taken again,
//! so the whole of theming is settled after one pass.
use vstd::prelude::*;
use crate::property::{Property, typed_in};
use crate::selector::{Selector, SelectorView};
use crate::theme::{RuleView, brush_of, string_of, uint_of};
use crate::types::{Brush, Constraint, Thickness};
use crate::styling::{
    Props, all_sides, constraint_themed, constrained, font_themed, lemma_theming_keeps_selector, marked_dirty,
    padded, padding_themed, properties_themed, themed, themed_properties,
};

verus! {

/// A key of the property store: an entity and a property name.
pub type Key = (u32, Seq<char>);

/// A step of theming, and the key of the one property that it reads and writes.
pub type Step = (Key, spec_fn(Props) -> Props);

/// `a` and `b` both hold the same property under `q`, or neither holds one.
pub open spec fn agree_at(a: Props, b: Props, q: Key) -> bool {
    &&& a.contains_key(q) == b.contains_key(q)
    &&& a.contains_key(q) ==> a[q] == b[q]
}

/// `s` leaves every property but the one under `k` alone, what it writes under `k`
/// depends on what is under `k` alone, and taking it again writes the same there.
pub open spec fn local_step(s: spec_fn(Props) -> Props, k: Key) -> bool {
    &&& forall|x: Props, q: Key| q != k ==> #[trigger] agree_at(s(x), x, q)
    &&& forall|x: Props, y: Props| agree_at(x, y, k) ==> #[trigger] agree_at(s(x), s(y), k)
    &&& forall|x: Props| #[trigger] agree_at(s(s(x)), s(x), k)
}

/// The properties after the first `n` steps are taken in order.
pub open spec fn run(steps: Seq<Step>, m: Props, n: nat) -> Props
    decreases n,
{
    if n == 0 {
        m
    } else {
        (steps[n - 1].1)(run(steps, m, (n - 1) as nat))
    }
}

/// Every step is local to its key, and no two steps share a key.
pub open spec fn separate_steps(steps: Seq<Step>) -> bool {
    &&& forall|i: int| 0 <= i < steps.len() ==> local_step(#[trigger] steps[i].1, steps[i].0)
    &&& forall|i: int, j: int| 0 <= i < j < steps.len() ==> steps[i].0 != steps[j].0
}

/// After the first `n` steps, a property that none of them writes is as it was, and
/// the property of each step is what that step alone writes.
proof fn lemma_run_pointwise(steps: Seq<Step>, m: Props, n: nat)
    requires
        separate_steps(steps),
        n <= steps.len(),
    ensures
        forall|q: Key| (forall|i: int| 0 <= i < n ==> steps[i].0 != q) ==> #[trigger] agree_at(run(steps, m, n), m, q),
        forall|i: int| 0 <= i < n ==> #[trigger] agree_at(run(steps, m, n), (steps[i].1)(m), steps[i].0),
    decreases n,
{
    if n > 0 {
        let p = (n - 1) as nat;
        lemma_run_pointwise(steps, m, p);
        let r = run(steps, m, p);
        let s = steps[n - 1].1;
        let k = steps[n - 1].0;
        assert(local_step(s, k));
        assert forall|q: Key| (forall|i: int| 0 <= i < n ==> steps[i].0 != q) implies #[trigger] agree_at(run(steps, m, n), m, q) by {
            assert(steps[n - 1].0 != q);
            assert(agree_at(s(r), r, q));
            assert(agree_at(r, m, q));
        }
        assert forall|i: int| 0 <= i < n implies #[trigger] agree_at(run(steps, m, n), (steps[i].1)(m), steps[i].0) by {
            if i < n - 1 {
                assert(steps[i].0 != k);
                assert(agree_at(s(r), r, steps[i].0));
                assert(agree_at(r, (steps[i].1)(m), steps[i].0));
            } else {
                assert forall|j: int| 0 <= j < p implies steps[j].0 != k by {}
                assert(agree_at(r, m, k));
                assert(agree_at(s(r), s(m), k));
            }
        }
    }
}

/// Taking all the steps a second time changes nothing.
proof fn lemma_run_twice(steps: Seq<Step>, m: Props)
    requires
        separate_steps(steps),
    ensures
        run(steps, run(steps, m, steps.len()), steps.len()) == run(steps, m, steps.len()),
{
    let n = steps.len();
    let t = run(steps, m, n);
    let u = run(steps, t, n);
    lemma_run_pointwise(steps, m, n);
    lemma_run_pointwise(steps, t, n);
    assert forall|q: Key| #[trigger] agree_at(u, t, q) by {
        if exists|i: int| 0 <= i < n && steps[i].0 == q {
            let i = choose|i: int| 0 <= i < n && steps[i].0 == q;
            let s = steps[i].1;
            assert(local_step(s, q));
            assert(agree_at(u, s(t), q));
            assert(agree_at(t, s(m), q));
            assert(agree_at(s(t), s(s(m)), q));
            assert(agree_at(s(s(m)), s(m), q));
        } else {
            assert(agree_at(u, t, q));
        }
    }
    assert(u =~= t) by {
        assert forall|q: Key| u.contains_key(q) == t.contains_key(q) by {
            assert(agree_at(u, t, q));
        }
        assert forall|q: Key| u.contains_key(q) implies u[q] == t[q] by {
            assert(agree_at(u, t, q));
        }
    }
}

/// The step that sets the property under `k`, of kind `P`, to `v` where there is one.
pub open spec fn themed_step<P: Property>(k: Key, v: Option<P::V>) -> Step {
    (k, |x: Props| themed::<P>(x, k, v))
}

/// The step that themes the padding of `e`.
pub open spec fn padding_step(e: u32, sel: SelectorView, rules: Seq<RuleView>) -> Step {
    ((e, "padding"@), |x: Props| padding_themed(x, e, sel, rules))
}

/// The step that themes the constraint of `e`.
pub open spec fn constraint_step(e: u32, sel: SelectorView, rules: Seq<RuleView>) -> Step {
    ((e, "constraint"@), |x: Props| constraint_themed(x, e, sel, rules))
}

/// Setting one property of kind `P` from the theme is a local step.
proof fn lemma_themed_local<P: Property>(k: Key, v: Option<P::V>)
    ensures
        local_step(themed_step::<P>(k, v).1, themed_step::<P>(k, v).0),
{
    let s = themed_step::<P>(k, v).1;
    assert forall|x: Props| #[trigger] agree_at(s(s(x)), s(x), k) by {
        if typed_in::<P>(x, k) is Some && v is Some {
            P::lemma_unwrap_wrap(v->0);
        }
    }
}

/// Theming the padding is a local step.
proof fn lemma_padding_local(e: u32, sel: SelectorView, rules: Seq<RuleView>)
    ensures
        local_step(padding_step(e, sel, rules).1, padding_step(e, sel, rules).0),
{
    let s = padding_step(e, sel, rules).1;
    let k = (e, "padding"@);
    assert forall|x: Props| #[trigger] agree_at(s(s(x)), s(x), k) by {
        if let Some(p) = typed_in::<Thickness>(x, k) {
            Thickness::lemma_unwrap_wrap(padded(p, sel, rules));
            assert(padded(padded(p, sel, rules), sel, rules) == padded(p, sel, rules));
        }
    }
}

/// Theming the constraint is a local step.
proof fn lemma_constraint_local(e: u32, sel: SelectorView, rules: Seq<RuleView>)
    ensures
        local_step(constraint_step(e, sel, rules).1, constraint_step(e, sel, rules).0),
{
    let s = constraint_step(e, sel, rules).1;
    let k = (e, "constraint"@);
    assert forall|x: Props| #[trigger] agree_at(s(s(x)), s(x), k) by {
        if let Some(c) = typed_in::<Constraint>(x, k) {
            Constraint::lemma_unwrap_wrap(constrained(c, sel, rules));
            assert(constrained(constrained(c, sel, rules), sel, rules) == constrained(c, sel, rules));
        }
    }
}

/// The steps of theming the style properties of `e`, in the order they are taken.
pub open spec fn style_steps(e: u32, sel: SelectorView, rules: Seq<RuleView>) -> Seq<Step> {
    seq![
        themed_step::<Brush>((e, "foreground"@), brush_of(rules, "color"@, sel)),
        themed_step::<Brush>((e, "background"@), brush_of(rules, "background"@, sel)),
        themed_step::<Brush>((e, "border_brush"@), brush_of(rules, "border-color"@, sel)),
        themed_step::<u32>((e, "border_radius"@), uint_of(rules, "border-radius"@, sel)),
        themed_step::<Thickness>((e, "border_width"@), all_sides(uint_of(rules, "border-width"@, sel))),
        themed_step::<u32>((e, "font_size"@), uint_of(rules, "font-size"@, sel)),
        themed_step::<String>((e, "font_family"@), string_of(rules, "font-family"@, sel)),
        themed_step::<Brush>((e, "icon_brush"@), brush_of(rules, "icon-color"@, sel)),
        themed_step::<u32>((e, "icon_size"@), uint_of(rules, "icon-size"@, sel)),
        themed_step::<String>((e, "icon_family"@), string_of(rules, "icon-family"@, sel)),
        padding_step(e, sel, rules),
        constraint_step(e, sel, rules),
        themed_step::<u32>((e, "spacing"@), uint_of(rules, "spacing"@, sel)),
    ]
}

/// Theming the style properties is taking the style steps in order.
proof fn lemma_style_steps_run(m: Props, e: u32, sel: SelectorView, rules: Seq<RuleView>)
    ensures
        run(style_steps(e, sel, rules), m, 13) == themed_properties(m, e, sel, rules),
{
    reveal_with_fuel(run, 14);
}

/// No two style steps write the same property, and each is local.
proof fn lemma_style_steps_separate(e: u32, sel: SelectorView, rules: Seq<RuleView>)
    ensures
        separate_steps(style_steps(e, sel, rules)),
        style_steps(e, sel, rules).len() == 13,
{
    let st = style_steps(e, sel, rules);
    lemma_themed_local::<Brush>((e, "foreground"@), brush_of(rules, "color"@, sel));
    lemma_themed_local::<Brush>((e, "background"@), brush_of(rules, "background"@, sel));
    lemma_themed_local::<Brush>((e, "border_brush"@), brush_of(rules, "border-color"@, sel));
    lemma_themed_local::<u32>((e, "border_radius"@), uint_of(rules, "border-radius"@, sel));
    lemma_themed_local::<Thickness>((e, "border_width"@), all_sides(uint_of(rules, "border-width"@, sel)));
    lemma_themed_local::<u32>((e, "font_size"@), uint_of(rules, "font-size"@, sel));
    lemma_themed_local::<String>((e, "font_family"@), string_of(rules, "font-family"@, sel));
    lemma_themed_local::<Brush>((e, "icon_brush"@), brush_of(rules, "icon-color"@, sel));
    lemma_themed_local::<u32>((e, "icon_size"@), uint_of(rules, "icon-size"@, sel));
    lemma_themed_local::<String>((e, "icon_family"@), string_of(rules, "icon-family"@, sel));
    lemma_padding_local(e, sel, rules);
    lemma_constraint_local(e, sel, rules);
    lemma_themed_local::<u32>((e, "spacing"@), uint_of(rules, "spacing"@, sel));
    assert forall|i: int| 0 <= i < st.len() implies local_step(#[trigger] st[i].1, st[i].0) by {
        if i == 0 {} else if i == 1 {} else if i == 2 {} else if i == 3 {} else if i == 4 {}
        else if i == 5 {} else if i == 6 {} else if i == 7 {} else if i == 8 {} else if i == 9 {}
        else if i == 10 {} else if i == 11 {} else {}
    }
    reveal_strlit("foreground");
    reveal_strlit("background");
    reveal_strlit("border_brush");
    reveal_strlit("border_radius");
    reveal_strlit("border_width");
    reveal_strlit("font_size");
    reveal_strlit("font_family");
    reveal_strlit("icon_brush");
    reveal_strlit("icon_size");
    reveal_strlit("icon_family");
    reveal_strlit("padding");
    reveal_strlit("constraint");
    reveal_strlit("spacing");
    assert forall|i: int, j: int| 0 <= i < j < st.len() implies st[i].0 != st[j].0 by {
        let (a, b) = (st[i].0.1, st[j].0.1);
        if a == b {
            assert(a.len() == b.len());
            assert(a[0] == b[0]);
            assert(a[7] == b[7]);
        }
    }
}

/// After theming the style properties of `e`, the property of each style step is what
/// that step alone writes into the properties before, and every other property is as
/// it was.
pub proof fn lemma_style_values(m: Props, e: u32, sel: SelectorView, rules: Seq<RuleView>)
    ensures
        forall|i: int| 0 <= i < 13 ==> #[trigger] agree_at(
            themed_properties(m, e, sel, rules),
            (style_steps(e, sel, rules)[i].1)(m),
            style_steps(e, sel, rules)[i].0,
        ),
        forall|q: Key| (forall|i: int| 0 <= i < 13 ==> style_steps(e, sel, rules)[i].0 != q)
            ==> #[trigger] agree_at(themed_properties(m, e, sel, rules), m, q),
{
    lemma_style_steps_separate(e, sel, rules);
    lemma_style_steps_run(m, e, sel, rules);
    lemma_run_pointwise(style_steps(e, sel, rules), m, 13);
}

/// Applying the theme to an entity a second time changes nothing: its selector is
/// still dirty after the first time, and every style property the first time set
/// already holds the value the theme gives it.
pub proof fn law_theming_twice_is_theming_once(m: Props, e: u32, rules: Seq<RuleView>)
    ensures
        properties_themed(properties_themed(m, e, rules), e, rules) == properties_themed(m, e, rules),
{
    let sk = (e, "selector"@);
    if let Some(sel) = typed_in::<Selector>(m, sk) {
        if sel.dirty {
            let t = themed_properties(m, e, sel, rules);
            lemma_theming_keeps_selector(m, e, sel, rules, sel);
            Selector::lemma_wrap_unwrap(t[sk]);
            assert(SelectorView { dirty: true, ..sel } == sel);
            assert(marked_dirty(t, e) == t);
            lemma_style_steps_separate(e, sel, rules);
            lemma_style_steps_run(m, e, sel, rules);
            lemma_style_steps_run(t, e, sel, rules);
            lemma_run_twice(style_steps(e, sel, rules), m);
            assert(themed_properties(t, e, sel, rules) == t);
        }
    }
}

/// `old`, replaced by `new` where both are there: a property the widget holds takes
/// the value the theme gives it, where the theme gives one.
pub open spec fn overridden<V>(old: Option<V>, new: Option<V>) -> Option<V> {
    match (old, new) {
        (Some(_), Some(v)) => Some(v),
        _ => old,
    }
}

/// One side of a padding after theming: the value of the rule for that side, else
/// the value of the rule for the whole padding, else `old`.
pub open spec fn padding_side(rules: Seq<RuleView>, sel: SelectorView, side: Seq<char>, old: u32) -> u32 {
    match uint_of(rules, side, sel) {
        Some(v) => v,
        None => match uint_of(rules, "padding"@, sel) {
            Some(u) => u,
            None => old,
        },
    }
}

/// One field of a constraint after theming: the value of the rule named `name`, else `old`.
pub open spec fn constraint_field(rules: Seq<RuleView>, sel: SelectorView, name: Seq<char>, old: u32) -> u32 {
    match uint_of(rules, name, sel) {
        Some(v) => v,
        None => old,
    }
}

/// A property of kind `P` that agrees with the result of setting it from the theme
/// holds the theme's value where the property was there and the theme gives one.
proof fn lemma_themed_value<P: Property>(x: Props, m: Props, k: Key, v: Option<P::V>)
    requires
        agree_at(x, themed::<P>(m, k, v), k),
    ensures
        typed_in::<P>(x, k) == overridden(typed_in::<P>(m, k), v),
{
    if typed_in::<P>(m, k) is Some && v is Some {
        P::lemma_unwrap_wrap(v->0);
    }
}

/// The steps of theming the font and icon properties, in the order they are taken.
proof fn lemma_font_steps(m: Props, e: u32, sel: SelectorView, rules: Seq<RuleView>)
    ensures
        separate_steps(style_steps(e, sel, rules).subrange(5, 10)),
        run(style_steps(e, sel, rules).subrange(5, 10), m, 5) == font_themed(m, e, sel, rules),
{
    lemma_style_steps_separate(e, sel, rules);
    let st = style_steps(e, sel, rules);
    let fs = st.subrange(5, 10);
    assert forall|i: int| 0 <= i < fs.len() implies local_step(#[trigger] fs[i].1, fs[i].0) by {
        assert(fs[i] == st[i + 5]);
    }
    assert forall|i: int, j: int| 0 <= i < j < fs.len() implies fs[i].0 != fs[j].0 by {
        assert(fs[i] == st[i + 5]);
        assert(fs[j] == st[j + 5]);
    }
    assert(fs[0] == st[5]);
    assert(fs[1] == st[6]);
    assert(fs[2] == st[7]);
    assert(fs[3] == st[8]);
    assert(fs[4] == st[9]);
    reveal_with_fuel(run, 6);
}

/// Theming the font and icon properties for the selector `sel`: each of them that the
/// widget holds takes the value the theme gives it for `sel` (font size and family,
/// icon colour, size and family), where the theme gives one; every other property is
/// as it was.
pub proof fn law_font_values_follow_theme(m: Props, e: u32, sel: SelectorView, rules: Seq<RuleView>)
    ensures
        typed_in::<u32>(font_themed(m, e, sel, rules), (e, "font_size"@))
            == overridden(typed_in::<u32>(m, (e, "font_size"@)), uint_of(rules, "font-size"@, sel)),
        typed_in::<String>(font_themed(m, e, sel, rules), (e, "font_family"@))
            == overridden(typed_in::<String>(m, (e, "font_family"@)), string_of(rules, "font-family"@, sel)),
        typed_in::<Brush>(font_themed(m, e, sel, rules), (e, "icon_brush"@))
            == overridden(typed_in::<Brush>(m, (e, "icon_brush"@)), brush_of(rules, "icon-color"@, sel)),
        typed_in::<u32>(font_themed(m, e, sel, rules), (e, "icon_size"@))
            == overridden(typed_in::<u32>(m, (e, "icon_size"@)), uint_of(rules, "icon-size"@, sel)),
        typed_in::<String>(font_themed(m, e, sel, rules), (e, "icon_family"@))
            == overridden(typed_in::<String>(m, (e, "icon_family"@)), string_of(rules, "icon-family"@, sel)),
        forall|q: Key|
            q != (e, "font_size"@) && q != (e, "font_family"@) && q != (e, "icon_brush"@) && q != (e, "icon_size"@)
                && q != (e, "icon_family"@) ==> #[trigger] agree_at(font_themed(m, e, sel, rules), m, q),
{
    let fs = style_steps(e, sel, rules).subrange(5, 10);
    lemma_font_steps(m, e, sel, rules);
    lemma_run_pointwise(fs, m, 5);
    let f = font_themed(m, e, sel, rules);
    assert(agree_at(f, (fs[0].1)(m), fs[0].0));
    assert(agree_at(f, (fs[1].1)(m), fs[1].0));
    assert(agree_at(f, (fs[2].1)(m), fs[2].0));
    assert(agree_at(f, (fs[3].1)(m), fs[3].0));
    assert(agree_at(f, (fs[4].1)(m), fs[4].0));
    lemma_themed_value::<u32>(f, m, (e, "font_size"@), uint_of(rules, "font-size"@, sel));
    lemma_themed_value::<String>(f, m, (e, "font_family"@), string_of(rules, "font-family"@, sel));
    lemma_themed_value::<Brush>(f, m, (e, "icon_brush"@), brush_of(rules, "icon-color"@, sel));
    lemma_themed_value::<u32>(f, m, (e, "icon_size"@), uint_of(rules, "icon-size"@, sel));
    lemma_themed_value::<String>(f, m, (e, "icon_family"@), string_of(rules, "icon-family"@, sel));
}

/// Whether `t` holds the style properties of `e` in `m` themed for the selector `sel`:
/// each that `e` holds takes the value the theme gives it for `sel`, where it gives one
/// (foreground from "color", background, border colour, radius and width, the font
/// and icon values, spacing); each side of the padding takes the rule for that side,
/// else the rule for the whole padding, else keeps its value; each field of the
/// constraint takes the rule of its name, else keeps its value.
pub open spec fn follows_theme(t: Props, m: Props, e: u32, sel: SelectorView, rules: Seq<RuleView>) -> bool {
    &&& typed_in::<Brush>(t, (e, "foreground"@))
        == overridden(typed_in::<Brush>(m, (e, "foreground"@)), brush_of(rules, "color"@, sel))
    &&& typed_in::<Brush>(t, (e, "background"@))
        == overridden(typed_in::<Brush>(m, (e, "background"@)), brush_of(rules, "background"@, sel))
    &&& typed_in::<Brush>(t, (e, "border_brush"@))
        == overridden(typed_in::<Brush>(m, (e, "border_brush"@)), brush_of(rules, "border-color"@, sel))
    &&& typed_in::<u32>(t, (e, "border_radius"@))
        == overridden(typed_in::<u32>(m, (e, "border_radius"@)), uint_of(rules, "border-radius"@, sel))
    &&& typed_in::<Thickness>(t, (e, "border_width"@))
        == overridden(typed_in::<Thickness>(m, (e, "border_width"@)), all_sides(uint_of(rules, "border-width"@, sel)))
    &&& typed_in::<u32>(t, (e, "font_size"@))
        == overridden(typed_in::<u32>(m, (e, "font_size"@)), uint_of(rules, "font-size"@, sel))
    &&& typed_in::<String>(t, (e, "font_family"@))
        == overridden(typed_in::<String>(m, (e, "font_family"@)), string_of(rules, "font-family"@, sel))
    &&& typed_in::<Brush>(t, (e, "icon_brush"@))
        == overridden(typed_in::<Brush>(m, (e, "icon_brush"@)), brush_of(rules, "icon-color"@, sel))
    &&& typed_in::<u32>(t, (e, "icon_size"@))
        == overridden(typed_in::<u32>(m, (e, "icon_size"@)), uint_of(rules, "icon-size"@, sel))
    &&& typed_in::<String>(t, (e, "icon_family"@))
        == overridden(typed_in::<String>(m, (e, "icon_family"@)), string_of(rules, "icon-family"@, sel))
    &&& typed_in::<u32>(t, (e, "spacing"@))
        == overridden(typed_in::<u32>(m, (e, "spacing"@)), uint_of(rules, "spacing"@, sel))
    &&& typed_in::<Thickness>(t, (e, "padding"@)) == match typed_in::<Thickness>(m, (e, "padding"@)) {
        Some(p) => Some(Thickness {
            left: padding_side(rules, sel, "padding-left"@, p.left),
            top: padding_side(rules, sel, "padding-top"@, p.top),
            right: padding_side(rules, sel, "padding-right"@, p.right),
            bottom: padding_side(rules, sel, "padding-bottom"@, p.bottom),
        }),
        None => None,
    }
    &&& typed_in::<Constraint>(t, (e, "constraint"@)) == match typed_in::<Constraint>(m, (e, "constraint"@)) {
        Some(c) => Some(Constraint {
            width: constraint_field(rules, sel, "width"@, c.width),
            height: constraint_field(rules, sel, "height"@, c.height),
            min_width: constraint_field(rules, sel, "min-width"@, c.min_width),
            min_height: constraint_field(rules, sel, "min-height"@, c.min_height),
            max_width: constraint_field(rules, sel, "max-width"@, c.max_width),
            max_height: constraint_field(rules, sel, "max-height"@, c.max_height),
        }),
        None => None,
    }
}

/// The names of the properties that applying the theme to a widget may change.
pub open spec fn themed_names() -> Seq<Seq<char>> {
    seq![
        "foreground"@, "background"@, "border_brush"@, "border_radius"@, "border_width"@,
        "font_size"@, "font_family"@, "icon_brush"@, "icon_size"@, "icon_family"@,
        "padding"@, "constraint"@, "spacing"@, "selector"@,
    ]
}

/// Applying the theme to a widget whose selector `sel` is dirty themes its style
/// properties for `sel` (see `follows_theme`); the selector stays `sel`, and no other
/// property changes.
pub proof fn law_style_values_follow_theme(m: Props, e: u32, rules: Seq<RuleView>, sel: SelectorView)
    requires
        typed_in::<Selector>(m, (e, "selector"@)) == Some(sel),
        sel.dirty,
    ensures
        follows_theme(properties_themed(m, e, rules), m, e, sel, rules),
        typed_in::<Selector>(properties_themed(m, e, rules), (e, "selector"@)) == Some(sel),
        forall|q: Key| (q.0 != e || !themed_names().contains(q.1)) ==> #[trigger] agree_at(properties_themed(m, e, rules), m, q),
{
    let sk = (e, "selector"@);
    let t = themed_properties(m, e, sel, rules);
    lemma_theming_keeps_selector(m, e, sel, rules, sel);
    Selector::lemma_wrap_unwrap(t[sk]);
    assert(SelectorView { dirty: true, ..sel } == sel);
    assert(marked_dirty(t, e) == t);
    assert(properties_themed(m, e, rules) == t);
    lemma_style_values(m, e, sel, rules);
    let st = style_steps(e, sel, rules);
    assert(agree_at(t, (st[0].1)(m), st[0].0));
    assert(agree_at(t, (st[1].1)(m), st[1].0));
    assert(agree_at(t, (st[2].1)(m), st[2].0));
    assert(agree_at(t, (st[3].1)(m), st[3].0));
    assert(agree_at(t, (st[4].1)(m), st[4].0));
    assert(agree_at(t, (st[5].1)(m), st[5].0));
    assert(agree_at(t, (st[6].1)(m), st[6].0));
    assert(agree_at(t, (st[7].1)(m), st[7].0));
    assert(agree_at(t, (st[8].1)(m), st[8].0));
    assert(agree_at(t, (st[9].1)(m), st[9].0));
    assert(agree_at(t, (st[10].1)(m), st[10].0));
    assert(agree_at(t, (st[11].1)(m), st[11].0));
    assert(agree_at(t, (st[12].1)(m), st[12].0));
    lemma_themed_value::<Brush>(t, m, (e, "foreground"@), brush_of(rules, "color"@, sel));
    lemma_themed_value::<Brush>(t, m, (e, "background"@), brush_of(rules, "background"@, sel));
    lemma_themed_value::<Brush>(t, m, (e, "border_brush"@), brush_of(rules, "border-color"@, sel));
    lemma_themed_value::<u32>(t, m, (e, "border_radius"@), uint_of(rules, "border-radius"@, sel));
    lemma_themed_value::<Thickness>(t, m, (e, "border_width"@), all_sides(uint_of(rules, "border-width"@, sel)));
    lemma_themed_value::<u32>(t, m, (e, "font_size"@), uint_of(rules, "font-size"@, sel));
    lemma_themed_value::<String>(t, m, (e, "font_family"@), string_of(rules, "font-family"@, sel));
    lemma_themed_value::<Brush>(t, m, (e, "icon_brush"@), brush_of(rules, "icon-color"@, sel));
    lemma_themed_value::<u32>(t, m, (e, "icon_size"@), uint_of(rules, "icon-size"@, sel));
    lemma_themed_value::<String>(t, m, (e, "icon_family"@), string_of(rules, "icon-family"@, sel));
    lemma_themed_value::<u32>(t, m, (e, "spacing"@), uint_of(rules, "spacing"@, sel));
    if let Some(p) = typed_in::<Thickness>(m, (e, "padding"@)) {
        Thickness::lemma_unwrap_wrap(padded(p, sel, rules));
    }
    if let Some(c) = typed_in::<Constraint>(m, (e, "constraint"@)) {
        Constraint::lemma_unwrap_wrap(constrained(c, sel, rules));
    }
    let names = themed_names();
    assert forall|q: Key| (q.0 != e || !names.contains(q.1)) implies #[trigger] agree_at(t, m, q) by {
        assert forall|i: int| 0 <= i < 13 implies st[i].0 != q by {
            assert(st[i].0 == (e, names[i]));
        }
    }
}

/// The style property names are not the name of the selector.
proof fn lemma_style_names_not_selector()
    ensures
        forall|i: int| 0 <= i < 13 ==> #[trigger] themed_names()[i] != "selector"@,
{
    reveal_strlit("foreground");
    reveal_strlit("background");
    reveal_strlit("border_brush");
    reveal_strlit("border_radius");
    reveal_strlit("border_width");
    reveal_strlit("font_size");
    reveal_strlit("font_family");
    reveal_strlit("icon_brush");
    reveal_strlit("icon_size");
    reveal_strlit("icon_family");
    reveal_strlit("padding");
    reveal_strlit("constraint");
    reveal_strlit("spacing");
    reveal_strlit("selector");
    let n = themed_names();
    assert forall|i: int| 0 <= i < 13 implies #[trigger] n[i] != "selector"@ by {
        if n[i] == "selector"@ {
            assert(n[i][0] == "selector"@[0]);
            assert(n[i][1] == "selector"@[1]);
        }
    }
}

/// Whether properties are themed from `a` or from `b` is the same, where `a` and `b`
/// hold the same properties of `e` but perhaps the selector.
pub proof fn lemma_follows_theme_transfer(t: Props, a: Props, b: Props, e: u32, sel: SelectorView, rules: Seq<RuleView>)
    requires
        forall|k: Seq<char>| k != "selector"@ ==> #[trigger] agree_at(a, b, (e, k)),
    ensures
        follows_theme(t, a, e, sel, rules) == follows_theme(t, b, e, sel, rules),
{
    lemma_style_names_not_selector();
    let n = themed_names();
    assert(n[0] != "selector"@ && n[1] != "selector"@ && n[2] != "selector"@ && n[3] != "selector"@);
    assert(n[4] != "selector"@ && n[5] != "selector"@ && n[6] != "selector"@ && n[7] != "selector"@);
    assert(n[8] != "selector"@ && n[9] != "selector"@ && n[10] != "selector"@ && n[11] != "selector"@);
    assert(n[12] != "selector"@);
    assert(agree_at(a, b, (e, "foreground"@)));
    assert(agree_at(a, b, (e, "background"@)));
    assert(agree_at(a, b, (e, "border_brush"@)));
    assert(agree_at(a, b, (e, "border_radius"@)));
    assert(agree_at(a, b, (e, "border_width"@)));
    assert(agree_at(a, b, (e, "font_size"@)));
    assert(agree_at(a, b, (e, "font_family"@)));
    assert(agree_at(a, b, (e, "icon_brush"@)));
    assert(agree_at(a, b, (e, "icon_size"@)));
    assert(agree_at(a, b, (e, "icon_family"@)));
    assert(agree_at(a, b, (e, "padding"@)));
    assert(agree_at(a, b, (e, "constraint"@)));
    assert(agree_at(a, b, (e, "spacing"@)));
}

} // verus!
