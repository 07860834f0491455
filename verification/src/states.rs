//! What updating a widget by its states does to its selector, stated over the flags
//! and the text of the widget.
use vstd::prelude::*;
use crate::property::{Property, typed_in};
use crate::selector::{Selector, SelectorView};
use crate::theme::RuleView;
use crate::types::String16;
use crate::entity::bounded;
use crate::styling::{
    Props, entity_themed, flag_state, in_subtree, lemma_theming_keeps_selector, lemma_walk_children_frame, marked_dirty, of_entity,
    properties_themed, state_set, states_updated, text_state, theme_walk, themed_properties, walk, walk_children,
};
use crate::restyle::{Key, agree_at, follows_theme, law_style_values_follow_theme, lemma_follows_theme_transfer};

verus! {

/// The selector of `e` in `m`, where it has one.
pub open spec fn selector_of(m: Props, e: u32) -> Option<SelectorView> {
    typed_in::<Selector>(m, (e, "selector"@))
}

/// Putting the selector of `e` into `state` (where `value` holds) or out of it marks
/// it dirty whatever `value` is, puts it in `state` exactly when `value` holds, keeps
/// its element and every other state, and changes no other property; where `e` has
/// no selector nothing changes.
pub proof fn law_update_state(m: Props, e: u32, state: Seq<char>, value: bool)
    ensures
        selector_of(m, e) is None ==> state_set(m, e, state, value) == m,
        selector_of(m, e) is Some ==> {
            let s0 = selector_of(m, e)->0;
            let s = selector_of(state_set(m, e, state, value), e);
            &&& s is Some
            &&& s->0.dirty
            &&& s->0.element == s0.element
            &&& s->0.pseudo_classes.contains(state) == value
            &&& forall|q: Seq<char>| q != state ==> #[trigger] s->0.pseudo_classes.contains(q) == s0.pseudo_classes.contains(q)
        },
        forall|k: Key| k != (e, "selector"@) ==> #[trigger] agree_at(state_set(m, e, state, value), m, k),
{
    if let Some(s0) = selector_of(m, e) {
        let s1 = SelectorView {
            pseudo_classes: if value { s0.pseudo_classes.insert(state) } else { s0.pseudo_classes.remove(state) },
            dirty: true,
            ..s0
        };
        Selector::lemma_unwrap_wrap(s1);
    }
}

/// Setting a state of the selector of `e` leaves every flag and the text of `e` as they are.
proof fn lemma_state_set_keeps_flags(m: Props, e: u32, state: Seq<char>, value: bool)
    requires
        selector_of(m, e) is Some,
    ensures
        selector_of(state_set(m, e, state, value), e) is Some,
        forall|key: Seq<char>| #[trigger] typed_in::<bool>(state_set(m, e, state, value), (e, key)) == typed_in::<bool>(m, (e, key)),
        forall|key: Seq<char>| #[trigger] typed_in::<String16>(state_set(m, e, state, value), (e, key)) == typed_in::<String16>(m, (e, key)),
{
    law_update_state(m, e, state, value);
    let r = state_set(m, e, state, value);
    assert forall|key: Seq<char>| #[trigger] typed_in::<bool>(r, (e, key)) == typed_in::<bool>(m, (e, key)) by {
        assert(agree_at(r, m, (e, key)) || (e, key) == (e, "selector"@));
    }
    assert forall|key: Seq<char>| #[trigger] typed_in::<String16>(r, (e, key)) == typed_in::<String16>(m, (e, key)) by {
        assert(agree_at(r, m, (e, key)) || (e, key) == (e, "selector"@));
    }
}

/// The state names that the flags and the text of a widget put its selector in.
proof fn lemma_state_names_distinct()
    ensures
        "focused"@ != "selected"@,
        "focused"@ != "pressed"@,
        "focused"@ != "disabled"@,
        "focused"@ != "empty"@,
        "focused"@ != "expanded"@,
        "selected"@ != "pressed"@,
        "selected"@ != "disabled"@,
        "selected"@ != "empty"@,
        "selected"@ != "expanded"@,
        "pressed"@ != "disabled"@,
        "pressed"@ != "empty"@,
        "pressed"@ != "expanded"@,
        "disabled"@ != "empty"@,
        "disabled"@ != "expanded"@,
        "empty"@ != "expanded"@,
{
    reveal_strlit("focused");
    reveal_strlit("selected");
    reveal_strlit("pressed");
    reveal_strlit("disabled");
    reveal_strlit("empty");
    reveal_strlit("expanded");
    assert("focused"@[0] != "selected"@[0]);
    assert("focused"@[0] != "pressed"@[0]);
    assert("focused"@[0] != "disabled"@[0]);
    assert("focused"@[0] != "empty"@[0]);
    assert("focused"@[0] != "expanded"@[0]);
    assert("selected"@[0] != "pressed"@[0]);
    assert("selected"@[0] != "disabled"@[0]);
    assert("selected"@[0] != "empty"@[0]);
    assert("selected"@[0] != "expanded"@[0]);
    assert("pressed"@[0] != "disabled"@[0]);
    assert("pressed"@[0] != "empty"@[0]);
    assert("pressed"@[0] != "expanded"@[0]);
    assert("disabled"@[0] != "empty"@[0]);
    assert("disabled"@[0] != "expanded"@[0]);
    assert("empty"@[1] != "expanded"@[1]);
}

/// Whether `s` is in `state` as the flag `flag` of `e` in `m` says, negated where
/// `negate` holds; where `e` has no such flag, whether `s` is in `state` as `s0` is.
pub open spec fn follows_flag(
    s: SelectorView,
    s0: SelectorView,
    m: Props,
    e: u32,
    flag: Seq<char>,
    state: Seq<char>,
    negate: bool,
) -> bool {
    match typed_in::<bool>(m, (e, flag)) {
        Some(v) => s.pseudo_classes.contains(state) == (v != negate),
        None => s.pseudo_classes.contains(state) == s0.pseudo_classes.contains(state),
    }
}

/// Whether the selector `s`, read from the selector `s0` of `e` in `m`, is in each
/// state as the flags and the text of `e` in `m` say: focused, selected and pressed
/// as their flags, disabled where `enabled` is false, empty where the text is empty,
/// expanded where `expanded` is false; in no other state than `s0` is; of the same
/// element; and dirty where `s0` was or where `e` has any of these flags or a text.
pub open spec fn states_follow_flags(s: SelectorView, s0: SelectorView, m: Props, e: u32) -> bool {
    &&& follows_flag(s, s0, m, e, "focused"@, "focused"@, false)
    &&& follows_flag(s, s0, m, e, "selected"@, "selected"@, false)
    &&& follows_flag(s, s0, m, e, "pressed"@, "pressed"@, false)
    &&& follows_flag(s, s0, m, e, "enabled"@, "disabled"@, true)
    &&& follows_flag(s, s0, m, e, "expanded"@, "expanded"@, true)
    &&& match typed_in::<String16>(m, (e, "text"@)) {
        Some(t) => s.pseudo_classes.contains("empty"@) == (t.len() == 0),
        None => s.pseudo_classes.contains("empty"@) == s0.pseudo_classes.contains("empty"@),
    }
    &&& forall|q: Seq<char>|
        q != "focused"@ && q != "selected"@ && q != "pressed"@ && q != "disabled"@ && q != "empty"@ && q
            != "expanded"@ ==> #[trigger] s.pseudo_classes.contains(q) == s0.pseudo_classes.contains(q)
    &&& s.element == s0.element
    &&& s.dirty == (s0.dirty || typed_in::<bool>(m, (e, "focused"@)) is Some || typed_in::<bool>(m, (e, "selected"@)) is Some
        || typed_in::<bool>(m, (e, "pressed"@)) is Some || typed_in::<bool>(m, (e, "enabled"@)) is Some
        || typed_in::<String16>(m, (e, "text"@)) is Some || typed_in::<bool>(m, (e, "expanded"@)) is Some)
}

/// One flag step: the selector after it, and the flags of `e`, relate to those before.
proof fn lemma_flag_step(m: Props, e: u32, flag: Seq<char>, state: Seq<char>, negate: bool)
    requires
        selector_of(m, e) is Some,
    ensures
        selector_of(flag_state(m, e, flag, state, negate), e) is Some,
        forall|key: Seq<char>| #[trigger] typed_in::<bool>(flag_state(m, e, flag, state, negate), (e, key)) == typed_in::<bool>(m, (e, key)),
        forall|key: Seq<char>| #[trigger] typed_in::<String16>(flag_state(m, e, flag, state, negate), (e, key)) == typed_in::<String16>(m, (e, key)),
        ({
            let s0 = selector_of(m, e)->0;
            let s = selector_of(flag_state(m, e, flag, state, negate), e)->0;
            &&& follows_flag(s, s0, m, e, flag, state, negate)
            &&& forall|q: Seq<char>| q != state ==> #[trigger] s.pseudo_classes.contains(q) == s0.pseudo_classes.contains(q)
            &&& s.element == s0.element
            &&& s.dirty == (s0.dirty || typed_in::<bool>(m, (e, flag)) is Some)
        }),
        forall|q: Key| q != (e, "selector"@) ==> #[trigger] agree_at(flag_state(m, e, flag, state, negate), m, q),
{
    if let Some(v) = typed_in::<bool>(m, (e, flag)) {
        law_update_state(m, e, state, v != negate);
        lemma_state_set_keeps_flags(m, e, state, v != negate);
    }
}

/// The text step: the selector after it, and the flags of `e`, relate to those before.
proof fn lemma_text_step(m: Props, e: u32)
    requires
        selector_of(m, e) is Some,
    ensures
        selector_of(text_state(m, e), e) is Some,
        forall|key: Seq<char>| #[trigger] typed_in::<bool>(text_state(m, e), (e, key)) == typed_in::<bool>(m, (e, key)),
        ({
            let s0 = selector_of(m, e)->0;
            let s = selector_of(text_state(m, e), e)->0;
            &&& match typed_in::<String16>(m, (e, "text"@)) {
                Some(t) => s.pseudo_classes.contains("empty"@) == (t.len() == 0),
                None => s.pseudo_classes.contains("empty"@) == s0.pseudo_classes.contains("empty"@),
            }
            &&& forall|q: Seq<char>| q != "empty"@ ==> #[trigger] s.pseudo_classes.contains(q) == s0.pseudo_classes.contains(q)
            &&& s.element == s0.element
            &&& s.dirty == (s0.dirty || typed_in::<String16>(m, (e, "text"@)) is Some)
        }),
        forall|q: Key| q != (e, "selector"@) ==> #[trigger] agree_at(text_state(m, e), m, q),
{
    if let Some(t) = typed_in::<String16>(m, (e, "text"@)) {
        law_update_state(m, e, "empty"@, t.len() == 0);
        lemma_state_set_keeps_flags(m, e, "empty"@, t.len() == 0);
    }
}

/// Reading the states of a widget from its flags and text puts its selector in each
/// state exactly as they say, and in no other state than before.
pub proof fn law_states_follow_flags(m: Props, e: u32)
    requires
        selector_of(m, e) is Some,
    ensures
        selector_of(states_updated(m, e), e) is Some,
        states_follow_flags(selector_of(states_updated(m, e), e)->0, selector_of(m, e)->0, m, e),
        forall|q: Key| q != (e, "selector"@) ==> #[trigger] agree_at(states_updated(m, e), m, q),
{
    lemma_state_names_distinct();
    let m1 = flag_state(m, e, "focused"@, "focused"@, false);
    let m2 = flag_state(m1, e, "selected"@, "selected"@, false);
    let m3 = flag_state(m2, e, "pressed"@, "pressed"@, false);
    let m4 = flag_state(m3, e, "enabled"@, "disabled"@, true);
    let m5 = text_state(m4, e);
    let m6 = flag_state(m5, e, "expanded"@, "expanded"@, true);
    lemma_flag_step(m, e, "focused"@, "focused"@, false);
    lemma_flag_step(m1, e, "selected"@, "selected"@, false);
    lemma_flag_step(m2, e, "pressed"@, "pressed"@, false);
    lemma_flag_step(m3, e, "enabled"@, "disabled"@, true);
    lemma_text_step(m4, e);
    lemma_flag_step(m5, e, "expanded"@, "expanded"@, true);
    assert(m6 == states_updated(m, e));
    let s0 = selector_of(m, e)->0;
    let s1 = selector_of(m1, e)->0;
    let s2 = selector_of(m2, e)->0;
    let s3 = selector_of(m3, e)->0;
    let s4 = selector_of(m4, e)->0;
    let s5 = selector_of(m5, e)->0;
    let s6 = selector_of(m6, e)->0;
    assert(typed_in::<bool>(m5, (e, "expanded"@)) == typed_in::<bool>(m, (e, "expanded"@)));
    assert(typed_in::<bool>(m3, (e, "enabled"@)) == typed_in::<bool>(m, (e, "enabled"@)));
    assert(typed_in::<bool>(m2, (e, "pressed"@)) == typed_in::<bool>(m, (e, "pressed"@)));
    assert(typed_in::<bool>(m1, (e, "selected"@)) == typed_in::<bool>(m, (e, "selected"@)));
    assert(typed_in::<String16>(m4, (e, "text"@)) == typed_in::<String16>(m, (e, "text"@)));
    assert(s6.pseudo_classes.contains("focused"@) == s1.pseudo_classes.contains("focused"@));
    assert(s6.pseudo_classes.contains("selected"@) == s2.pseudo_classes.contains("selected"@));
    assert(s6.pseudo_classes.contains("pressed"@) == s3.pseudo_classes.contains("pressed"@));
    assert(s6.pseudo_classes.contains("disabled"@) == s4.pseudo_classes.contains("disabled"@));
    assert(s6.pseudo_classes.contains("empty"@) == s5.pseudo_classes.contains("empty"@));
    assert(s5.pseudo_classes.contains("expanded"@) == s0.pseudo_classes.contains("expanded"@));
    assert(s1.pseudo_classes.contains("selected"@) == s0.pseudo_classes.contains("selected"@));
    assert(s2.pseudo_classes.contains("pressed"@) == s0.pseudo_classes.contains("pressed"@));
    assert(s3.pseudo_classes.contains("disabled"@) == s0.pseudo_classes.contains("disabled"@));
    assert(s4.pseudo_classes.contains("empty"@) == s0.pseudo_classes.contains("empty"@));
    assert forall|q: Key| q != (e, "selector"@) implies #[trigger] agree_at(m6, m, q) by {
        assert(agree_at(m1, m, q));
        assert(agree_at(m2, m1, q));
        assert(agree_at(m3, m2, q));
        assert(agree_at(m4, m3, q));
        assert(agree_at(m5, m4, q));
        assert(agree_at(m6, m5, q));
    }
}

/// Updating one widget by state puts its selector in each state as its flags and
/// text say, whether or not theming is forced, and keeps it so while theming it.
pub proof fn law_entity_states_follow_flags(m: Props, e: u32, force: bool, rules: Seq<RuleView>)
    requires
        selector_of(m, e) is Some,
    ensures
        selector_of(entity_themed(m, e, force, rules), e) is Some,
        states_follow_flags(selector_of(entity_themed(m, e, force, rules), e)->0, selector_of(m, e)->0, m, e),
        selector_of(entity_themed(m, e, force, rules), e)->0.dirty ==> follows_theme(
            entity_themed(m, e, force, rules),
            m,
            e,
            selector_of(entity_themed(m, e, force, rules), e)->0,
            rules,
        ),
        !selector_of(entity_themed(m, e, force, rules), e)->0.dirty ==> forall|k: Seq<char>|
            k != "selector"@ ==> #[trigger] agree_at(entity_themed(m, e, force, rules), m, (e, k)),
{
    let m1 = states_updated(m, e);
    law_states_follow_flags(m, e);
    let s = selector_of(m1, e)->0;
    assert forall|k: Seq<char>| k != "selector"@ implies #[trigger] agree_at(m1, m, (e, k)) by {
        assert(agree_at(m1, m, (e, k)));
    }
    if s.dirty {
        law_style_values_follow_theme(m1, e, rules, s);
        lemma_follows_theme_transfer(properties_themed(m1, e, rules), m1, m, e, s, rules);
        lemma_theming_keeps_selector(m1, e, s, rules, s);
        let t = themed_properties(m1, e, s, rules);
        assert(SelectorView { dirty: true, ..s } == s);
        Selector::lemma_unwrap_wrap(s);
        assert(selector_of(marked_dirty(t, e), e) == Some(s));
    }
}

/// Following a path down from `y` that reaches `x`, a height bound of `y` bounds `x` too.
proof fn lemma_bounded_below(tree: Map<u32, Seq<u32>>, y: u32, x: u32, f: nat, g: nat)
    requires
        bounded(tree, y, f),
        in_subtree(tree, y, x, g),
    ensures
        bounded(tree, x, f),
    decreases g,
{
    if x != y {
        let i = choose|i: int| 0 <= i < tree[y].len() && in_subtree(tree, #[trigger] tree[y][i], x, (g - 1) as nat);
        lemma_bounded_below(tree, tree[y][i], x, (f - 1) as nat, (g - 1) as nat);
        lemma_bounded_more(tree, x, (f - 1) as nat);
    }
}

/// A height bound still holds with more fuel.
proof fn lemma_bounded_more(tree: Map<u32, Seq<u32>>, x: u32, f: nat)
    requires
        bounded(tree, x, f),
    ensures
        bounded(tree, x, f + 1),
    decreases f,
{
    assert forall|i: int| 0 <= i < tree[x].len() implies bounded(tree, #[trigger] tree[x][i], f) by {
        assert(bounded(tree, tree[x][i], (f - 1) as nat));
        if f > 1 {
            lemma_bounded_more(tree, tree[x][i], (f - 1) as nat);
        }
    }
}

/// In a bounded subtree, no widget is below one of its own children.
proof fn lemma_no_cycle(tree: Map<u32, Seq<u32>>, e: u32, f: nat)
    requires
        bounded(tree, e, f),
    ensures
        forall|i: int, g: nat| 0 <= i < tree[e].len() ==> !#[trigger] in_subtree(tree, tree[e][i], e, g),
    decreases f,
{
    assert forall|i: int, g: nat| 0 <= i < tree[e].len() implies !#[trigger] in_subtree(tree, tree[e][i], e, g) by {
        if in_subtree(tree, tree[e][i], e, g) {
            lemma_bounded_below(tree, tree[e][i], e, (f - 1) as nat, g);
            lemma_no_cycle(tree, e, (f - 1) as nat);
        }
    }
}

/// Two property maps with the same properties of `x` agree on every key of `x`.
proof fn lemma_same_entity(a: Props, b: Props, x: u32)
    requires
        of_entity(a, x) == of_entity(b, x),
    ensures
        forall|k: Seq<char>| #[trigger] agree_at(a, b, (x, k)),
{
    assert forall|k: Seq<char>| #[trigger] agree_at(a, b, (x, k)) by {
        assert(of_entity(a, x).contains_key((x, k)) == a.contains_key((x, k)));
        assert(of_entity(b, x).contains_key((x, k)) == b.contains_key((x, k)));
        if a.contains_key((x, k)) {
            assert(of_entity(a, x)[(x, k)] == a[(x, k)]);
            assert(of_entity(b, x)[(x, k)] == b[(x, k)]);
        }
    }
}

/// Updating a widget subtree by state (children first, then the widget) puts the
/// selector of the widget in each state as the widget's own flags and text say,
/// whether or not theming is forced.
pub proof fn law_update_by_state_follows_flags(
    m: Props,
    tree: Map<u32, Seq<u32>>,
    e: u32,
    force: bool,
    rules: Seq<RuleView>,
)
    requires
        exists|fuel: nat| bounded(tree, e, fuel),
        selector_of(m, e) is Some,
    ensures
        selector_of(theme_walk(m, tree, e, force, rules), e) is Some,
        states_follow_flags(selector_of(theme_walk(m, tree, e, force, rules), e)->0, selector_of(m, e)->0, m, e),
        selector_of(theme_walk(m, tree, e, force, rules), e)->0.dirty ==> follows_theme(
            theme_walk(m, tree, e, force, rules),
            m,
            e,
            selector_of(theme_walk(m, tree, e, force, rules), e)->0,
            rules,
        ),
        !selector_of(theme_walk(m, tree, e, force, rules), e)->0.dirty ==> forall|k: Seq<char>|
            k != "selector"@ ==> #[trigger] agree_at(theme_walk(m, tree, e, force, rules), m, (e, k)),
{
    let after = lemma_root_last(m, tree, e, force, rules);
    assert(agree_at(after, m, (e, "selector"@)));
    law_entity_states_follow_flags(after, e, force, rules);
    let r = entity_themed(after, e, force, rules);
    let s = selector_of(r, e)->0;
    lemma_states_follow_flags_transfer(s, selector_of(m, e)->0, after, m, e);
    lemma_follows_theme_transfer(r, after, m, e, s, rules);
    if !s.dirty {
        assert forall|k: Seq<char>| k != "selector"@ implies #[trigger] agree_at(r, m, (e, k)) by {
            assert(agree_at(r, after, (e, k)));
            assert(agree_at(after, m, (e, k)));
        }
    }
}

/// Updating a subtree by state ends with the widget at its root, taken with its own
/// properties as they were: the subtrees of its children do not hold it.
proof fn lemma_root_last(m: Props, tree: Map<u32, Seq<u32>>, e: u32, force: bool, rules: Seq<RuleView>) -> (after: Props)
    requires
        exists|fuel: nat| bounded(tree, e, fuel),
    ensures
        theme_walk(m, tree, e, force, rules) == entity_themed(after, e, force, rules),
        forall|k: Seq<char>| #[trigger] agree_at(after, m, (e, k)),
{
    let f = choose|fuel: nat| bounded(tree, e, fuel);
    let after = walk_children(m, tree, tree[e], 0, force, rules, (f - 1) as nat);
    lemma_no_cycle(tree, e, f);
    lemma_walk_children_frame(m, tree, e, 0, force, rules, (f - 1) as nat, e);
    lemma_same_entity(after, m, e);
    assert(walk(m, tree, e, force, rules, f) == entity_themed(after, e, force, rules));
    after
}

/// Whether the states of a selector follow the flags of `e` in `a` or in `b` is the
/// same, where `a` and `b` hold the same properties of `e`.
proof fn lemma_states_follow_flags_transfer(s: SelectorView, s0: SelectorView, a: Props, b: Props, e: u32)
    requires
        forall|k: Seq<char>| #[trigger] agree_at(a, b, (e, k)),
    ensures
        states_follow_flags(s, s0, a, e) == states_follow_flags(s, s0, b, e),
{
    assert(agree_at(a, b, (e, "focused"@)));
    assert(agree_at(a, b, (e, "selected"@)));
    assert(agree_at(a, b, (e, "pressed"@)));
    assert(agree_at(a, b, (e, "enabled"@)));
    assert(agree_at(a, b, (e, "expanded"@)));
    assert(agree_at(a, b, (e, "text"@)));
}

} // verus!
