//! Themes: style rules that give a widget, by its selector, the values of its
//! style properties (colours, sizes, font families).
use vstd::prelude::*;
use crate::types::Brush;
use crate::selector::{Selector, SelectorView, option_text};

verus! {

/// A value that a theme assigns to a style property.
pub enum ThemeValue {
    Brush(Brush),
    UInt(u32),
    Str(String),
    /// A floating-point value, such as an opacity, held as its IEEE 754 bits.
    FloatBits(u32),
}

pub enum ThemeValueView {
    Brush(Brush),
    UInt(u32),
    Str(Seq<char>),
    FloatBits(u32),
}

impl View for ThemeValue {
    type V = ThemeValueView;

    open spec fn view(&self) -> ThemeValueView {
        match self {
            ThemeValue::Brush(b) => ThemeValueView::Brush(*b),
            ThemeValue::UInt(n) => ThemeValueView::UInt(*n),
            ThemeValue::Str(s) => ThemeValueView::Str(s@),
            ThemeValue::FloatBits(b) => ThemeValueView::FloatBits(*b),
        }
    }
}

/// A style rule: for widgets of `element` (any element where it is `None`) that
/// are in all of `states`, the style property `property` is `value`.
pub struct ThemeRule {
    pub element: Option<String>,
    pub states: Vec<String>,
    pub property: String,
    pub value: ThemeValue,
}

pub struct RuleView {
    pub element: Option<Seq<char>>,
    pub states: Seq<Seq<char>>,
    pub property: Seq<char>,
    pub value: ThemeValueView,
}

impl View for ThemeRule {
    type V = RuleView;

    open spec fn view(&self) -> RuleView {
        RuleView {
            element: option_text(self.element),
            states: self.states@.map_values(|s: String| s@),
            property: self.property@,
            value: self.value@,
        }
    }
}

/// Whether `rule` applies to a widget with selector `sel`.
pub open spec fn rule_applies(rule: RuleView, sel: SelectorView) -> bool {
    &&& (rule.element matches Some(e) ==> sel.element == Some(e))
    &&& forall|i: int| 0 <= i < rule.states.len() ==> sel.pseudo_classes.contains(#[trigger] rule.states[i])
}

/// The value that the last rule of `rules` that applies to `sel` and names
/// `property` gives it; later rules take precedence over earlier ones.
pub open spec fn lookup(rules: Seq<RuleView>, property: Seq<char>, sel: SelectorView) -> Option<ThemeValueView>
    decreases rules.len(),
{
    if rules.len() == 0 {
        None
    } else if rules.last().property == property && rule_applies(rules.last(), sel) {
        Some(rules.last().value)
    } else {
        lookup(rules.drop_last(), property, sel)
    }
}

pub open spec fn brush_of(rules: Seq<RuleView>, property: Seq<char>, sel: SelectorView) -> Option<Brush> {
    match lookup(rules, property, sel) {
        Some(ThemeValueView::Brush(b)) => Some(b),
        _ => None,
    }
}

pub open spec fn uint_of(rules: Seq<RuleView>, property: Seq<char>, sel: SelectorView) -> Option<u32> {
    match lookup(rules, property, sel) {
        Some(ThemeValueView::UInt(n)) => Some(n),
        _ => None,
    }
}

pub open spec fn float_bits_of(rules: Seq<RuleView>, property: Seq<char>, sel: SelectorView) -> Option<u32> {
    match lookup(rules, property, sel) {
        Some(ThemeValueView::FloatBits(b)) => Some(b),
        _ => None,
    }
}

pub open spec fn string_of(rules: Seq<RuleView>, property: Seq<char>, sel: SelectorView) -> Option<Seq<char>> {
    match lookup(rules, property, sel) {
        Some(ThemeValueView::Str(s)) => Some(s),
        _ => None,
    }
}

/// A rule added last decides the value of the property it names for every selector it
/// applies to; for any other property or selector it changes nothing.
pub proof fn law_last_rule_wins(rules: Seq<RuleView>, r: RuleView, property: Seq<char>, sel: SelectorView)
    ensures
        r.property == property && rule_applies(r, sel) ==> lookup(rules.push(r), property, sel) == Some(r.value),
        !(r.property == property && rule_applies(r, sel)) ==> lookup(rules.push(r), property, sel) == lookup(
            rules,
            property,
            sel,
        ),
{
    assert(rules.push(r).drop_last() =~= rules);
}

/// A rule is passed over for a selector that lacks one of its states, that is of
/// another element than the rule names, or where it names another property; a rule
/// that names the property, whose element (if any) is the selector's and whose every
/// state the selector is in gives the value, over every earlier rule.
pub proof fn law_rule_needs_element_and_every_state(
    rules: Seq<RuleView>,
    r: RuleView,
    property: Seq<char>,
    sel: SelectorView,
)
    ensures
        forall|i: int|
            0 <= i < r.states.len() && !sel.pseudo_classes.contains(#[trigger] r.states[i])
                ==> lookup(rules.push(r), property, sel) == lookup(rules, property, sel),
        (r.element matches Some(el) && sel.element != Some(el))
            ==> lookup(rules.push(r), property, sel) == lookup(rules, property, sel),
        r.property != property ==> lookup(rules.push(r), property, sel) == lookup(rules, property, sel),
        r.property == property && (r.element matches Some(el) ==> sel.element == Some(el)) && (forall|i: int|
            0 <= i < r.states.len() ==> sel.pseudo_classes.contains(#[trigger] r.states[i]))
            ==> lookup(rules.push(r), property, sel) == Some(r.value),
{
    law_last_rule_wins(rules, r, property, sel);
}

/// An ordered list of style rules.
pub struct Theme {
    rules: Vec<ThemeRule>,
}

impl View for Theme {
    type V = Seq<RuleView>;

    open spec fn view(&self) -> Seq<RuleView> {
        self.rule_views()
    }
}

impl ThemeRule {
    pub fn new(element: Option<&str>, states: Vec<String>, property: &str, value: ThemeValue) -> (r: ThemeRule)
        ensures
            r@.element == (match element {
                Some(e) => Some(e@),
                None => None::<Seq<char>>,
            }),
            r@.states == states@.map_values(|s: String| s@),
            r@.property == property@,
            r@.value == value@,
    {
        let element = match element {
            Some(e) => Some(e.to_owned()),
            None => None,
        };
        ThemeRule { element, states, property: property.to_owned(), value }
    }

    /// Whether the rule applies to a widget with selector `selector`.
    pub fn applies_to(&self, selector: &Selector) -> (b: bool)
        ensures
            b == rule_applies(self@, selector@),
    {
        match &self.element {
            Some(e) => match &selector.element {
                Some(se) => {
                    if *e != *se {
                        return false;
                    }
                },
                None => {
                    return false;
                },
            },
            None => {},
        }
        let n = self.states.len();
        let mut i: usize = 0;
        while i < n
            invariant
                n == self.states@.len(),
                i <= n,
                forall|j: int| 0 <= j < i ==> selector@.pseudo_classes.contains(#[trigger] self@.states[j]),
            decreases n - i,
        {
            if !selector.has_state(self.states[i].as_str()) {
                assert(!selector@.pseudo_classes.contains(self@.states[i as int]));
                return false;
            }
            i = i + 1;
        }
        true
    }
}

impl Theme {
    pub closed spec fn rule_views(&self) -> Seq<RuleView> {
        self.rules@.map_values(|r: ThemeRule| r@)
    }

    /// A theme without rules.
    pub fn new() -> (t: Theme)
        ensures
            t@ == Seq::<RuleView>::empty(),
    {
        let t = Theme { rules: Vec::new() };
        assert(t@ =~= Seq::<RuleView>::empty());
        t
    }

    /// Adds `rule` after all rules of the theme.
    pub fn add_rule(&mut self, rule: ThemeRule)
        ensures
            final(self)@ == old(self)@.push(rule@),
    {
        let ghost r = rule@;
        self.rules.push(rule);
        assert(self@ =~= old(self)@.push(r));
    }

    /// Adds `rule` after all rules of the theme, and hands the theme back.
    pub fn with_rule(self, rule: ThemeRule) -> (t: Theme)
        ensures
            t@ == self@.push(rule@),
    {
        let mut t = self;
        t.add_rule(rule);
        t
    }

    /// The number of rules.
    pub fn len(&self) -> (n: usize)
        ensures
            n == self@.len(),
    {
        self.rules.len()
    }

    /// The value that the theme gives the style property `property` of a widget with selector `selector`.
    pub fn value(&self, property: &str, selector: &Selector) -> (r: Option<&ThemeValue>)
        ensures
            match r {
                Some(v) => lookup(self@, property@, selector@) == Some(v@),
                None => lookup(self@, property@, selector@) is None,
            },
    {
        let p = property.to_owned();
        let mut i: usize = self.rules.len();
        assert(self@.subrange(0, i as int) =~= self@);
        while i > 0
            invariant
                i <= self.rules@.len(),
                p@ == property@,
                lookup(self@, property@, selector@) == lookup(self@.subrange(0, i as int), property@, selector@),
            decreases i,
        {
            let ghost pre = self@.subrange(0, i as int);
            assert(pre.last() == self.rules@[i - 1]@);
            assert(pre.drop_last() =~= self@.subrange(0, i - 1));
            if self.rules[i - 1].property == p && self.rules[i - 1].applies_to(selector) {
                return Some(&self.rules[i - 1].value);
            }
            i = i - 1;
        }
        None
    }

    /// The brush that the theme gives the style property `property`.
    pub fn brush(&self, property: &str, selector: &Selector) -> (r: Option<Brush>)
        ensures
            r == brush_of(self@, property@, selector@),
    {
        match self.value(property, selector) {
            Some(ThemeValue::Brush(b)) => Some(*b),
            _ => None,
        }
    }

    /// The unsigned number that the theme gives the style property `property`.
    pub fn uint(&self, property: &str, selector: &Selector) -> (r: Option<u32>)
        ensures
            r == uint_of(self@, property@, selector@),
    {
        match self.value(property, selector) {
            Some(ThemeValue::UInt(n)) => Some(*n),
            _ => None,
        }
    }

    /// The bits of the floating-point value that the theme gives the style property `property`.
    pub fn float_bits(&self, property: &str, selector: &Selector) -> (r: Option<u32>)
        ensures
            r == float_bits_of(self@, property@, selector@),
    {
        match self.value(property, selector) {
            Some(ThemeValue::FloatBits(b)) => Some(*b),
            _ => None,
        }
    }

    /// The text that the theme gives the style property `property`.
    pub fn string(&self, property: &str, selector: &Selector) -> (r: Option<String>)
        ensures
            match r {
                Some(s) => string_of(self@, property@, selector@) == Some(s@),
                None => string_of(self@, property@, selector@) is None,
            },
    {
        match self.value(property, selector) {
            Some(ThemeValue::Str(s)) => Some(s.clone()),
            _ => None,
        }
    }
}

} // verus!
