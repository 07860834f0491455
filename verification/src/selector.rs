//! The style selector of a widget: its element name, the states it is in
//! (such as `focused` or `pressed`), and whether it changed since the theme
//! was last applied.
use vstd::prelude::*;

verus! {

/// The set of texts that occur in `v`.
pub open spec fn text_set(v: Seq<String>) -> Set<Seq<char>> {
    Set::new(|x: Seq<char>| exists|i: int| 0 <= i < v.len() && (#[trigger] v[i])@ == x)
}

pub open spec fn option_text(o: Option<String>) -> Option<Seq<char>> {
    match o {
        Some(s) => Some(s@),
        None => None,
    }
}

/// What a selector stands for: an element name, a set of states and the dirty flag.
pub struct SelectorView {
    pub element: Option<Seq<char>>,
    pub pseudo_classes: Set<Seq<char>>,
    pub dirty: bool,
}

pub struct Selector {
    pub element: Option<String>,
    pub pseudo_classes: Vec<String>,
    pub dirty: bool,
}

impl View for Selector {
    type V = SelectorView;

    open spec fn view(&self) -> SelectorView {
        SelectorView {
            element: option_text(self.element),
            pseudo_classes: text_set(self.pseudo_classes@),
            dirty: self.dirty,
        }
    }
}

fn copy_text(s: &String) -> (r: String)
    ensures
        r == *s,
{
    s.clone()
}

impl Selector {
    /// What a selector for the element `element` in no state stands for.
    pub open spec fn from_element_spec(element: Seq<char>) -> SelectorView {
        SelectorView { element: Some(element), pseudo_classes: Set::empty(), dirty: false }
    }

    /// A selector for the element `element`, in no state.
    pub fn from_element(element: &str) -> (s: Selector)
        ensures
            s@ == Self::from_element_spec(element@),
    {
        let s = Selector { element: Some(element.to_owned()), pseudo_classes: Vec::new(), dirty: false };
        assert(s@.pseudo_classes =~= Set::<Seq<char>>::empty());
        s
    }

    /// Whether the selector changed since the theme was last applied.
    pub fn dirty(&self) -> (b: bool)
        ensures
            b == self@.dirty,
    {
        self.dirty
    }

    pub fn set_dirty(&mut self, dirty: bool)
        ensures
            final(self)@ == (SelectorView { dirty, ..old(self)@ }),
    {
        self.dirty = dirty;
    }

    /// Whether the selector is in the state `state`.
    pub fn has_state(&self, state: &str) -> (b: bool)
        ensures
            b == self@.pseudo_classes.contains(state@),
    {
        let s = state.to_owned();
        let n = self.pseudo_classes.len();
        let mut i: usize = 0;
        while i < n
            invariant
                n == self.pseudo_classes@.len(),
                i <= n,
                s@ == state@,
                forall|j: int| 0 <= j < i ==> (#[trigger] self.pseudo_classes@[j])@ != state@,
            decreases n - i,
        {
            if self.pseudo_classes[i] == s {
                assert(self.pseudo_classes@[i as int]@ == state@);
                return true;
            }
            i = i + 1;
        }
        false
    }

    /// Puts the selector into the state `state`.
    pub fn set_state(&mut self, state: &str)
        ensures
            final(self)@ == (SelectorView {
                pseudo_classes: old(self)@.pseudo_classes.insert(state@),
                ..old(self)@
            }),
    {
        if !self.has_state(state) {
            let ghost before = self.pseudo_classes@;
            self.pseudo_classes.push(state.to_owned());
            assert(text_set(self.pseudo_classes@) =~= text_set(before).insert(state@)) by {
                assert forall|x: Seq<char>| text_set(before).insert(state@).contains(x) implies
                    text_set(self.pseudo_classes@).contains(x) by {
                    if x == state@ {
                        assert(self.pseudo_classes@[before.len() as int]@ == x);
                    } else {
                        let j = choose|j: int| 0 <= j < before.len() && (#[trigger] before[j])@ == x;
                        assert(self.pseudo_classes@[j] == before[j]);
                    }
                }
                assert forall|x: Seq<char>| text_set(self.pseudo_classes@).contains(x) implies
                    text_set(before).insert(state@).contains(x) by {
                    let j = choose|j: int| 0 <= j < self.pseudo_classes@.len() && (#[trigger] self.pseudo_classes@[j])@ == x;
                    if j < before.len() {
                        assert(before[j] == self.pseudo_classes@[j]);
                    }
                }
            }
        } else {
            assert(old(self)@.pseudo_classes.insert(state@) =~= old(self)@.pseudo_classes);
        }
    }

    /// Takes the selector out of the state `state`.
    pub fn clear_state(&mut self, state: &str)
        ensures
            final(self)@ == (SelectorView {
                pseudo_classes: old(self)@.pseudo_classes.remove(state@),
                ..old(self)@
            }),
    {
        let s = state.to_owned();
        let ghost before = self.pseudo_classes@;
        let n = self.pseudo_classes.len();
        let mut kept: Vec<String> = Vec::new();
        let mut i: usize = 0;
        while i < n
            invariant
                n == before.len(),
                before == self.pseudo_classes@,
                i <= n,
                s@ == state@,
                forall|x: Seq<char>| text_set(kept@).contains(x) <==>
                    (x != state@ && exists|j: int| 0 <= j < i && (#[trigger] before[j])@ == x),
            decreases n - i,
        {
            let ghost prev = kept@;
            if self.pseudo_classes[i] != s {
                kept.push(copy_text(&self.pseudo_classes[i]));
            }
            assert forall|x: Seq<char>| text_set(kept@).contains(x) <==>
                (x != state@ && exists|j: int| 0 <= j < i + 1 && (#[trigger] before[j])@ == x) by {
                if text_set(kept@).contains(x) {
                    let k = choose|k: int| 0 <= k < kept@.len() && (#[trigger] kept@[k])@ == x;
                    if k < prev.len() {
                        assert(prev[k] == kept@[k]);
                        assert(text_set(prev).contains(x));
                    } else {
                        assert(before[i as int]@ == x);
                    }
                }
                if x != state@ && exists|j: int| 0 <= j < i + 1 && (#[trigger] before[j])@ == x {
                    let j = choose|j: int| 0 <= j < i + 1 && (#[trigger] before[j])@ == x;
                    if j < i {
                        assert(text_set(prev).contains(x));
                        let k = choose|k: int| 0 <= k < prev.len() && (#[trigger] prev[k])@ == x;
                        assert(kept@[k] == prev[k]);
                    } else {
                        assert(kept@[kept@.len() - 1]@ == x);
                    }
                }
            }
            i = i + 1;
        }
        self.pseudo_classes = kept;
        assert(self@.pseudo_classes =~= text_set(before).remove(state@));
    }

    /// A copy of the selector.
    pub fn copy(&self) -> (r: Selector)
        ensures
            r@ == self@,
    {
        let element = match &self.element {
            Some(e) => Some(copy_text(e)),
            None => None,
        };
        let n = self.pseudo_classes.len();
        let mut states: Vec<String> = Vec::new();
        let mut i: usize = 0;
        while i < n
            invariant
                n == self.pseudo_classes@.len(),
                i <= n,
                states@ == self.pseudo_classes@.subrange(0, i as int),
            decreases n - i,
        {
            states.push(copy_text(&self.pseudo_classes[i]));
            assert(states@ =~= self.pseudo_classes@.subrange(0, i + 1));
            i = i + 1;
        }
        assert(states@ =~= self.pseudo_classes@);
        Selector { element, pseudo_classes: states, dirty: self.dirty }
    }

    /// Whether two selectors stand for the same element, states and dirty flag.
    pub fn same_as(&self, other: &Selector) -> (b: bool)
        ensures
            b == (self@ == other@),
    {
        let element_eq = match (&self.element, &other.element) {
            (Some(a), Some(b)) => *a == *b,
            (None, None) => true,
            _ => false,
        };
        if !element_eq || self.dirty != other.dirty {
            return false;
        }
        let n = self.pseudo_classes.len();
        let mut i: usize = 0;
        while i < n
            invariant
                n == self.pseudo_classes@.len(),
                i <= n,
                forall|j: int| 0 <= j < i ==> other@.pseudo_classes.contains((#[trigger] self.pseudo_classes@[j])@),
            decreases n - i,
        {
            if !other.has_state(self.pseudo_classes[i].as_str()) {
                assert(self@.pseudo_classes.contains(self.pseudo_classes@[i as int]@));
                return false;
            }
            i = i + 1;
        }
        let m = other.pseudo_classes.len();
        let mut k: usize = 0;
        while k < m
            invariant
                m == other.pseudo_classes@.len(),
                k <= m,
                forall|j: int| 0 <= j < k ==> self@.pseudo_classes.contains((#[trigger] other.pseudo_classes@[j])@),
            decreases m - k,
        {
            if !self.has_state(other.pseudo_classes[k].as_str()) {
                assert(other@.pseudo_classes.contains(other.pseudo_classes@[k as int]@));
                return false;
            }
            k = k + 1;
        }
        assert(self@.pseudo_classes =~= other@.pseudo_classes) by {
            assert forall|x: Seq<char>| self@.pseudo_classes.contains(x) implies other@.pseudo_classes.contains(x) by {
                let j = choose|j: int| 0 <= j < self.pseudo_classes@.len() && (#[trigger] self.pseudo_classes@[j])@ == x;
            }
            assert forall|x: Seq<char>| other@.pseudo_classes.contains(x) implies self@.pseudo_classes.contains(x) by {
                let j = choose|j: int| 0 <= j < other.pseudo_classes@.len() && (#[trigger] other.pseudo_classes@[j])@ == x;
            }
        }
        true
    }
}

} // verus!
