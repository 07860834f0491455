//! Typed widget properties and the store that holds them, keyed by entity and name.
use vstd::prelude::*;
use crate::types::{Brush, Constraint, String16, Thickness};
use crate::selector::{Selector, SelectorView};

verus! {

/// A property value of one of the kinds a widget can carry.
pub enum PropertyValue {
    Bool(bool),
    Number(u32),
    Str(String),
    Text(String16),
    Selector(Selector),
    Brush(Brush),
    Thickness(Thickness),
    Constraint(Constraint),
}

/// What a property value stands for.
pub enum PropertyView {
    Bool(bool),
    Number(u32),
    Str(Seq<char>),
    Text(Seq<u16>),
    Selector(SelectorView),
    Brush(Brush),
    Thickness(Thickness),
    Constraint(Constraint),
}

impl View for PropertyValue {
    type V = PropertyView;

    open spec fn view(&self) -> PropertyView {
        match self {
            PropertyValue::Bool(b) => PropertyView::Bool(*b),
            PropertyValue::Number(n) => PropertyView::Number(*n),
            PropertyValue::Str(s) => PropertyView::Str(s@),
            PropertyValue::Text(t) => PropertyView::Text(t@),
            PropertyValue::Selector(s) => PropertyView::Selector(s@),
            PropertyValue::Brush(b) => PropertyView::Brush(*b),
            PropertyValue::Thickness(t) => PropertyView::Thickness(*t),
            PropertyValue::Constraint(c) => PropertyView::Constraint(*c),
        }
    }
}

/// The kind of a property value, as a number.
pub open spec fn kind(v: PropertyView) -> int {
    match v {
        PropertyView::Bool(_) => 0,
        PropertyView::Number(_) => 1,
        PropertyView::Str(_) => 2,
        PropertyView::Text(_) => 3,
        PropertyView::Selector(_) => 4,
        PropertyView::Brush(_) => 5,
        PropertyView::Thickness(_) => 6,
        PropertyView::Constraint(_) => 7,
    }
}

/// A type that can be held as a property.
pub trait Property: Sized + View {
    /// The property value that stands for `x`.
    spec fn wrap(x: Self::V) -> PropertyView;

    /// The value of this type that `v` stands for, if `v` is of this type.
    spec fn unwrap(v: PropertyView) -> Option<Self::V>;

    proof fn lemma_unwrap_wrap(x: Self::V)
        ensures
            Self::unwrap(Self::wrap(x)) == Some(x),
    ;

    proof fn lemma_wrap_unwrap(v: PropertyView)
        ensures
            Self::unwrap(v) matches Some(x) ==> Self::wrap(x) == v,
    ;

    /// All values of the type are of one kind.
    proof fn lemma_kind(x: Self::V, v: PropertyView)
        requires
            Self::unwrap(v) is Some,
        ensures
            kind(Self::wrap(x)) == kind(v),
    ;

    fn into_value(self) -> (v: PropertyValue)
        ensures
            v@ == Self::wrap(self@),
    ;

    fn peek(v: &PropertyValue) -> (r: Option<&Self>)
        ensures
            match r {
                Some(p) => Self::unwrap(v@) == Some(p@),
                None => Self::unwrap(v@) is None,
            },
    ;

    fn peek_mut(v: &mut PropertyValue) -> (r: Option<&mut Self>)
        ensures
            match r {
                Some(p) => Self::unwrap(old(v)@) == Some(p@) && final(v)@ == Self::wrap(final(p)@),
                None => Self::unwrap(old(v)@) is None && final(v)@ == old(v)@,
            },
    ;

    fn copy_of(&self) -> (r: Self)
        ensures
            r@ == self@,
    ;

    /// What the default value of the type stands for.
    spec fn default_view() -> Self::V;

    fn default_value() -> (r: Self)
        ensures
            r@ == Self::default_view(),
    ;

    fn same_as(&self, other: &Self) -> (b: bool)
        ensures
            b == (self@ == other@),
    ;
}

impl Property for bool {
    open spec fn wrap(x: bool) -> PropertyView {
        PropertyView::Bool(x)
    }

    open spec fn unwrap(v: PropertyView) -> Option<bool> {
        match v {
            PropertyView::Bool(x) => Some(x),
            _ => None,
        }
    }

    proof fn lemma_unwrap_wrap(x: bool) {
    }

    proof fn lemma_wrap_unwrap(v: PropertyView) {
    }

    proof fn lemma_kind(x: bool, v: PropertyView) {
    }

    fn into_value(self) -> (v: PropertyValue) {
        PropertyValue::Bool(self)
    }

    fn peek(v: &PropertyValue) -> (r: Option<&bool>) {
        match v {
            PropertyValue::Bool(x) => Some(x),
            _ => None,
        }
    }

    fn peek_mut(v: &mut PropertyValue) -> (r: Option<&mut bool>) {
        match v {
            PropertyValue::Bool(x) => Some(x),
            _ => None,
        }
    }

    open spec fn default_view() -> Self::V {
        false
    }

    fn default_value() -> (r: Self) {
        false
    }

    fn copy_of(&self) -> (r: bool) {
        *self
    }

    fn same_as(&self, other: &bool) -> (b: bool) {
        *self == *other
    }
}

impl Property for u32 {
    open spec fn wrap(x: u32) -> PropertyView {
        PropertyView::Number(x)
    }

    open spec fn unwrap(v: PropertyView) -> Option<u32> {
        match v {
            PropertyView::Number(x) => Some(x),
            _ => None,
        }
    }

    proof fn lemma_unwrap_wrap(x: u32) {
    }

    proof fn lemma_wrap_unwrap(v: PropertyView) {
    }

    proof fn lemma_kind(x: u32, v: PropertyView) {
    }

    fn into_value(self) -> (v: PropertyValue) {
        PropertyValue::Number(self)
    }

    fn peek(v: &PropertyValue) -> (r: Option<&u32>) {
        match v {
            PropertyValue::Number(x) => Some(x),
            _ => None,
        }
    }

    fn peek_mut(v: &mut PropertyValue) -> (r: Option<&mut u32>) {
        match v {
            PropertyValue::Number(x) => Some(x),
            _ => None,
        }
    }

    open spec fn default_view() -> Self::V {
        0
    }

    fn default_value() -> (r: Self) {
        0
    }

    fn copy_of(&self) -> (r: u32) {
        *self
    }

    fn same_as(&self, other: &u32) -> (b: bool) {
        *self == *other
    }
}

impl Property for String {
    open spec fn wrap(x: Seq<char>) -> PropertyView {
        PropertyView::Str(x)
    }

    open spec fn unwrap(v: PropertyView) -> Option<Seq<char>> {
        match v {
            PropertyView::Str(x) => Some(x),
            _ => None,
        }
    }

    proof fn lemma_unwrap_wrap(x: Seq<char>) {
    }

    proof fn lemma_wrap_unwrap(v: PropertyView) {
    }

    proof fn lemma_kind(x: Seq<char>, v: PropertyView) {
    }

    fn into_value(self) -> (v: PropertyValue) {
        PropertyValue::Str(self)
    }

    fn peek(v: &PropertyValue) -> (r: Option<&String>) {
        match v {
            PropertyValue::Str(x) => Some(x),
            _ => None,
        }
    }

    fn peek_mut(v: &mut PropertyValue) -> (r: Option<&mut String>) {
        match v {
            PropertyValue::Str(x) => Some(x),
            _ => None,
        }
    }

    open spec fn default_view() -> Self::V {
        Seq::<char>::empty()
    }

    fn default_value() -> (r: Self) {
        String::new()
    }

    fn copy_of(&self) -> (r: String) {
        self.clone()
    }

    fn same_as(&self, other: &String) -> (b: bool) {
        *self == *other
    }
}

impl Property for String16 {
    open spec fn wrap(x: Seq<u16>) -> PropertyView {
        PropertyView::Text(x)
    }

    open spec fn unwrap(v: PropertyView) -> Option<Seq<u16>> {
        match v {
            PropertyView::Text(x) => Some(x),
            _ => None,
        }
    }

    proof fn lemma_unwrap_wrap(x: Seq<u16>) {
    }

    proof fn lemma_wrap_unwrap(v: PropertyView) {
    }

    proof fn lemma_kind(x: Seq<u16>, v: PropertyView) {
    }

    fn into_value(self) -> (v: PropertyValue) {
        PropertyValue::Text(self)
    }

    fn peek(v: &PropertyValue) -> (r: Option<&String16>) {
        match v {
            PropertyValue::Text(x) => Some(x),
            _ => None,
        }
    }

    fn peek_mut(v: &mut PropertyValue) -> (r: Option<&mut String16>) {
        match v {
            PropertyValue::Text(x) => Some(x),
            _ => None,
        }
    }

    open spec fn default_view() -> Self::V {
        Seq::<u16>::empty()
    }

    fn default_value() -> (r: Self) {
        let r = String16 { units: Vec::new() };
        assert(r@ =~= Seq::<u16>::empty());
        r
    }

    fn copy_of(&self) -> (r: String16) {
        let n = self.units.len();
        let mut units: Vec<u16> = Vec::new();
        let mut i: usize = 0;
        while i < n
            invariant
                n == self.units@.len(),
                i <= n,
                units@ == self.units@.subrange(0, i as int),
            decreases n - i,
        {
            units.push(self.units[i]);
            assert(units@ =~= self.units@.subrange(0, i + 1));
            i = i + 1;
        }
        assert(units@ =~= self.units@);
        String16 { units }
    }

    fn same_as(&self, other: &String16) -> (b: bool) {
        let n = self.units.len();
        if n != other.units.len() {
            return false;
        }
        let mut i: usize = 0;
        while i < n
            invariant
                n == self.units@.len(),
                n == other.units@.len(),
                i <= n,
                forall|j: int| 0 <= j < i ==> self.units@[j] == other.units@[j],
            decreases n - i,
        {
            if self.units[i] != other.units[i] {
                return false;
            }
            i = i + 1;
        }
        assert(self.units@ =~= other.units@);
        true
    }
}

impl Property for Selector {
    open spec fn wrap(x: SelectorView) -> PropertyView {
        PropertyView::Selector(x)
    }

    open spec fn unwrap(v: PropertyView) -> Option<SelectorView> {
        match v {
            PropertyView::Selector(x) => Some(x),
            _ => None,
        }
    }

    proof fn lemma_unwrap_wrap(x: SelectorView) {
    }

    proof fn lemma_wrap_unwrap(v: PropertyView) {
    }

    proof fn lemma_kind(x: SelectorView, v: PropertyView) {
    }

    fn into_value(self) -> (v: PropertyValue) {
        PropertyValue::Selector(self)
    }

    fn peek(v: &PropertyValue) -> (r: Option<&Selector>) {
        match v {
            PropertyValue::Selector(x) => Some(x),
            _ => None,
        }
    }

    fn peek_mut(v: &mut PropertyValue) -> (r: Option<&mut Selector>) {
        match v {
            PropertyValue::Selector(x) => Some(x),
            _ => None,
        }
    }

    open spec fn default_view() -> Self::V {
        SelectorView { element: None, pseudo_classes: Set::empty(), dirty: false }
    }

    fn default_value() -> (r: Self) {
        let r = Selector { element: None, pseudo_classes: Vec::new(), dirty: false };
        assert(r@.pseudo_classes =~= Set::<Seq<char>>::empty());
        r
    }

    fn copy_of(&self) -> (r: Selector) {
        self.copy()
    }

    fn same_as(&self, other: &Selector) -> (b: bool) {
        Selector::same_as(self, other)
    }
}

impl Property for Brush {
    open spec fn wrap(x: Brush) -> PropertyView {
        PropertyView::Brush(x)
    }

    open spec fn unwrap(v: PropertyView) -> Option<Brush> {
        match v {
            PropertyView::Brush(x) => Some(x),
            _ => None,
        }
    }

    proof fn lemma_unwrap_wrap(x: Brush) {
    }

    proof fn lemma_wrap_unwrap(v: PropertyView) {
    }

    proof fn lemma_kind(x: Brush, v: PropertyView) {
    }

    fn into_value(self) -> (v: PropertyValue) {
        PropertyValue::Brush(self)
    }

    fn peek(v: &PropertyValue) -> (r: Option<&Brush>) {
        match v {
            PropertyValue::Brush(x) => Some(x),
            _ => None,
        }
    }

    fn peek_mut(v: &mut PropertyValue) -> (r: Option<&mut Brush>) {
        match v {
            PropertyValue::Brush(x) => Some(x),
            _ => None,
        }
    }

    open spec fn default_view() -> Self::V {
        Brush::SolidColor(0)
    }

    fn default_value() -> (r: Self) {
        Brush::SolidColor(0)
    }

    fn copy_of(&self) -> (r: Brush) {
        *self
    }

    fn same_as(&self, other: &Brush) -> (b: bool) {
        self.color() == other.color()
    }
}

impl Property for Thickness {
    open spec fn wrap(x: Thickness) -> PropertyView {
        PropertyView::Thickness(x)
    }

    open spec fn unwrap(v: PropertyView) -> Option<Thickness> {
        match v {
            PropertyView::Thickness(x) => Some(x),
            _ => None,
        }
    }

    proof fn lemma_unwrap_wrap(x: Thickness) {
    }

    proof fn lemma_wrap_unwrap(v: PropertyView) {
    }

    proof fn lemma_kind(x: Thickness, v: PropertyView) {
    }

    fn into_value(self) -> (v: PropertyValue) {
        PropertyValue::Thickness(self)
    }

    fn peek(v: &PropertyValue) -> (r: Option<&Thickness>) {
        match v {
            PropertyValue::Thickness(x) => Some(x),
            _ => None,
        }
    }

    fn peek_mut(v: &mut PropertyValue) -> (r: Option<&mut Thickness>) {
        match v {
            PropertyValue::Thickness(x) => Some(x),
            _ => None,
        }
    }

    open spec fn default_view() -> Self::V {
        Thickness { left: 0, top: 0, right: 0, bottom: 0 }
    }

    fn default_value() -> (r: Self) {
        Thickness { left: 0, top: 0, right: 0, bottom: 0 }
    }

    fn copy_of(&self) -> (r: Thickness) {
        *self
    }

    fn same_as(&self, other: &Thickness) -> (b: bool) {
        self.left == other.left && self.top == other.top && self.right == other.right
            && self.bottom == other.bottom
    }
}

impl Property for Constraint {
    open spec fn wrap(x: Constraint) -> PropertyView {
        PropertyView::Constraint(x)
    }

    open spec fn unwrap(v: PropertyView) -> Option<Constraint> {
        match v {
            PropertyView::Constraint(x) => Some(x),
            _ => None,
        }
    }

    proof fn lemma_unwrap_wrap(x: Constraint) {
    }

    proof fn lemma_wrap_unwrap(v: PropertyView) {
    }

    proof fn lemma_kind(x: Constraint, v: PropertyView) {
    }

    fn into_value(self) -> (v: PropertyValue) {
        PropertyValue::Constraint(self)
    }

    fn peek(v: &PropertyValue) -> (r: Option<&Constraint>) {
        match v {
            PropertyValue::Constraint(x) => Some(x),
            _ => None,
        }
    }

    fn peek_mut(v: &mut PropertyValue) -> (r: Option<&mut Constraint>) {
        match v {
            PropertyValue::Constraint(x) => Some(x),
            _ => None,
        }
    }

    open spec fn default_view() -> Self::V {
        Constraint { width: 0, height: 0, min_width: 0, min_height: 0, max_width: u32::MAX, max_height: u32::MAX }
    }

    fn default_value() -> (r: Self) {
        Constraint {
            width: 0,
            height: 0,
            min_width: 0,
            min_height: 0,
            max_width: u32::MAX,
            max_height: u32::MAX,
        }
    }

    fn copy_of(&self) -> (r: Constraint) {
        *self
    }

    fn same_as(&self, other: &Constraint) -> (b: bool) {
        self.width == other.width && self.height == other.height && self.min_width
            == other.min_width && self.min_height == other.min_height && self.max_width
            == other.max_width && self.max_height == other.max_height
    }
}

} // verus!

verus! {

/// The kind-checked value of the property `k` in `m`: `Some` where `m` holds a
/// value of the kind of `P` under `k`.
pub open spec fn typed_in<P: Property>(m: Map<(u32, Seq<char>), PropertyView>, k: (u32, Seq<char>)) -> Option<P::V> {
    if m.contains_key(k) {
        P::unwrap(m[k])
    } else {
        None
    }
}

/// Reading a property back after writing it gives what was written, and writing one
/// property leaves every other property as it was.
pub proof fn law_read_after_write<P: Property, Q: Property>(
    m: Map<(u32, Seq<char>), PropertyView>,
    k: (u32, Seq<char>),
    x: P::V,
    q: (u32, Seq<char>),
)
    ensures
        typed_in::<P>(m.insert(k, P::wrap(x)), k) == Some(x),
        q != k ==> typed_in::<Q>(m.insert(k, P::wrap(x)), q) == typed_in::<Q>(m, q),
{
    P::lemma_unwrap_wrap(x);
}

/// Holds the properties of all entities, each under an entity and a name.
pub struct PropertyStore {
    keys: Vec<(u32, String)>,
    values: Vec<PropertyValue>,
}

impl PropertyStore {
    pub closed spec fn key_at(&self, i: int) -> (u32, Seq<char>) {
        (self.keys@[i].0, self.keys@[i].1@)
    }

    pub closed spec fn has_key(&self, k: (u32, Seq<char>)) -> bool {
        exists|i: int| 0 <= i < self.keys@.len() && self.key_at(i) == k
    }

    pub closed spec fn index_of(&self, k: (u32, Seq<char>)) -> int {
        choose|i: int| 0 <= i < self.keys@.len() && self.key_at(i) == k
    }

    /// The keys are unique and each has a value.
    pub closed spec fn wf(&self) -> bool {
        &&& self.keys@.len() == self.values@.len()
        &&& forall|i: int, j: int|
            0 <= i < self.keys@.len() && 0 <= j < self.keys@.len() && i != j ==> self.key_at(i)
                != self.key_at(j)
    }

    pub closed spec fn as_map(&self) -> Map<(u32, Seq<char>), PropertyView> {
        Map::new(|k: (u32, Seq<char>)| self.has_key(k), |k: (u32, Seq<char>)| self.values@[self.index_of(k)]@)
    }

    proof fn lemma_at(&self, i: int)
        requires
            self.wf(),
            0 <= i < self.keys@.len(),
        ensures
            self.as_map().contains_key(self.key_at(i)),
            self.as_map()[self.key_at(i)] == self.values@[i]@,
    {
        let k = self.key_at(i);
        assert(self.has_key(k));
        let j = self.index_of(k);
        assert(self.key_at(j) == k);
    }

    proof fn lemma_update(before: PropertyStore, after: PropertyStore, i: int)
        requires
            before.wf(),
            0 <= i < before.keys@.len(),
            after.keys@ == before.keys@,
            after.values@ == before.values@.update(i, after.values@[i]),
        ensures
            after.wf(),
            after@ == before@.insert(before.key_at(i), after.values@[i]@),
            after.values@[i]@ == before.values@[i]@ ==> after@ == before@,
    {
        assert(after.values@.len() == before.values@.len());
        assert forall|a: int| 0 <= a < after.keys@.len() implies #[trigger] after.key_at(a) == before.key_at(a) by {}
        assert(after.wf());
        let k = before.key_at(i);
        assert forall|q| #![auto] after.as_map().contains_key(q) <==> before.as_map().insert(k, after.values@[i]@).contains_key(q) by {
            if before.has_key(q) {
                let j = before.index_of(q);
                assert(after.key_at(j) == q);
            }
            if after.has_key(q) {
                let j = after.index_of(q);
                assert(before.key_at(j) == q);
            }
        }
        assert forall|q| #![auto] after.as_map().contains_key(q) implies after.as_map()[q] == before.as_map().insert(k, after.values@[i]@)[q] by {
            let j = after.index_of(q);
            after.lemma_at(j);
            if j != i {
                before.lemma_at(j);
            }
        }
        assert(after.as_map() =~= before.as_map().insert(k, after.values@[i]@));
        before.lemma_at(i);
        if after.values@[i]@ == before.values@[i]@ {
            assert(before.as_map().insert(k, after.values@[i]@) =~= before.as_map());
        }
    }

    /// An empty store.
    pub fn new() -> (s: PropertyStore)
        ensures
            s.wf(),
            s@ == Map::<(u32, Seq<char>), PropertyView>::empty(),
    {
        let s = PropertyStore { keys: Vec::new(), values: Vec::new() };
        assert(s.as_map() =~= Map::<(u32, Seq<char>), PropertyView>::empty());
        s
    }

    /// The number of properties in the store.
    pub fn len(&self) -> (n: usize)
        requires
            self.wf(),
        ensures
            n == self@.len(),
    {
        proof {
            self.lemma_len();
        }
        self.keys.len()
    }

    proof fn lemma_len(&self)
        requires
            self.wf(),
        ensures
            self.as_map().dom().finite(),
            self.as_map().len() == self.keys@.len(),
        decreases self.keys@.len(),
    {
        let ks = Seq::new(self.keys@.len(), |i: int| self.key_at(i));
        assert(self.as_map().dom() =~= ks.to_set()) by {
            assert forall|k| self.as_map().dom().contains(k) implies ks.to_set().contains(k) by {
                let i = self.index_of(k);
                assert(ks[i] == k);
            }
            assert forall|k| ks.to_set().contains(k) implies self.as_map().dom().contains(k) by {
                let i = choose|i: int| 0 <= i < ks.len() && ks[i] == k;
                assert(self.key_at(i) == k);
            }
        }
        assert(ks.no_duplicates());
        ks.unique_seq_to_set();
    }

    fn find(&self, key: &str, entity: u32) -> (r: Option<usize>)
        requires
            self.wf(),
        ensures
            match r {
                Some(i) => i < self.keys@.len() && self.key_at(i as int) == (entity, key@),
                None => !self@.contains_key((entity, key@)),
            },
    {
        let k = key.to_owned();
        let n = self.keys.len();
        let mut i: usize = 0;
        while i < n
            invariant
                self.wf(),
                n == self.keys@.len(),
                i <= n,
                k@ == key@,
                forall|j: int| 0 <= j < i ==> self.key_at(j) != (entity, key@),
            decreases n - i,
        {
            if self.keys[i].0 == entity && self.keys[i].1 == k {
                return Some(i);
            }
            i = i + 1;
        }
        proof {
            if self.as_map().contains_key((entity, key@)) {
                let j = self.index_of((entity, key@));
                assert(self.key_at(j) == (entity, key@));
            }
        }
        None
    }

    /// Whether the store holds a property named `key` for `entity`, of any kind.
    pub fn contains(&self, key: &str, entity: u32) -> (b: bool)
        requires
            self.wf(),
        ensures
            b == self@.contains_key((entity, key@)),
    {
        match self.find(key, entity) {
            Some(i) => {
                proof {
                    self.lemma_at(i as int);
                }
                true
            },
            None => false,
        }
    }

    /// Stores `value` as the property `key` of `entity`, replacing what was there.
    pub fn register<P: Property>(&mut self, key: &str, entity: u32, value: P)
        requires
            old(self).wf(),
        ensures
            final(self).wf(),
            final(self)@ == old(self)@.insert((entity, key@), P::wrap(value@)),
    {
        let ghost k = (entity, key@);
        let v = value.into_value();
        match self.find(key, entity) {
            Some(i) => {
                self.values.set(i, v);
                proof {
                    assert(self.keys@ == old(self).keys@);
                    assert forall|a: int| 0 <= a < self.keys@.len() implies #[trigger] self.key_at(a) == old(self).key_at(a) by {}
                    assert(self.wf());
                    assert forall|q| #![auto] self.as_map().contains_key(q) <==> old(self).as_map().insert(k, P::wrap(value@)).contains_key(q) by {
                        if old(self).has_key(q) {
                            let j = old(self).index_of(q);
                            assert(self.key_at(j) == q);
                        }
                        if self.has_key(q) {
                            let j = self.index_of(q);
                            assert(old(self).key_at(j) == q);
                        }
                    }
                    assert forall|q| #![auto] self.as_map().contains_key(q) implies self.as_map()[q] == old(self).as_map().insert(k, P::wrap(value@))[q] by {
                        let j = self.index_of(q);
                        self.lemma_at(j);
                        if j == i {
                        } else {
                            old(self).lemma_at(j);
                        }
                    }
                    assert(self.as_map() =~= old(self).as_map().insert(k, P::wrap(value@)));
                }
            },
            None => {
                self.keys.push((entity, key.to_owned()));
                self.values.push(v);
                proof {
                    let n = old(self).keys@.len() as int;
                    assert(self.key_at(n) == k);
                    assert forall|j: int| 0 <= j < n implies self.key_at(j) == old(self).key_at(j) by {}
                    assert(self.wf()) by {
                        assert forall|a: int, b: int|
                            0 <= a < self.keys@.len() && 0 <= b < self.keys@.len() && a != b implies
                            self.key_at(a) != self.key_at(b) by {
                            if a < n && b < n {
                                assert(self.key_at(a) == old(self).key_at(a));
                                assert(self.key_at(b) == old(self).key_at(b));
                            } else if a == n {
                                assert(self.key_at(b) == old(self).key_at(b));
                                assert(old(self).has_key(old(self).key_at(b)));
                            } else {
                                assert(self.key_at(a) == old(self).key_at(a));
                                assert(old(self).has_key(old(self).key_at(a)));
                            }
                        }
                    }
                    assert forall|q| #![auto] self.as_map().contains_key(q) <==> old(self).as_map().insert(k, P::wrap(value@)).contains_key(q) by {
                        if old(self).has_key(q) {
                            let j = old(self).index_of(q);
                            assert(self.key_at(j) == q);
                        }
                        if self.has_key(q) && q != k {
                            let j = self.index_of(q);
                            assert(old(self).key_at(j) == q);
                        }
                    }
                    assert forall|q| #![auto] self.as_map().contains_key(q) implies self.as_map()[q] == old(self).as_map().insert(k, P::wrap(value@))[q] by {
                        let j = self.index_of(q);
                        self.lemma_at(j);
                        if j < n {
                            old(self).lemma_at(j);
                        }
                    }
                    assert(self.as_map() =~= old(self).as_map().insert(k, P::wrap(value@)));
                }
            },
        }
    }

    /// The property `key` of `entity`, where it is of the kind of `P`.
    pub fn get<P: Property>(&self, key: &str, entity: u32) -> (r: Option<&P>)
        requires
            self.wf(),
        ensures
            match r {
                Some(p) => typed_in::<P>(self@, (entity, key@)) == Some(p@),
                None => typed_in::<P>(self@, (entity, key@)) is None,
            },
    {
        match self.find(key, entity) {
            Some(i) => {
                proof {
                    self.lemma_at(i as int);
                }
                P::peek(&self.values[i])
            },
            None => None,
        }
    }

    /// A mutable reference to the property `key` of `entity`, where it is of the kind of `P`.
    pub fn get_mut<P: Property>(&mut self, key: &str, entity: u32) -> (r: Option<&mut P>)
        requires
            old(self).wf(),
        ensures
            final(self).wf(),
            r is Some <==> typed_in::<P>(old(self)@, (entity, key@)) is Some,
            r matches Some(p) ==> typed_in::<P>(old(self)@, (entity, key@)) == Some(p@),
            r matches Some(p) ==> final(self)@ == old(self)@.insert((entity, key@), P::wrap(final(p)@)),
            r is None ==> final(self)@ == old(self)@,
    {
        match self.find(key, entity) {
            Some(i) => {
                proof {
                    self.lemma_at(i as int);
                    let before = *self;
                    assert forall|after: PropertyStore|
                        after.keys@ == before.keys@ && after.values@ == before.values@.update(
                            i as int,
                            after.values@[i as int],
                        ) implies #[trigger] after.wf() && after@ == before@.insert(
                            before.key_at(i as int),
                            after.values@[i as int]@,
                        ) && (after.values@[i as int]@ == before.values@[i as int]@ ==> after@ == before@) by {
                        Self::lemma_update(before, after, i as int);
                    }
                }
                P::peek_mut(&mut self.values[i])
            },
            None => None,
        }
    }
}

impl View for PropertyStore {
    type V = Map<(u32, Seq<char>), PropertyView>;

    open spec fn view(&self) -> Map<(u32, Seq<char>), PropertyView> {
        self.as_map()
    }
}

} // verus!
