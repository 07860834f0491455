//! The entities of a widget tree with their children, and the manager that
//! keeps them together with their properties.
use vstd::prelude::*;
use crate::property::PropertyStore;

verus! {

/// For each registered entity, the list of its children in order.
pub struct EntityTree {
    entities: Vec<u32>,
    children: Vec<Vec<u32>>,
}

impl EntityTree {
    pub closed spec fn wf(&self) -> bool {
        &&& self.entities@.len() == self.children@.len()
        &&& forall|i: int, j: int|
            0 <= i < self.entities@.len() && 0 <= j < self.entities@.len() && i != j
                ==> self.entities@[i] != self.entities@[j]
    }

    pub closed spec fn slot(&self, e: u32) -> int {
        choose|i: int| 0 <= i < self.entities@.len() && self.entities@[i] == e
    }

    pub closed spec fn as_map(&self) -> Map<u32, Seq<u32>> {
        Map::new(
            |e: u32| exists|i: int| 0 <= i < self.entities@.len() && self.entities@[i] == e,
            |e: u32| self.children@[self.slot(e)]@,
        )
    }

    proof fn lemma_at(&self, i: int)
        requires
            self.wf(),
            0 <= i < self.entities@.len(),
        ensures
            self.as_map().contains_key(self.entities@[i]),
            self.as_map()[self.entities@[i]] == self.children@[i]@,
    {
        let j = self.slot(self.entities@[i]);
        assert(0 <= j < self.entities@.len() && self.entities@[j] == self.entities@[i]);
    }

    proof fn lemma_update(before: EntityTree, after: EntityTree, i: int)
        requires
            before.wf(),
            0 <= i < before.entities@.len(),
            after.entities@ == before.entities@,
            after.children@ == before.children@.update(i, after.children@[i]),
        ensures
            after.wf(),
            after@ == before@.insert(before.entities@[i], after.children@[i]@),
    {
        assert(after.children@.len() == before.children@.len());
        let e = before.entities@[i];
        assert forall|q: u32| #![auto] after.as_map().contains_key(q) implies after.as_map()[q]
            == before.as_map().insert(e, after.children@[i]@)[q] by {
            let j = after.slot(q);
            after.lemma_at(j);
            if j != i {
                before.lemma_at(j);
            }
        }
        assert(after.as_map() =~= before.as_map().insert(e, after.children@[i]@));
    }

    /// A tree without entities.
    pub fn new() -> (t: EntityTree)
        ensures
            t.wf(),
            t@ == Map::<u32, Seq<u32>>::empty(),
    {
        let t = EntityTree { entities: Vec::new(), children: Vec::new() };
        assert(t.as_map() =~= Map::<u32, Seq<u32>>::empty());
        t
    }

    fn find(&self, entity: u32) -> (r: Option<usize>)
        requires
            self.wf(),
        ensures
            match r {
                Some(i) => i < self.entities@.len() && self.entities@[i as int] == entity,
                None => !self@.contains_key(entity),
            },
    {
        let n = self.entities.len();
        let mut i: usize = 0;
        while i < n
            invariant
                n == self.entities@.len(),
                i <= n,
                forall|j: int| 0 <= j < i ==> self.entities@[j] != entity,
            decreases n - i,
        {
            if self.entities[i] == entity {
                return Some(i);
            }
            i = i + 1;
        }
        None
    }

    /// Whether `entity` is registered.
    pub fn contains(&self, entity: u32) -> (b: bool)
        requires
            self.wf(),
        ensures
            b == self@.contains_key(entity),
    {
        match self.find(entity) {
            Some(i) => {
                proof {
                    self.lemma_at(i as int);
                }
                true
            },
            None => false,
        }
    }

    /// Registers `entity` without children; a registered entity keeps its children.
    pub fn register_entity(&mut self, entity: u32)
        requires
            old(self).wf(),
        ensures
            final(self).wf(),
            old(self)@.contains_key(entity) ==> final(self)@ == old(self)@,
            !old(self)@.contains_key(entity) ==> final(self)@ == old(self)@.insert(entity, Seq::<u32>::empty()),
    {
        match self.find(entity) {
            Some(i) => {
                proof {
                    self.lemma_at(i as int);
                }
            },
            None => {
                self.entities.push(entity);
                self.children.push(Vec::new());
                proof {
                    let n = old(self).entities@.len() as int;
                    assert forall|q: u32| #![auto] self.as_map().contains_key(q) <==> old(self).as_map().insert(
                        entity,
                        Seq::<u32>::empty(),
                    ).contains_key(q) by {
                        if old(self).as_map().contains_key(q) {
                            let j = old(self).slot(q);
                            assert(self.entities@[j] == q);
                        }
                        if self.as_map().contains_key(q) && q != entity {
                            let j = self.slot(q);
                            assert(old(self).entities@[j] == q);
                        }
                        if q == entity {
                            assert(self.entities@[n] == q);
                        }
                    }
                    assert forall|q: u32| #![auto] self.as_map().contains_key(q) implies self.as_map()[q]
                        == old(self).as_map().insert(entity, Seq::<u32>::empty())[q] by {
                        let j = self.slot(q);
                        self.lemma_at(j);
                        if j < n {
                            old(self).lemma_at(j);
                        }
                    }
                    assert(self.as_map() =~= old(self).as_map().insert(entity, Seq::<u32>::empty()));
                }
            },
        }
    }

    /// Appends `child` to the children of `parent`, registering both where needed.
    pub fn append_child(&mut self, parent: u32, child: u32)
        requires
            old(self).wf(),
        ensures
            final(self).wf(),
            final(self)@ == appended(registered(registered(old(self)@, child), parent), parent, child),
    {
        self.register_entity(child);
        self.register_entity(parent);
        let ghost mid = *self;
        match self.find(parent) {
            Some(i) => {
                proof {
                    self.lemma_at(i as int);
                }
                self.children[i].push(child);
                proof {
                    Self::lemma_update(mid, *self, i as int);
                }
            },
            None => {
                assert(false);
            },
        }
    }

    /// The children of `entity`.
    pub fn children(&self, entity: u32) -> (r: &Vec<u32>)
        requires
            self.wf(),
            self@.contains_key(entity),
        ensures
            r@ == self@[entity],
    {
        match self.find(entity) {
            Some(i) => {
                proof {
                    self.lemma_at(i as int);
                }
                &self.children[i]
            },
            None => {
                assert(false);
                &self.children[0]
            },
        }
    }
}

impl View for EntityTree {
    type V = Map<u32, Seq<u32>>;

    open spec fn view(&self) -> Map<u32, Seq<u32>> {
        self.as_map()
    }
}

/// `m` with `e` registered: unchanged where `e` is in it, else with `e` added without children.
pub open spec fn registered(m: Map<u32, Seq<u32>>, e: u32) -> Map<u32, Seq<u32>> {
    if m.contains_key(e) {
        m
    } else {
        m.insert(e, Seq::empty())
    }
}

/// `m` with `child` appended to the children of `parent`.
pub open spec fn appended(m: Map<u32, Seq<u32>>, parent: u32, child: u32) -> Map<u32, Seq<u32>> {
    m.insert(parent, m[parent].push(child))
}

/// Whether the subtree below `e` is finite with height below `fuel`: each entity
/// in it is registered in `tree`, and every path down from `e` ends within `fuel` steps.
pub open spec fn bounded(tree: Map<u32, Seq<u32>>, e: u32, fuel: nat) -> bool
    decreases fuel,
{
    &&& fuel > 0
    &&& tree.contains_key(e)
    &&& forall|i: int| 0 <= i < tree[e].len() ==> bounded(tree, #[trigger] tree[e][i], (fuel - 1) as nat)
}

/// The entities of a widget tree with their children, and the properties of each entity.
pub struct EntityComponentManager {
    pub entity_store: EntityTree,
    pub component_store: PropertyStore,
}

impl EntityComponentManager {
    pub open spec fn wf(&self) -> bool {
        self.entity_store.wf() && self.component_store.wf()
    }

    pub fn new(entity_store: EntityTree, component_store: PropertyStore) -> (m: EntityComponentManager)
        ensures
            m.entity_store == entity_store,
            m.component_store == component_store,
    {
        EntityComponentManager { entity_store, component_store }
    }
}

} // verus!
