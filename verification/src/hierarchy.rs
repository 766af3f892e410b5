//! Traversal of an entity hierarchy snapshot.
//!
//! The store's parent/child relation is modeled as a list of entries, one per
//! parent entity, each carrying that entity's children in order. Traversal is
//! exposed as iterators whose every step is pinned down: a breadth-first
//! walk pops the front of its queue and appends the popped entity's children;
//! a depth-first walk pops the top of its stack and pushes the children in
//! reverse, so that the first child is visited next.

use vstd::prelude::*;

verus! {

/// A snapshot of the store's parent/child relation: each entry holds a
/// parent entity and its children, in order.
pub struct Hierarchy {
    links: Vec<(u64, Vec<u64>)>,
}

impl View for Hierarchy {
    type V = Seq<(u64, Vec<u64>)>;

    closed spec fn view(&self) -> Seq<(u64, Vec<u64>)> {
        self.links@
    }
}

impl Hierarchy {
    /// The children recorded for an entity by the first entry that names it;
    /// an entity without an entry has none.
    pub open spec fn children_of(self, entity: u64) -> Seq<u64> {
        children_in(self@, entity)
    }

    /// The parent recorded for an entity: the owner of the first entry whose
    /// children include it.
    pub open spec fn parent_of(self, entity: u64) -> Option<u64> {
        parent_in(self@, entity)
    }

    /// Creates an empty hierarchy.
    pub fn new() -> (h: Self)
        ensures
            h@.len() == 0,
    {
        Hierarchy { links: Vec::new() }
    }

    /// Records an entity's children, in order. The entity must not have been
    /// recorded before; its earlier entry would shadow the new one.
    pub fn add(&mut self, entity: u64, children: Vec<u64>)
        requires
            forall|i: int|
                0 <= i < old(self)@.len() ==> (#[trigger] old(self)@[i]).0 != entity,
        ensures
            final(self)@ == old(self)@.push((entity, children)),
            final(self).children_of(entity) == children@,
            forall|e: u64|
                e != entity ==> #[trigger] final(self).children_of(e) == old(self).children_of(e),
    {
        let ghost pre = self.links@;
        self.links.push((entity, children));
        proof {
            lemma_children_push(pre, entity, children);
        }
    }

    /// The children of the given entity, in order.
    pub fn children(&self, entity: u64) -> (r: Vec<u64>)
        ensures
            r@ == self.children_of(entity),
    {
        let mut i: usize = 0;
        while i < self.links.len()
            invariant
                i <= self.links@.len(),
                forall|j: int| 0 <= j < i ==> (#[trigger] self.links@[j]).0 != entity,
            decreases self.links@.len() - i,
        {
            if self.links[i].0 == entity {
                let r = clone_entities(&self.links[i].1);
                proof {
                    lemma_children_found(self.links@, entity, i as int);
                }
                return r;
            }
            i = i + 1;
        }
        proof {
            lemma_children_absent(self.links@, entity);
        }
        Vec::new()
    }

    /// The parent of the given entity, if any entry's children include it.
    pub fn parent(&self, entity: u64) -> (r: Option<u64>)
        ensures
            r == self.parent_of(entity),
    {
        proof {
            assert(self.links@.skip(0) =~= self.links@);
        }
        let mut i: usize = 0;
        while i < self.links.len()
            invariant
                i <= self.links@.len(),
                parent_in(self.links@, entity) == parent_in(self.links@.skip(i as int), entity),
                forall|j: int|
                    0 <= j < i ==> !(#[trigger] self.links@[j]).1@.contains(entity),
            decreases self.links@.len() - i,
        {
            if contains_entity(&self.links[i].1, entity) {
                proof {
                    lemma_parent_step(self.links@, entity, i as int);
                }
                return Some(self.links[i].0);
            }
            proof {
                lemma_parent_step(self.links@, entity, i as int);
            }
            i = i + 1;
        }
        None
    }

    /// Starts a walk up the tree from the given entity's parent.
    pub fn ancestors(&self, entity: u64) -> (it: AncestorIter)
        ensures
            it.current == self.parent_of(entity),
    {
        AncestorIter { current: self.parent(entity) }
    }

    /// Starts a breadth-first walk over the given entity's descendants.
    pub fn descendants_wide(&self, entity: u64) -> (it: DescendantsWideIter)
        ensures
            it@ == self.children_of(entity),
    {
        DescendantsWideIter { queue: self.children(entity) }
    }

    /// Starts a depth-first walk over the given entity's descendants.
    pub fn descendants_deep(&self, entity: u64) -> (it: DescendantsDeepIter)
        ensures
            it@ == self.children_of(entity).reverse(),
    {
        DescendantsDeepIter { stack: reversed(&self.children(entity)) }
    }
}

/// The children `entries` records for `entity`: those of the first entry that
/// names it.
pub open spec fn children_in(entries: Seq<(u64, Vec<u64>)>, entity: u64) -> Seq<u64>
    decreases entries.len(),
{
    if entries.len() == 0 {
        Seq::empty()
    } else if entries[0].0 == entity {
        entries[0].1@
    } else {
        children_in(entries.drop_first(), entity)
    }
}

/// The parent `entries` records for `entity`: the owner of the first entry
/// whose children include it.
pub open spec fn parent_in(entries: Seq<(u64, Vec<u64>)>, entity: u64) -> Option<u64>
    decreases entries.len(),
{
    if entries.len() == 0 {
        Option::None
    } else if entries[0].1@.contains(entity) {
        Option::Some(entries[0].0)
    } else {
        parent_in(entries.drop_first(), entity)
    }
}

/// A walk up the tree, one parent link per step.
pub struct AncestorIter {
    /// The entity the next step hands out, if the walk has not reached a
    /// root.
    pub current: Option<u64>,
}

impl AncestorIter {
    /// Hands out the current entity and moves to its parent; [`None`] once a
    /// root has been passed.
    pub fn next(&mut self, hierarchy: &Hierarchy) -> (r: Option<u64>)
        ensures
            r == old(self).current,
            final(self).current == (match old(self).current {
                Option::Some(e) => hierarchy.parent_of(e),
                Option::None => Option::None::<u64>,
            }),
    {
        match self.current {
            Some(entity) => {
                self.current = hierarchy.parent(entity);
                Some(entity)
            },
            None => None,
        }
    }
}

/// A breadth-first walk over descendants: a queue of entities to visit.
pub struct DescendantsWideIter {
    queue: Vec<u64>,
}

impl View for DescendantsWideIter {
    type V = Seq<u64>;

    closed spec fn view(&self) -> Seq<u64> {
        self.queue@
    }
}

impl DescendantsWideIter {
    /// Visits the front of the queue and appends its children behind the
    /// entities already waiting; [`None`] once the queue is empty.
    pub fn next(&mut self, hierarchy: &Hierarchy) -> (r: Option<u64>)
        ensures
            old(self)@.len() == 0 ==> r is None && final(self)@ == old(self)@,
            old(self)@.len() > 0 ==> r == Option::Some(old(self)@[0]) && final(self)@ == old(
                self,
            )@.drop_first() + hierarchy.children_of(old(self)@[0]),
    {
        if self.queue.len() == 0 {
            return None;
        }
        let current = self.queue.remove(0);
        let mut children = hierarchy.children(current);
        let ghost mid = self.queue@;
        let ghost all = children@;
        let mut i: usize = 0;
        while i < children.len()
            invariant
                i <= children@.len(),
                children@ == all,
                self.queue@ == mid + all.subrange(0, i as int),
            decreases children@.len() - i,
        {
            self.queue.push(children[i]);
            proof {
                assert(all.subrange(0, i as int + 1) =~= all.subrange(0, i as int).push(
                    all[i as int],
                ));
                assert(mid + all.subrange(0, i as int + 1) =~= (mid + all.subrange(
                    0,
                    i as int,
                )).push(all[i as int]));
            }
            i = i + 1;
        }
        proof {
            assert(all.subrange(0, all.len() as int) =~= all);
        }
        Some(current)
    }
}

/// A depth-first walk over descendants: a stack of entities to visit, the
/// next one on top.
pub struct DescendantsDeepIter {
    stack: Vec<u64>,
}

impl View for DescendantsDeepIter {
    type V = Seq<u64>;

    closed spec fn view(&self) -> Seq<u64> {
        self.stack@
    }
}

impl DescendantsDeepIter {
    /// Visits the top of the stack and pushes its children in reverse, so
    /// that the first child is visited next; [`None`] once the stack is
    /// empty.
    pub fn next(&mut self, hierarchy: &Hierarchy) -> (r: Option<u64>)
        ensures
            old(self)@.len() == 0 ==> r is None && final(self)@ == old(self)@,
            old(self)@.len() > 0 ==> r == Option::Some(old(self)@.last()) && final(self)@ == old(
                self,
            )@.drop_last() + hierarchy.children_of(old(self)@.last()).reverse(),
    {
        if self.stack.len() == 0 {
            return None;
        }
        let current = self.stack.pop().unwrap();
        let children = hierarchy.children(current);
        let mut rev = reversed(&children);
        self.stack.append(&mut rev);
        Some(current)
    }
}

/// A copy of a list of entities.
fn clone_entities(entities: &Vec<u64>) -> (r: Vec<u64>)
    ensures
        r@ == entities@,
{
    let mut r: Vec<u64> = Vec::new();
    let mut i: usize = 0;
    while i < entities.len()
        invariant
            i <= entities@.len(),
            r@ == entities@.subrange(0, i as int),
        decreases entities@.len() - i,
    {
        r.push(entities[i]);
        proof {
            assert(entities@.subrange(0, i as int + 1) =~= entities@.subrange(0, i as int).push(
                entities@[i as int],
            ));
        }
        i = i + 1;
    }
    proof {
        assert(entities@.subrange(0, entities@.len() as int) =~= entities@);
    }
    r
}

/// A list of entities in reverse order.
fn reversed(entities: &Vec<u64>) -> (r: Vec<u64>)
    ensures
        r@ == entities@.reverse(),
{
    let mut r: Vec<u64> = Vec::new();
    let mut i: usize = entities.len();
    while i > 0
        invariant
            i <= entities@.len(),
            r@ == entities@.skip(i as int).reverse(),
        decreases i,
    {
        i = i - 1;
        r.push(entities[i]);
        proof {
            assert(entities@.skip(i as int) =~= seq![entities@[i as int]]
                + entities@.skip(i as int + 1));
            assert(entities@.skip(i as int).reverse() =~= entities@.skip(
                i as int + 1,
            ).reverse().push(entities@[i as int]));
        }
    }
    proof {
        assert(entities@.skip(0) =~= entities@);
    }
    r
}

/// Whether a list of entities contains one.
fn contains_entity(entities: &Vec<u64>, entity: u64) -> (b: bool)
    ensures
        b == entities@.contains(entity),
{
    let mut i: usize = 0;
    while i < entities.len()
        invariant
            i <= entities@.len(),
            forall|j: int| 0 <= j < i ==> entities@[j] != entity,
        decreases entities@.len() - i,
    {
        if entities[i] == entity {
            assert(entities@.contains(entity));
            return true;
        }
        i = i + 1;
    }
    false
}

/// Appending a fresh entry leaves every other entity's children unchanged and
/// gives the new entity its list, provided no earlier entry named it.
proof fn lemma_children_push(entries: Seq<(u64, Vec<u64>)>, entity: u64, children: Vec<u64>)
    requires
        forall|i: int| 0 <= i < entries.len() ==> (#[trigger] entries[i]).0 != entity,
    ensures
        children_in(entries.push((entity, children)), entity) == children@,
        forall|e: u64|
            e != entity ==> #[trigger] children_in(entries.push((entity, children)), e)
                == children_in(entries, e),
    decreases entries.len(),
{
    let pushed = entries.push((entity, children));
    if entries.len() == 0 {
        assert(pushed.drop_first() =~= Seq::empty());
        assert forall|e: u64| e != entity implies #[trigger] children_in(pushed, e)
            == children_in(entries, e) by {
            reveal_with_fuel(children_in, 2);
        }
    } else {
        lemma_children_push(entries.drop_first(), entity, children);
        assert(pushed.drop_first() =~= entries.drop_first().push((entity, children)));
        assert forall|e: u64| e != entity implies #[trigger] children_in(pushed, e)
            == children_in(entries, e) by {
            assert(children_in(pushed.drop_first(), e) == children_in(entries.drop_first(), e));
        }
    }
}

/// The first entry that names an entity decides its children.
proof fn lemma_children_found(entries: Seq<(u64, Vec<u64>)>, entity: u64, i: int)
    requires
        0 <= i < entries.len(),
        entries[i].0 == entity,
        forall|j: int| 0 <= j < i ==> (#[trigger] entries[j]).0 != entity,
    ensures
        children_in(entries, entity) == entries[i].1@,
    decreases i,
{
    if i > 0 {
        lemma_children_found(entries.drop_first(), entity, i - 1);
    }
}

/// An entity no entry names has no children.
proof fn lemma_children_absent(entries: Seq<(u64, Vec<u64>)>, entity: u64)
    requires
        forall|j: int| 0 <= j < entries.len() ==> (#[trigger] entries[j]).0 != entity,
    ensures
        children_in(entries, entity) == Seq::<u64>::empty(),
    decreases entries.len(),
{
    if entries.len() > 0 {
        lemma_children_absent(entries.drop_first(), entity);
    }
}

/// Walking one entry forward preserves the recorded parent, as long as no
/// earlier entry's children include the entity; and the first entry whose
/// children do include it decides the parent.
proof fn lemma_parent_step(entries: Seq<(u64, Vec<u64>)>, entity: u64, i: int)
    requires
        0 <= i < entries.len(),
        forall|j: int| 0 <= j < i ==> !(#[trigger] entries[j]).1@.contains(entity),
    ensures
        entries[i].1@.contains(entity) ==> parent_in(entries, entity) == Option::Some(
            entries[i].0,
        ),
        !entries[i].1@.contains(entity) ==> parent_in(entries.skip(i), entity) == parent_in(
            entries.skip(i + 1),
            entity,
        ) && parent_in(entries, entity) == parent_in(entries.skip(i), entity),
    decreases i,
{
    if i > 0 {
        lemma_parent_step(entries.drop_first(), entity, i - 1);
        assert(entries.drop_first().skip(i - 1) =~= entries.skip(i));
        assert(entries.drop_first().skip(i) =~= entries.skip(i + 1));
    } else {
        assert(entries.skip(0) =~= entries);
        assert(entries.skip(1) =~= entries.drop_first());
    }
}

} // verus!
