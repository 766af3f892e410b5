//! Entity-scoped deferred validation of "required attribute" contracts.
//!
//! A requirement declares that an attribute must exist on an entity. When no
//! suppression is in force the check happens immediately: a present attribute
//! passes silently, an absent one is a fatal contract violation naming the
//! attribute and the entity. While suppression is in force — globally, or for
//! one entity — the check is buffered instead, so that bulk construction
//! (say, restoring many entities from serialized state, where insertion order
//! is not reliable) does not raise spurious violations.
//!
//! Ending suppression hands the buffered requirements back for checking:
//! per-entity suppression hands back only that entity's requirements, ending
//! global suppression hands back the whole buffer, including requirements of
//! entities that also carry a per-entity tag — the global flush point is
//! authoritative. A buffered requirement whose entity has been destroyed by
//! flush time is discarded without a check.

use vstd::prelude::*;

verus! {

/// A declared "attribute `attr` must exist on entity `entity`" check.
#[derive(Clone, Copy, PartialEq, Eq, Structural, Debug)]
pub struct Requirement {
    /// The entity the attribute must exist on.
    pub entity: u64,
    /// The required attribute type.
    pub attr: u64,
}

/// What declaring a requirement resulted in.
#[derive(Clone, Copy, PartialEq, Eq, Structural, Debug)]
pub enum DeclareOutcome {
    /// Checked immediately; the attribute was present.
    Passed,
    /// Checked immediately; the attribute was absent. A fatal contract
    /// violation naming the attribute and the entity.
    Violation {
        /// The entity that is missing the attribute.
        entity: u64,
        /// The absent attribute type.
        attr: u64,
    },
    /// Suppression was in force; the check was buffered.
    Buffered,
}

/// What checking one buffered requirement at flush time resulted in.
#[derive(Clone, Copy, PartialEq, Eq, Structural, Debug)]
pub enum CheckOutcome {
    /// The entity exists and carries the attribute.
    Passed,
    /// The entity no longer exists; the requirement is discarded unchecked.
    Dropped,
    /// The entity exists but the attribute is absent. A fatal contract
    /// violation naming the attribute and the entity.
    Violation {
        /// The entity that is missing the attribute.
        entity: u64,
        /// The absent attribute type.
        attr: u64,
    },
}

/// What checking a whole flushed batch resulted in.
#[derive(Clone, Copy, PartialEq, Eq, Structural, Debug)]
pub enum FlushOutcome {
    /// Every requirement either passed or was dropped with its entity.
    Completed,
    /// The first requirement whose entity exists without the attribute.
    Fatal {
        /// The position of that requirement in the batch.
        index: usize,
    },
}

/// The mathematical model of a [`ValidationScope`].
pub struct ValidationModel {
    /// Whether global suppression is in force.
    pub global_suppressed: bool,
    /// The entities carrying a per-entity suppression tag.
    pub suppressed: Seq<u64>,
    /// The buffered requirements, in declaration order.
    pub buffer: Seq<Requirement>,
}

impl ValidationModel {
    /// Whether a check on the given entity is routed to the buffer.
    pub open spec fn suppressed_for(self, entity: u64) -> bool {
        self.global_suppressed || self.suppressed.contains(entity)
    }
}

/// What declaring a requirement does: under suppression it is appended to the
/// buffer unchecked; otherwise it passes or is a violation according to
/// whether the attribute is present, and nothing is buffered.
pub open spec fn declare_model(m: ValidationModel, entity: u64, attr: u64, present: bool) -> (
    ValidationModel,
    DeclareOutcome,
) {
    if m.suppressed_for(entity) {
        (
            ValidationModel { buffer: m.buffer.push(Requirement { entity, attr }), ..m },
            DeclareOutcome::Buffered,
        )
    } else if present {
        (m, DeclareOutcome::Passed)
    } else {
        (m, DeclareOutcome::Violation { entity, attr })
    }
}

/// The buffered requirements of one entity, in declaration order.
pub open spec fn requirements_of(buffer: Seq<Requirement>, entity: u64) -> Seq<Requirement>
    decreases buffer.len(),
{
    if buffer.len() == 0 {
        Seq::empty()
    } else {
        let rest = requirements_of(buffer.drop_last(), entity);
        if buffer.last().entity == entity {
            rest.push(buffer.last())
        } else {
            rest
        }
    }
}

/// The buffered requirements of every other entity, in declaration order.
pub open spec fn requirements_of_others(buffer: Seq<Requirement>, entity: u64) -> Seq<Requirement>
    decreases buffer.len(),
{
    if buffer.len() == 0 {
        Seq::empty()
    } else {
        let rest = requirements_of_others(buffer.drop_last(), entity);
        if buffer.last().entity == entity {
            rest
        } else {
            rest.push(buffer.last())
        }
    }
}

/// The suppression tags left after removing one entity's.
pub open spec fn tags_without(suppressed: Seq<u64>, entity: u64) -> Seq<u64>
    decreases suppressed.len(),
{
    if suppressed.len() == 0 {
        Seq::empty()
    } else {
        let rest = tags_without(suppressed.drop_last(), entity);
        if suppressed.last() == entity {
            rest
        } else {
            rest.push(suppressed.last())
        }
    }
}

/// What ending one entity's suppression does: its tag is removed, its
/// buffered requirements leave the buffer and are handed back for checking;
/// every other entity's requirements stay buffered.
pub open spec fn end_entity_model(m: ValidationModel, entity: u64) -> (ValidationModel, Seq<
    Requirement,
>) {
    (
        ValidationModel {
            global_suppressed: m.global_suppressed,
            suppressed: tags_without(m.suppressed, entity),
            buffer: requirements_of_others(m.buffer, entity),
        },
        requirements_of(m.buffer, entity),
    )
}

/// What ending global suppression does: the flag is cleared and the whole
/// buffer is handed back for checking, in declaration order.
pub open spec fn end_global_model(m: ValidationModel) -> (ValidationModel, Seq<Requirement>) {
    (
        ValidationModel {
            global_suppressed: false,
            suppressed: m.suppressed,
            buffer: Seq::empty(),
        },
        m.buffer,
    )
}

/// What checking one flushed requirement does: a destroyed entity drops the
/// requirement unchecked; a present attribute passes; an absent one is a
/// violation naming the attribute and the entity.
pub open spec fn check_model(req: Requirement, alive: bool, present: bool) -> CheckOutcome {
    if !alive {
        CheckOutcome::Dropped
    } else if present {
        CheckOutcome::Passed
    } else {
        CheckOutcome::Violation { entity: req.entity, attr: req.attr }
    }
}

/// The suppression scope and validation buffer.
///
/// Holds the global suppression flag, the per-entity suppression tags, and
/// the buffered requirements in declaration order.
pub struct ValidationScope {
    global_suppressed: bool,
    suppressed: Vec<u64>,
    buffer: Vec<Requirement>,
}

impl View for ValidationScope {
    type V = ValidationModel;

    closed spec fn view(&self) -> ValidationModel {
        ValidationModel {
            global_suppressed: self.global_suppressed,
            suppressed: self.suppressed@,
            buffer: self.buffer@,
        }
    }
}

impl ValidationScope {
    /// Creates a scope with no suppression in force and nothing buffered.
    pub fn new() -> (s: Self)
        ensures
            !s@.global_suppressed,
            s@.suppressed.len() == 0,
            s@.buffer.len() == 0,
    {
        ValidationScope { global_suppressed: false, suppressed: Vec::new(), buffer: Vec::new() }
    }

    /// Whether a check on the given entity would currently be buffered.
    pub fn is_suppressed(&self, entity: u64) -> (b: bool)
        ensures
            b == self@.suppressed_for(entity),
    {
        if self.global_suppressed {
            return true;
        }
        let mut i: usize = 0;
        while i < self.suppressed.len()
            invariant
                i <= self.suppressed@.len(),
                forall|j: int| 0 <= j < i ==> self.suppressed@[j] != entity,
            decreases self.suppressed@.len() - i,
        {
            if self.suppressed[i] == entity {
                assert(self@.suppressed.contains(entity));
                return true;
            }
            i = i + 1;
        }
        false
    }

    /// Puts global suppression in force.
    pub fn suppress(&mut self)
        ensures
            final(self)@ == (ValidationModel { global_suppressed: true, ..old(self)@ }),
            forall|e: u64| final(self)@.suppressed_for(e),
    {
        self.global_suppressed = true;
    }

    /// Tags one entity so that its checks are buffered.
    pub fn suppress_entity(&mut self, entity: u64)
        ensures
            final(self)@ == (ValidationModel {
                suppressed: old(self)@.suppressed.push(entity),
                ..old(self)@
            }),
            final(self)@.suppressed_for(entity),
    {
        self.suppressed.push(entity);
        proof {
            assert(self.suppressed@.last() == entity);
        }
    }

    /// Declares that `attr` must exist on `entity`, `present` saying whether
    /// the store currently shows it there. Under suppression the requirement
    /// is buffered unchecked; otherwise the outcome is immediate and nothing
    /// is buffered.
    pub fn declare(&mut self, entity: u64, attr: u64, present: bool) -> (outcome: DeclareOutcome)
        ensures
            (final(self)@, outcome) == declare_model(old(self)@, entity, attr, present),
    {
        if self.is_suppressed(entity) {
            self.buffer.push(Requirement { entity, attr });
            DeclareOutcome::Buffered
        } else if present {
            DeclareOutcome::Passed
        } else {
            DeclareOutcome::Violation { entity, attr }
        }
    }

    /// Ends one entity's suppression: removes its tag and hands back its
    /// buffered requirements, in declaration order, for checking. Other
    /// entities' requirements stay buffered.
    pub fn end_suppression_entity(&mut self, entity: u64) -> (batch: Vec<Requirement>)
        ensures
            (final(self)@, batch@) == end_entity_model(old(self)@, entity),
    {
        let ghost pre = *self;
        let mut tags: Vec<u64> = Vec::new();
        let mut i: usize = 0;
        while i < self.suppressed.len()
            invariant
                *self == pre,
                i <= pre.suppressed@.len(),
                tags@ == tags_without(pre.suppressed@.subrange(0, i as int), entity),
            decreases pre.suppressed@.len() - i,
        {
            let ghost prefix = pre.suppressed@.subrange(0, i as int);
            let tag = self.suppressed[i];
            if tag != entity {
                tags.push(tag);
            }
            proof {
                assert(pre.suppressed@.subrange(0, i as int + 1) =~= prefix.push(tag));
                assert(prefix.push(tag).drop_last() =~= prefix);
            }
            i = i + 1;
        }
        proof {
            assert(pre.suppressed@.subrange(0, pre.suppressed@.len() as int) =~= pre.suppressed@);
        }
        self.suppressed = tags;

        let mut taken: Vec<Requirement> = Vec::new();
        let mut kept: Vec<Requirement> = Vec::new();
        let mut i: usize = 0;
        while i < self.buffer.len()
            invariant
                self.buffer@ == pre.buffer@,
                i <= pre.buffer@.len(),
                taken@ == requirements_of(pre.buffer@.subrange(0, i as int), entity),
                kept@ == requirements_of_others(pre.buffer@.subrange(0, i as int), entity),
            decreases pre.buffer@.len() - i,
        {
            let ghost prefix = pre.buffer@.subrange(0, i as int);
            let req = self.buffer[i];
            if req.entity == entity {
                taken.push(req);
            } else {
                kept.push(req);
            }
            proof {
                assert(pre.buffer@.subrange(0, i as int + 1) =~= prefix.push(req));
                assert(prefix.push(req).drop_last() =~= prefix);
            }
            i = i + 1;
        }
        proof {
            assert(pre.buffer@.subrange(0, pre.buffer@.len() as int) =~= pre.buffer@);
        }
        self.buffer = kept;
        taken
    }

    /// Ends global suppression: clears the flag and hands back the whole
    /// buffer, in declaration order, for checking. Per-entity tags are left
    /// in force for checks declared after this point.
    pub fn end_suppression(&mut self) -> (batch: Vec<Requirement>)
        ensures
            (final(self)@, batch@) == end_global_model(old(self)@),
    {
        self.global_suppressed = false;
        let mut batch: Vec<Requirement> = Vec::new();
        std::mem::swap(&mut batch, &mut self.buffer);
        batch
    }

    /// How many requirements are buffered.
    pub fn buffered_count(&self) -> (n: usize)
        ensures
            n == self@.buffer.len(),
    {
        self.buffer.len()
    }
}

/// Checks one flushed requirement, `alive` saying whether its entity still
/// exists and `present` whether the entity carries the attribute.
pub fn check_requirement(req: Requirement, alive: bool, present: bool) -> (outcome: CheckOutcome)
    ensures
        outcome == check_model(req, alive, present),
{
    if !alive {
        CheckOutcome::Dropped
    } else if present {
        CheckOutcome::Passed
    } else {
        CheckOutcome::Violation { entity: req.entity, attr: req.attr }
    }
}

/// Checks a flushed batch in order against the store facts for each
/// requirement (whether its entity is alive, and whether the attribute is
/// present), stopping fatally at the first violation; dropped requirements
/// are skipped silently.
pub fn check_batch(reqs: &Vec<Requirement>, facts: &Vec<(bool, bool)>) -> (outcome: FlushOutcome)
    requires
        reqs@.len() == facts@.len(),
    ensures
        outcome is Completed <==> forall|j: int|
            0 <= j < reqs@.len() ==> !(#[trigger] check_model(reqs@[j], facts@[j].0, facts@[j].1)
                is Violation),
        outcome matches FlushOutcome::Fatal { index } ==> {
            &&& 0 <= index < reqs@.len()
            &&& check_model(reqs@[index as int], facts@[index as int].0, facts@[index as int].1)
                is Violation
            &&& forall|j: int|
                0 <= j < index ==> !(#[trigger] check_model(reqs@[j], facts@[j].0, facts@[j].1)
                    is Violation)
        },
{
    let mut i: usize = 0;
    while i < reqs.len()
        invariant
            reqs@.len() == facts@.len(),
            i <= reqs@.len(),
            forall|j: int|
                0 <= j < i ==> !(#[trigger] check_model(reqs@[j], facts@[j].0, facts@[j].1)
                    is Violation),
        decreases reqs@.len() - i,
    {
        let fact = facts[i];
        if fact.0 && !fact.1 {
            return FlushOutcome::Fatal { index: i };
        }
        i = i + 1;
    }
    FlushOutcome::Completed
}

/// Ending one entity's suppression flushes exactly that entity's buffered
/// requirements: nothing of the entity stays buffered afterwards — each of
/// its requirements is handed back for its one check — and every other
/// entity's buffered requirements are untouched.
pub proof fn lemma_end_entity_flushes_one_entity(m: ValidationModel, entity: u64)
    ensures
        requirements_of(end_entity_model(m, entity).0.buffer, entity) == Seq::<Requirement>::empty(),
        forall|other: u64|
            other != entity ==> #[trigger] requirements_of(
                end_entity_model(m, entity).0.buffer,
                other,
            ) == requirements_of(m.buffer, other),
{
    lemma_requirements_split(m.buffer, entity);
}

/// What [`requirements_of_others`] leaves: none of the removed entity's
/// requirements, and every other entity's exactly as they were.
proof fn lemma_requirements_split(buffer: Seq<Requirement>, entity: u64)
    ensures
        requirements_of(requirements_of_others(buffer, entity), entity) == Seq::<
            Requirement,
        >::empty(),
        forall|other: u64|
            other != entity ==> #[trigger] requirements_of(requirements_of_others(buffer, entity), other)
                == requirements_of(buffer, other),
    decreases buffer.len(),
{
    if buffer.len() > 0 {
        let rest = buffer.drop_last();
        let last = buffer.last();
        lemma_requirements_split(rest, entity);
        if last.entity != entity {
            assert(requirements_of_others(rest, entity).push(last).drop_last()
                =~= requirements_of_others(rest, entity));
            assert forall|other: u64| other != entity implies #[trigger] requirements_of(
                requirements_of_others(buffer, entity),
                other,
            ) == requirements_of(buffer, other) by {
                let kept = requirements_of_others(rest, entity);
                assert(requirements_of_others(buffer, entity) == kept.push(last));
                assert(requirements_of(kept, other) == requirements_of(rest, other));
            }
        }
    }
}

/// A requirement declared under suppression is buffered, not checked; ending
/// its entity's suppression hands it back, after the entity's earlier
/// buffered requirements; and if the attribute has been inserted by then, the
/// check passes.
pub proof fn lemma_buffered_requirement_passes_when_inserted(
    m: ValidationModel,
    entity: u64,
    attr: u64,
)
    requires
        m.suppressed_for(entity),
    ensures
        ({
            let (buffered, outcome) = declare_model(m, entity, attr, false);
            let (after, batch) = end_entity_model(buffered, entity);
            &&& outcome is Buffered
            &&& batch == requirements_of(m.buffer, entity).push(Requirement { entity, attr })
            &&& check_model(Requirement { entity, attr }, true, true) is Passed
        }),
{
    let req = Requirement { entity, attr };
    assert(m.buffer.push(req).drop_last() =~= m.buffer);
}

/// A requirement declared under suppression whose entity is destroyed before
/// suppression ends is discarded at flush time: whatever the store would say
/// about the attribute, no violation is raised.
pub proof fn lemma_buffered_requirement_dropped_with_entity(
    m: ValidationModel,
    entity: u64,
    attr: u64,
)
    requires
        m.suppressed_for(entity),
    ensures
        ({
            let (buffered, outcome) = declare_model(m, entity, attr, false);
            let (after, batch) = end_entity_model(buffered, entity);
            &&& outcome is Buffered
            &&& batch == requirements_of(m.buffer, entity).push(Requirement { entity, attr })
            &&& forall|present: bool|
                check_model(Requirement { entity, attr }, false, present) is Dropped
        }),
{
    let req = Requirement { entity, attr };
    assert(m.buffer.push(req).drop_last() =~= m.buffer);
}

} // verus!
