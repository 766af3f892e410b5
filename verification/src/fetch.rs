//! The read-time expectation decorator: a match-before-fetch protocol that
//! asserts instead of silently filtering.
//!
//! The store's native query protocol tests, per chunk of entities, whether
//! the chunk's schema carries a pattern's required attribute set, and fetches
//! rows only from matching chunks — silently omitting the rest. Wrapping an
//! inner pattern in [`Expect`] changes that: the decorator reports every
//! chunk as matching, caches the inner pattern's own membership test when the
//! query moves onto a chunk, and at each row fetch either delegates to the
//! inner pattern or aborts, naming the entity whose row failed to match.
//!
//! The decorator still reports the inner pattern's attribute accesses to the
//! store's conflict-detection layer, even though a mismatch is enforced as an
//! abort rather than a filter; dropping them would make concurrent-access
//! analysis elsewhere in the store unsound.

use vstd::prelude::*;

verus! {

/// What a row fetch through the decorator does.
#[derive(Clone, Copy, PartialEq, Eq, Structural, Debug)]
pub enum FetchOutcome {
    /// The chunk matched the inner pattern: delegate to its normal fetch.
    Materialize,
    /// The chunk did not match: abort, naming the entity.
    Abort {
        /// The entity whose row was about to be fetched.
        entity: u64,
    },
}

/// Whether a chunk schema carries every attribute a pattern requires.
pub open spec fn pattern_matches(required: Seq<u64>, schema: Seq<u64>) -> bool {
    forall|i: int| 0 <= i < required.len() ==> schema.contains(#[trigger] required[i])
}

/// The read-time decorator around an inner query pattern, represented by the
/// set of attribute types the inner pattern requires.
pub struct Expect {
    required: Vec<u64>,
}

impl View for Expect {
    type V = Seq<u64>;

    closed spec fn view(&self) -> Seq<u64> {
        self.required@
    }
}

/// The decorator's per-chunk fetch state: the inner pattern's cached
/// membership test for the chunk the query currently walks.
pub struct ChunkFetch {
    matched: bool,
}

impl View for ChunkFetch {
    type V = bool;

    closed spec fn view(&self) -> bool {
        self.matched
    }
}

impl Expect {
    /// Creates a decorator around an inner pattern requiring the given
    /// attribute types.
    pub fn new(required: Vec<u64>) -> (e: Self)
        ensures
            e@ == required@,
    {
        Expect { required }
    }

    /// The attribute types the inner pattern requires.
    pub fn required(&self) -> (r: &Vec<u64>)
        ensures
            r@ == self@,
    {
        &self.required
    }

    /// Creates the fetch state for a fresh query walk; no chunk has been
    /// tested yet, so nothing is cached as matching.
    pub fn init_fetch(&self) -> (f: ChunkFetch)
        ensures
            !f@,
    {
        ChunkFetch { matched: false }
    }

    /// Moves the fetch state onto a chunk with the given schema: tests the
    /// inner pattern's required attribute set against the schema, before any
    /// row of the chunk is fetched, and caches the answer for the chunk's
    /// lifetime.
    pub fn set_chunk(&self, fetch: &mut ChunkFetch, schema: &Vec<u64>)
        ensures
            final(fetch)@ == pattern_matches(self@, schema@),
    {
        let mut i: usize = 0;
        while i < self.required.len()
            invariant
                i <= self.required@.len(),
                forall|j: int| 0 <= j < i ==> schema@.contains(#[trigger] self.required@[j]),
            decreases self.required@.len() - i,
        {
            if !contains_key(schema, self.required[i]) {
                fetch.matched = false;
                return ;
            }
            i = i + 1;
        }
        fetch.matched = true;
    }

    /// Fetches one row through the decorator: if the chunk was cached as
    /// matching, the inner pattern's normal fetch materializes the row;
    /// otherwise the fetch aborts, naming the entity.
    pub fn fetch(&self, fetch: &ChunkFetch, entity: u64) -> (r: FetchOutcome)
        ensures
            fetch@ ==> r is Materialize,
            !fetch@ ==> r == (FetchOutcome::Abort { entity }),
    {
        if fetch.matched {
            FetchOutcome::Materialize
        } else {
            FetchOutcome::Abort { entity }
        }
    }

    /// The membership test the decorator itself reports to the store: every
    /// chunk matches, so that no row is silently filtered out; a mismatch is
    /// caught by [`Expect::fetch`] instead.
    pub fn matches_component_set(&self) -> (b: bool)
        ensures
            b,
    {
        true
    }

    /// Reports the inner pattern's attribute accesses to the store's
    /// conflict-detection layer by appending them to the access declaration.
    pub fn update_access(&self, access: &mut Vec<u64>)
        ensures
            final(access)@ == old(access)@ + self@,
    {
        let ghost pre = access@;
        let mut i: usize = 0;
        while i < self.required.len()
            invariant
                i <= self.required@.len(),
                access@ == pre + self.required@.subrange(0, i as int),
            decreases self.required@.len() - i,
        {
            access.push(self.required[i]);
            proof {
                assert(self.required@.subrange(0, i as int + 1) =~= self.required@.subrange(
                    0,
                    i as int,
                ).push(self.required@[i as int]));
                assert(pre + self.required@.subrange(0, i as int + 1) =~= (pre
                    + self.required@.subrange(0, i as int)).push(self.required@[i as int]));
            }
            i = i + 1;
        }
        proof {
            assert(self.required@.subrange(0, self.required@.len() as int) =~= self.required@);
        }
    }
}

/// Whether a schema carries one attribute type.
fn contains_key(schema: &Vec<u64>, key: u64) -> (b: bool)
    ensures
        b == schema@.contains(key),
{
    let mut i: usize = 0;
    while i < schema.len()
        invariant
            i <= schema@.len(),
            forall|j: int| 0 <= j < i ==> schema@[j] != key,
        decreases schema@.len() - i,
    {
        if schema[i] == key {
            assert(schema@.contains(key));
            return true;
        }
        i = i + 1;
    }
    false
}

/// A chunk whose schema lacks any one required attribute fails the inner
/// pattern's membership test — so, through [`Expect::set_chunk`] and
/// [`Expect::fetch`], every row fetched from such a chunk aborts instead of
/// being silently skipped.
pub proof fn lemma_missing_attribute_aborts(required: Seq<u64>, schema: Seq<u64>, attr: u64)
    requires
        required.contains(attr),
        !schema.contains(attr),
    ensures
        !pattern_matches(required, schema),
{
    let i = choose|i: int| 0 <= i < required.len() && required[i] == attr;
    assert(!schema.contains(required[i]));
}

} // verus!
