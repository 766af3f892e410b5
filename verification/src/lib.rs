//! Utilities for an entity/attribute store built around one pattern: defer an
//! action until a safe point in the update cycle.
//!
//! The crate provides:
//! - a phase-scoped queue of one-shot deferred tasks with an atomic drain
//!   ([`defer`]);
//! - an entity-scoped deferred validation mechanism for "required attribute"
//!   contracts, with a suppression scope that buffers checks during bulk
//!   mutation ([`expect`]);
//! - a read-time decorator implementing a match-before-fetch protocol that
//!   asserts instead of silently filtering ([`fetch`]);
//! - traversal of an entity hierarchy snapshot ([`hierarchy`]);
//! - a minimal promise/future pair for handing a value from one system to
//!   another ([`future`]).

use vstd::prelude::*;

pub mod defer;
pub mod expect;
pub mod fetch;
pub mod future;
pub mod hierarchy;
pub mod phase;

verus! {

/// Convenient alias for `'static + Send + Sync`.
pub trait Static: 'static + Send + Sync {
}

impl<T: 'static + Send + Sync> Static for T {
}

/// The shortened form of a type path: its full name with the prefix of every
/// module path removed.
pub uninterp spec fn short_of(name: Seq<char>) -> Seq<char>;

/// Shortens a type path by removing all module prefixes, so that
/// `alloc::vec::Vec<core::option::Option<u32>>` becomes `Vec<Option<u32>>`.
///
/// Relies on `disqualified::ShortName`, whose shortening is computed from the
/// characters of `name` alone; an empty name stays empty.
#[verifier::external_body]
pub fn get_short_name(name: &str) -> (r: String)
    ensures
        r@ == short_of(name@),
        name@.len() == 0 ==> r@.len() == 0,
{
    disqualified::ShortName(name).to_string()
}

} // verus!
