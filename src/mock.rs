//! Substitute results for intercepted calls, keyed by the callee's entry offset.
use vstd::prelude::*;
use std::collections::HashMap;

verus! {

broadcast use vstd::std_specs::hash::group_hash_axioms;

/// What a mocked call hands back to its caller.
#[derive(Clone, Copy, Debug, PartialEq, Eq, Structural)]
pub enum MockPayload {
    /// One value.
    Scalar(u128),
    /// `length` consecutive values read from `source` when the call is made.
    Vector { length: u64, source: u64 },
}

/// One registered mock: calls whose target is `target_offset` return `payload`.
#[derive(Clone, Copy, Debug, PartialEq, Eq, Structural)]
pub struct MockEntry {
    pub target_offset: u64,
    pub payload: MockPayload,
}

/// The mocks of one run, at most one per callee offset. A later registration
/// for an offset replaces the earlier one, whichever its kind.
pub struct MockTable {
    entries: HashMap<u64, MockPayload>,
}

impl View for MockTable {
    type V = Map<u64, MockPayload>;

    closed spec fn view(&self) -> Map<u64, MockPayload> {
        self.entries@
    }
}

impl MockTable {
    pub fn new() -> (r: MockTable)
        ensures
            r@ == Map::<u64, MockPayload>::empty(),
    {
        MockTable { entries: HashMap::new() }
    }

    /// Registers `entry`, replacing any mock already set for its offset.
    pub fn insert(&mut self, entry: MockEntry)
        ensures
            final(self)@ == old(self)@.insert(entry.target_offset, entry.payload),
    {
        self.entries.insert(entry.target_offset, entry.payload);
    }

    /// The mock registered for `target_offset`, if any.
    pub fn get(&self, target_offset: u64) -> (r: Option<MockPayload>)
        ensures
            r == (if self@.contains_key(target_offset) {
                Some(self@[target_offset])
            } else {
                None
            }),
    {
        match self.entries.get(&target_offset) {
            Some(p) => Some(*p),
            None => None,
        }
    }

    pub fn len(&self) -> (r: usize)
        ensures
            r == self@.len(),
    {
        self.entries.len()
    }

    pub fn is_empty(&self) -> (r: bool)
        ensures
            r == (self@.len() == 0),
    {
        self.entries.len() == 0
    }
}

} // verus!
