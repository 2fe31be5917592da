//! The cache of an evaluation: the values of the outputs computed so far.

use vstd::prelude::*;
use std::collections::HashMap;
use crate::id_type::OutputId;
use crate::value::{MyValueType, ValueView};

verus! {

broadcast use vstd::std_specs::hash::group_hash_axioms;

/// The values of outputs, by handle. An evaluation reads it before it
/// computes anything and writes every value that it computes into it. The
/// caller may keep it from one evaluation to the next, and is then the one to
/// take out what a change of the graph has made stale.
pub struct OutputsCache {
    values: HashMap<usize, MyValueType>,
}

impl View for OutputsCache {
    type V = Map<OutputId, ValueView>;

    closed spec fn view(&self) -> Map<OutputId, ValueView> {
        Map::new(
            |o: OutputId| self.values@.contains_key(o.0),
            |o: OutputId| self.values@[o.0]@,
        )
    }
}

impl Default for OutputsCache {
    /// A cache that holds nothing.
    fn default() -> (cache: OutputsCache)
        ensures
            cache@ == Map::<OutputId, ValueView>::empty(),
    {
        OutputsCache::new()
    }
}

impl OutputsCache {
    /// A cache that holds nothing.
    pub fn new() -> (cache: OutputsCache)
        ensures
            cache@ == Map::<OutputId, ValueView>::empty(),
    {
        let cache = OutputsCache { values: HashMap::new() };
        assert(cache@ =~= Map::<OutputId, ValueView>::empty());
        cache
    }

    /// Whether the cache holds a value for the output.
    pub fn contains(&self, output: OutputId) -> (r: bool)
        ensures
            r == self@.contains_key(output),
    {
        self.values.contains_key(&output.0)
    }

    /// The value that the cache holds for the output, if it holds one.
    pub fn get(&self, output: OutputId) -> (r: Option<&MyValueType>)
        ensures
            match r {
                Some(value) => self@.contains_key(output) && value@ == self@[output],
                None => !self@.contains_key(output),
            },
    {
        self.values.get(&output.0)
    }

    /// Takes the value of an output out of the cache and returns it, if the
    /// cache held one: what a caller does with the outputs of a node that it
    /// has changed, and of the nodes that depend on it.
    pub fn remove(&mut self, output: OutputId) -> (r: Option<MyValueType>)
        ensures
            final(self)@ == old(self)@.remove(output),
            match r {
                Some(value) => old(self)@.contains_key(output) && value@ == old(self)@[output],
                None => !old(self)@.contains_key(output),
            },
    {
        let taken = self.values.remove(&output.0);
        assert(self@ =~= old(self)@.remove(output));
        taken
    }

    /// Takes everything out of the cache.
    pub fn clear(&mut self)
        ensures
            final(self)@ == Map::<OutputId, ValueView>::empty(),
    {
        self.values.clear();
        assert(self@ =~= Map::<OutputId, ValueView>::empty());
    }

    /// Stores a value for the output, in place of the one held for it, if any.
    pub fn insert(&mut self, output: OutputId, value: MyValueType)
        ensures
            final(self)@ == old(self)@.insert(output, value@),
    {
        self.values.insert(output.0, value);
        assert(self@ =~= old(self)@.insert(output, value@));
    }
}

} // verus!
