//! State shared by all controllers.

use vstd::prelude::*;
use std::collections::HashMap;

verus! {

/// A bag of numbered values that every controller can read and write.
///
/// The hub hands it to each controller it calls and never looks inside.
pub struct Res {
    values: HashMap<u64, i64>,
}

impl View for Res {
    type V = Map<u64, i64>;

    closed spec fn view(&self) -> Map<u64, i64> {
        self.values@
    }
}

impl Res {
    /// An empty bag.
    pub fn new() -> (res: Res)
        ensures
            res@ == Map::<u64, i64>::empty(),
    {
        Res { values: HashMap::new() }
    }

    /// Stores `value` under `key` and returns what was stored there before.
    pub fn insert(&mut self, key: u64, value: i64) -> (previous: Option<i64>)
        ensures
            final(self)@ == old(self)@.insert(key, value),
            previous == (if old(self)@.contains_key(key) {
                Some(old(self)@[key])
            } else {
                None
            }),
    {
        self.values.insert(key, value)
    }

    /// The value stored under `key`, if there is one.
    pub fn get(&self, key: u64) -> (value: Option<i64>)
        ensures
            value == (if self@.contains_key(key) {
                Some(self@[key])
            } else {
                None
            }),
    {
        match self.values.get(&key) {
            Some(value) => Some(*value),
            None => None,
        }
    }
}

} // verus!
